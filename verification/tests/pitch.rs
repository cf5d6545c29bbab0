use cyma_core::{PITCH_CLASS_COUNT, PitchClass};

#[test]
fn converts_midi_note_to_pitch_class() {
    assert_eq!(PitchClass::from_midi(60), PitchClass::C());
    assert_eq!(PitchClass::from_midi(61).name(), "C#");
}

#[test]
fn conversion_is_octave_independent() {
    assert_eq!(PitchClass::from_midi(48), PitchClass::from_midi(60));
    assert_eq!(PitchClass::from_midi(60), PitchClass::from_midi(72));
}

#[test]
fn pitch_class_indices_and_names() {
    let names = ["C", "C#", "D", "D#", "E", "F", "F#", "G", "G#", "A", "A#", "B"];
    for index in 0..PITCH_CLASS_COUNT as u8 {
        let pitch_class = PitchClass::from_index(index).unwrap();
        assert_eq!(pitch_class.index(), index as usize);
        assert_eq!(pitch_class.as_u8(), index);
        assert_eq!(pitch_class.name(), names[index as usize]);
    }
    assert_eq!(PitchClass::from_index(12), None);
    assert_eq!(PitchClass::from_midi(127).name(), "G");
    assert_eq!(PitchClass::from_midi(0), PitchClass::C());
}

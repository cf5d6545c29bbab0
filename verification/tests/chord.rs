use cyma_core::{
    Chord, ChordQuality, PitchClass, deduce_chord_name, recognize_midi_notes,
    recognize_pitch_class_mask,
};

#[test]
fn recognizes_existing_freeplay_chords() {
    assert_eq!(deduce_chord_name(&[60, 64, 67]), "CM");
    assert_eq!(deduce_chord_name(&[62, 66, 69]), "DM");
    assert_eq!(deduce_chord_name(&[60, 63, 67]), "Cm");
    assert_eq!(deduce_chord_name(&[57, 60, 64]), "Am");
    assert_eq!(deduce_chord_name(&[60, 64, 67, 71]), "Cmaj7");
    assert_eq!(deduce_chord_name(&[60, 64, 67, 70]), "C7");
    assert_eq!(deduce_chord_name(&[60, 63, 67, 70]), "Cm7");
    assert_eq!(deduce_chord_name(&[60, 63, 66]), "Cdim");
    assert_eq!(deduce_chord_name(&[60, 64, 68]), "Caug");
    assert_eq!(deduce_chord_name(&[60, 65, 67]), "Csus4");
    assert_eq!(deduce_chord_name(&[60, 67]), "C5");
}

#[test]
fn handles_empty_and_single_note_chords() {
    assert_eq!(deduce_chord_name(&[]), "No notes");
    assert_eq!(deduce_chord_name(&[60]), "C");
}

#[test]
fn chord_recognition_is_octave_independent() {
    assert_eq!(deduce_chord_name(&[48, 64, 67, 72]), "CM");
    assert_eq!(
        deduce_chord_name(&[60, 64, 67]),
        deduce_chord_name(&[72, 76, 79])
    );
}

#[test]
fn recognizes_every_quality_over_c() {
    let cases: [(&[u8], &str); 21] = [
        (&[60, 63, 67], "Cm"),
        (&[60, 64, 67], "CM"),
        (&[60, 63, 66], "Cdim"),
        (&[60, 64, 68], "Caug"),
        (&[60, 63, 67, 70], "Cm7"),
        (&[60, 64, 67, 71], "Cmaj7"),
        (&[60, 64, 67, 70], "C7"),
        (&[60, 63, 66, 69], "Cdim7"),
        (&[60, 63, 66, 70], "Cm7b5"),
        (&[60, 64, 68, 70], "Caug7"),
        (&[60, 64, 68, 71], "Caugmaj7"),
        (&[60, 63, 67, 71], "Cmmaj7"),
        (&[60, 64, 67, 69], "C6"),
        (&[60, 63, 67, 69], "Cm6"),
        (&[60, 62, 67], "Csus2"),
        (&[60, 65, 67], "Csus4"),
        (&[60, 65, 67, 70], "C7sus4"),
        (&[60, 62, 64, 67, 70], "C9"),
        (&[60, 62, 64, 67, 71], "Cmaj9"),
        (&[60, 62, 63, 67, 70], "Cm9"),
        (&[60, 67], "C5"),
    ];
    for (notes, name) in cases {
        assert_eq!(deduce_chord_name(notes), name);
    }
}

#[test]
fn unknown_clusters_have_an_empty_name() {
    assert_eq!(recognize_midi_notes(&[60, 61]), Chord::Unknown);
    assert_eq!(deduce_chord_name(&[60, 61]), "");
}

#[test]
fn lowest_matching_root_names_ambiguous_chords() {
    // C6 and Am7 share their notes; the search starts from C.
    assert_eq!(deduce_chord_name(&[57, 60, 64, 67]), "C6");
    // The augmented triad is symmetric: C is tried before E and G#.
    assert_eq!(deduce_chord_name(&[64, 68, 72]), "Caug");
}

#[test]
fn recognition_ignores_order_and_doubling() {
    assert_eq!(
        recognize_midi_notes(&[67, 60, 64, 60]),
        recognize_midi_notes(&[60, 64, 67])
    );
}

#[test]
fn named_chords_report_root_and_quality() {
    let chord = recognize_midi_notes(&[62, 65, 69]);
    assert_eq!(
        chord,
        Chord::Named {
            root: PitchClass::from_index(2).unwrap(),
            quality: ChordQuality::Minor,
        }
    );
    assert_eq!(ChordQuality::DominantSeventhSuspendedFourth.suffix(), "7sus4");
}

#[test]
fn pitch_class_masks_are_recognized_directly() {
    assert_eq!(recognize_pitch_class_mask(0, 3), Chord::Empty);
    assert_eq!(recognize_pitch_class_mask(0b1001_0001, 0), Chord::Empty);
    assert_eq!(
        recognize_pitch_class_mask(0b1000_0000, 1),
        Chord::Single(PitchClass::from_index(7).unwrap())
    );
    // A lone bit above B is no pitch class.
    assert_eq!(recognize_pitch_class_mask(1 << 13, 1), Chord::Unknown);
    assert_eq!(
        recognize_pitch_class_mask(0b1001_0001, 3).to_string(),
        "CM"
    );
}

use cyma_core::{MidiEvent, MidiInputError, MidiState};

fn note_on(note: u8) -> MidiEvent {
    MidiEvent::NoteOn {
        channel: 0,
        note,
        velocity: 100,
    }
}

fn note_off(note: u8) -> MidiEvent {
    MidiEvent::NoteOff { channel: 0, note }
}

#[test]
fn handles_note_on_and_note_off() {
    let mut state = MidiState::default();
    state.apply(note_on(60)).unwrap();
    assert!(state.is_note_active(0, 60).unwrap());

    state.apply(note_off(60)).unwrap();
    assert!(!state.is_note_active(0, 60).unwrap());
}

#[test]
fn velocity_zero_note_on_is_note_off() {
    let mut state = MidiState::default();
    state.apply(note_on(60)).unwrap();
    state
        .apply(MidiEvent::NoteOn {
            channel: 0,
            note: 60,
            velocity: 0,
        })
        .unwrap();

    assert!(!state.is_note_active(0, 60).unwrap());
}

#[test]
fn sustain_holds_and_releases_notes() {
    let mut state = MidiState::default();
    state.apply(note_on(60)).unwrap();
    state
        .apply(MidiEvent::SustainPedal {
            channel: 0,
            down: true,
        })
        .unwrap();
    state.apply(note_off(60)).unwrap();
    assert!(state.is_note_active(0, 60).unwrap());

    state
        .apply(MidiEvent::SustainPedal {
            channel: 0,
            down: false,
        })
        .unwrap();
    assert!(!state.is_note_active(0, 60).unwrap());
}

#[test]
fn duplicate_notes_require_matching_note_off_events() {
    let mut state = MidiState::default();
    state.apply(note_on(60)).unwrap();
    state.apply(note_on(60)).unwrap();
    state.apply(note_off(60)).unwrap();
    assert!(state.is_note_active(0, 60).unwrap());

    state.apply(note_off(60)).unwrap();
    assert!(!state.is_note_active(0, 60).unwrap());
}

#[test]
fn out_of_range_input_is_rejected_without_change() {
    let mut state = MidiState::default();
    assert_eq!(
        state.apply(MidiEvent::NoteOn {
            channel: 16,
            note: 60,
            velocity: 100
        }),
        Err(MidiInputError::InvalidChannel(16))
    );
    assert_eq!(
        state.apply(MidiEvent::NoteOn {
            channel: 16,
            note: 200,
            velocity: 100
        }),
        Err(MidiInputError::InvalidNote(200))
    );
    assert_eq!(
        state.apply(MidiEvent::SustainPedal {
            channel: 20,
            down: true
        }),
        Err(MidiInputError::InvalidChannel(20))
    );
    assert_eq!(state.is_note_active(16, 200), Err(MidiInputError::InvalidChannel(16)));
    assert_eq!(state.is_note_active(0, 128), Err(MidiInputError::InvalidNote(128)));
    assert_eq!(state.active_note_count(), 0);
}

#[test]
fn duplicate_count_overflow_is_reported() {
    let mut state = MidiState::default();
    for _ in 0..u16::MAX {
        state.apply(note_on(61)).unwrap();
    }
    assert_eq!(
        state.apply(note_on(61)),
        Err(MidiInputError::DuplicateCountOverflow {
            channel: 0,
            note: 61
        })
    );
    assert_eq!(
        MidiInputError::DuplicateCountOverflow {
            channel: 0,
            note: 61
        }
        .to_string(),
        "too many duplicate Note On events for channel 0, note 61"
    );
    assert_eq!(MidiInputError::InvalidChannel(16).to_string(), "invalid MIDI channel 16");
    assert_eq!(MidiInputError::InvalidNote(200).to_string(), "invalid MIDI note 200");
}

#[test]
fn reports_whether_an_event_changed_anything() {
    let mut state = MidiState::default();
    assert_eq!(state.apply(note_off(60)), Ok(false));
    assert_eq!(state.apply(note_on(60)), Ok(true));
    assert_eq!(
        state.apply(MidiEvent::SustainPedal {
            channel: 0,
            down: false
        }),
        Ok(false)
    );
    assert_eq!(state.apply(MidiEvent::Reset), Ok(true));
    assert_eq!(state.apply(MidiEvent::Reset), Ok(false));
    state
        .apply(MidiEvent::SustainPedal {
            channel: 3,
            down: true,
        })
        .unwrap();
    assert_eq!(state.apply(MidiEvent::Reset), Ok(true));
}

#[test]
fn summarizes_active_pitch_classes_across_channels() {
    let mut state = MidiState::default();
    for (channel, note) in [(0, 60), (1, 64), (15, 79), (2, 72)] {
        state
            .apply(MidiEvent::NoteOn {
                channel,
                note,
                velocity: 90,
            })
            .unwrap();
    }
    assert_eq!(state.active_note_count(), 4);
    assert_eq!(state.active_summary(), (0b1001_0001, 4));
    assert_eq!(
        state.active_notes(),
        vec![(60, 90), (64, 90), (72, 90), (79, 90)]
    );
    state.apply(MidiEvent::Reset).unwrap();
    assert_eq!(state.active_summary(), (0, 0));
}

#[test]
fn sustained_note_keeps_its_velocity_until_the_pedal_lifts() {
    let mut state = MidiState::default();
    state
        .apply(MidiEvent::SustainPedal {
            channel: 0,
            down: true,
        })
        .unwrap();
    state.apply(note_on(64)).unwrap();
    state.apply(note_off(64)).unwrap();
    assert_eq!(state.active_notes(), vec![(64, 100)]);
    // The pedal of another channel does not release it.
    state
        .apply(MidiEvent::SustainPedal {
            channel: 1,
            down: true,
        })
        .unwrap();
    state
        .apply(MidiEvent::SustainPedal {
            channel: 1,
            down: false,
        })
        .unwrap();
    assert!(state.is_note_active(0, 64).unwrap());
    state
        .apply(MidiEvent::SustainPedal {
            channel: 0,
            down: false,
        })
        .unwrap();
    assert_eq!(state.active_notes(), vec![]);
}

#[test]
fn active_note_count_counts_each_sounding_key_once() {
    let mut state = MidiState::default();
    assert_eq!(state.active_note_count(), 0);
    state.apply(note_on(60)).unwrap();
    state.apply(note_on(60)).unwrap();
    state
        .apply(MidiEvent::NoteOn {
            channel: 1,
            note: 60,
            velocity: 100,
        })
        .unwrap();
    assert_eq!(state.active_note_count(), 2);
}

use cyma_core::{
    recognize_midi_notes, ChannelMessage, CymaMidiSource, CymaSources, MidiEvent, recognize_pitch_class_mask,
    to_cyma_midi_event,
};

fn note_on(note: u8) -> ChannelMessage {
    ChannelMessage::NoteOn { key: note, vel: 100 }
}

fn note_off(note: u8) -> ChannelMessage {
    ChannelMessage::NoteOff { key: note, vel: 0 }
}

fn chord_name(sources: &CymaSources) -> String {
    let (mask, count) = sources.active_summary();
    recognize_pitch_class_mask(mask, count).to_string()
}

#[test]
fn resetting_file_notes_preserves_user_notes() {
    let mut state = CymaSources::new();
    state
        .observe_midi_event(CymaMidiSource::User, 0, &note_on(60))
        .unwrap();
    for note in [64, 67] {
        state
            .observe_midi_event(CymaMidiSource::File, 0, &note_on(note))
            .unwrap();
    }
    assert!(state.take_dirty());
    assert_eq!(chord_name(&state), "CM");

    state.reset_source(CymaMidiSource::File).unwrap();
    assert!(state.take_dirty());
    assert_eq!(chord_name(&state), "C");
    assert_eq!(state.active_summary().1, 1);
}

#[test]
fn maps_sustain_controller_without_losing_note_state() {
    let mut state = CymaSources::new();
    state
        .observe_midi_event(CymaMidiSource::User, 0, &note_on(60))
        .unwrap();
    state
        .observe_midi_event(
            CymaMidiSource::User,
            0,
            &ChannelMessage::Controller {
                controller: 64,
                value: 127,
            },
        )
        .unwrap();
    state
        .observe_midi_event(CymaMidiSource::User, 0, &note_off(60))
        .unwrap();
    assert_eq!(state.active_summary().1, 1);

    state
        .observe_midi_event(
            CymaMidiSource::User,
            0,
            &ChannelMessage::Controller {
                controller: 64,
                value: 0,
            },
        )
        .unwrap();
    assert_eq!(state.active_summary().1, 0);
}

#[test]
fn percussion_channel_is_not_used_for_harmonic_analysis() {
    let mut state = CymaSources::new();
    assert!(
        !state
            .observe_midi_event(CymaMidiSource::User, 9, &note_on(60))
            .unwrap()
    );
    assert!(!state.take_dirty());
    assert_eq!(state.active_summary().1, 0);
}

#[test]
fn converts_channel_messages_to_harmony_events() {
    assert_eq!(
        to_cyma_midi_event(2, &note_on(61)),
        Some(MidiEvent::NoteOn {
            channel: 2,
            note: 61,
            velocity: 100
        })
    );
    assert_eq!(
        to_cyma_midi_event(2, &note_off(61)),
        Some(MidiEvent::NoteOff {
            channel: 2,
            note: 61
        })
    );
    assert_eq!(
        to_cyma_midi_event(
            0,
            &ChannelMessage::Controller {
                controller: 64,
                value: 64
            }
        ),
        Some(MidiEvent::SustainPedal {
            channel: 0,
            down: true
        })
    );
    assert_eq!(
        to_cyma_midi_event(
            0,
            &ChannelMessage::Controller {
                controller: 64,
                value: 63
            }
        ),
        Some(MidiEvent::SustainPedal {
            channel: 0,
            down: false
        })
    );
    assert_eq!(
        to_cyma_midi_event(
            0,
            &ChannelMessage::Controller {
                controller: 7,
                value: 100
            }
        ),
        None
    );
    assert_eq!(to_cyma_midi_event(0, &ChannelMessage::Other), None);
    assert_eq!(to_cyma_midi_event(9, &note_on(36)), None);
}

#[test]
fn unchanged_events_do_not_mark_the_harmony_dirty() {
    let mut state = CymaSources::new();
    assert!(!state
        .observe_midi_event(CymaMidiSource::File, 0, &note_off(60))
        .unwrap());
    assert!(!state.take_dirty());
    assert!(!state.reset_source(CymaMidiSource::User).unwrap());
    assert!(!state.take_dirty());
    assert!(state
        .observe_midi_event(CymaMidiSource::File, 1, &note_on(60))
        .is_ok());
    assert_eq!(state.source(CymaMidiSource::User).active_note_count(), 0);
    assert_eq!(state.source(CymaMidiSource::File).active_note_count(), 1);
    assert_eq!(state.active_notes(), vec![(60, 100)]);
}

#[test]
fn mixed_source_chord_matches_the_note_recognizer() {
    let mut state = CymaSources::new();
    for note in [57, 64] {
        state
            .observe_midi_event(CymaMidiSource::User, 0, &note_on(note))
            .unwrap();
    }
    state
        .observe_midi_event(CymaMidiSource::File, 3, &note_on(72))
        .unwrap();
    let notes: Vec<u8> = state.active_notes().iter().map(|(note, _)| *note).collect();
    assert_eq!(notes, vec![57, 64, 72]);
    let (mask, count) = state.active_summary();
    assert_eq!(recognize_pitch_class_mask(mask, count), recognize_midi_notes(&notes));
    assert_eq!(chord_name(&state), "Am");
}

use vstd::prelude::*;

use crate::analysis::{
    law_mixed_sources_chord_is_note_chord, lemma_sounding_notes_summary, sounding_notes,
};
use crate::chord::{recognize_mask, recognize_notes};
use crate::midi::{
    MidiEvent, MidiInputError, MidiModel, MidiState, active_note_velocities,
    active_pitch_class_mask, count_active, lemma_midi_state_well_formed,
};

verus! {

/// MIDI channel 10, which General MIDI reserves for percussion.
pub const PERCUSSION_CHANNEL: u8 = 9;

/// Controller number of the sustain pedal.
pub const SUSTAIN_CONTROLLER: u8 = 64;

/// Where a MIDI event comes from: the player, or the file being played.
#[derive(Debug, Clone, Copy, PartialEq, Eq, Structural)]
pub enum CymaMidiSource {
    User,
    File,
}

/// A MIDI channel message, with its data bytes as plain numbers.
#[derive(Debug, Clone, Copy, PartialEq, Eq, Structural)]
pub enum ChannelMessage {
    NoteOn { key: u8, vel: u8 },
    NoteOff { key: u8, vel: u8 },
    Controller { controller: u8, value: u8 },
    /// Any other channel message, which does not affect the harmony.
    Other,
}

/// The harmony event that a channel message carries, if any. Percussion
/// notes are not harmony; the sustain controller is a pedal, down from 64 up.
pub open spec fn harmony_event(channel: u8, message: ChannelMessage) -> Option<MidiEvent> {
    if channel == 9 {
        None
    } else {
        match message {
            ChannelMessage::NoteOn { key, vel } => Some(
                MidiEvent::NoteOn { channel, note: key, velocity: vel },
            ),
            ChannelMessage::NoteOff { key, .. } => Some(MidiEvent::NoteOff { channel, note: key }),
            ChannelMessage::Controller { controller, value } => if controller == 64 {
                Some(MidiEvent::SustainPedal { channel, down: value >= 64 })
            } else {
                None
            },
            ChannelMessage::Other => None,
        }
    }
}

/// The harmony event that a channel message carries, if any.
pub fn to_cyma_midi_event(channel: u8, message: &ChannelMessage) -> (event: Option<MidiEvent>)
    ensures
        event == harmony_event(channel, *message),
{
    if channel == PERCUSSION_CHANNEL {
        return None;
    }
    match message {
        ChannelMessage::NoteOn { key, vel } => Some(
            MidiEvent::NoteOn { channel, note: *key, velocity: *vel },
        ),
        ChannelMessage::NoteOff { key, .. } => Some(MidiEvent::NoteOff { channel, note: *key }),
        ChannelMessage::Controller { controller, value } => {
            if *controller == SUSTAIN_CONTROLLER {
                Some(MidiEvent::SustainPedal { channel, down: *value >= 64 })
            } else {
                None
            }
        },
        ChannelMessage::Other => None,
    }
}

/// The MIDI state of each source, kept apart, and whether either changed
/// since the harmony was last analysed.
#[derive(Debug, Clone)]
pub struct CymaSources {
    user: MidiState,
    file: MidiState,
    dirty: bool,
}

/// The abstract state of the sources.
pub struct SourcesModel {
    pub user: MidiModel,
    pub file: MidiModel,
    pub dirty: bool,
}

impl SourcesModel {
    /// The state of one source.
    pub open spec fn source(self, source: CymaMidiSource) -> MidiModel {
        match source {
            CymaMidiSource::User => self.user,
            CymaMidiSource::File => self.file,
        }
    }
}

impl View for CymaSources {
    type V = SourcesModel;

    closed spec fn view(&self) -> SourcesModel {
        SourcesModel { user: self.user@, file: self.file@, dirty: self.dirty }
    }
}

impl CymaSources {
    /// Both sources silent, nothing to analyse.
    pub fn new() -> (sources: Self)
        ensures
            sources@.user == MidiModel::initial(),
            sources@.file == MidiModel::initial(),
            !sources@.dirty,
    {
        CymaSources { user: MidiState::default(), file: MidiState::default(), dirty: false }
    }

    /// Feeds a channel message from a source. A message without a harmony
    /// event changes nothing and reports no change; otherwise the event goes
    /// to that source's state alone, and a change marks the sources dirty.
    pub fn observe_midi_event(
        &mut self,
        source: CymaMidiSource,
        channel: u8,
        message: &ChannelMessage,
    ) -> (changed: Result<bool, MidiInputError>)
        ensures
            harmony_event(channel, *message) is None ==> {
                &&& changed == Ok::<bool, MidiInputError>(false)
                &&& final(self)@ == old(self)@
            },
            harmony_event(channel, *message) matches Some(event) ==> {
                let (result, after) = old(self)@.source(source).apply(event);
                &&& changed == result
                &&& final(self)@.source(source) == after
                &&& final(self)@.dirty == (old(self)@.dirty || result == Ok::<
                    bool,
                    MidiInputError,
                >(true))
            },
            source == CymaMidiSource::User ==> final(self)@.file == old(self)@.file,
            source == CymaMidiSource::File ==> final(self)@.user == old(self)@.user,
    {
        let event = match to_cyma_midi_event(channel, message) {
            Some(event) => event,
            None => return Ok(false),
        };
        self.apply_to(source, event)
    }

    /// Resets one source; the other keeps its notes.
    pub fn reset_source(&mut self, source: CymaMidiSource) -> (changed: Result<
        bool,
        MidiInputError,
    >)
        ensures
            changed == old(self)@.source(source).apply(MidiEvent::Reset).0,
            final(self)@.source(source) == MidiModel::initial(),
            final(self)@.dirty == (old(self)@.dirty || changed == Ok::<bool, MidiInputError>(
                true,
            )),
            source == CymaMidiSource::User ==> final(self)@.file == old(self)@.file,
            source == CymaMidiSource::File ==> final(self)@.user == old(self)@.user,
    {
        self.apply_to(source, MidiEvent::Reset)
    }

    fn apply_to(&mut self, source: CymaMidiSource, event: MidiEvent) -> (changed: Result<
        bool,
        MidiInputError,
    >)
        ensures
            changed == old(self)@.source(source).apply(event).0,
            final(self)@.source(source) == old(self)@.source(source).apply(event).1,
            final(self)@.dirty == (old(self)@.dirty || changed == Ok::<bool, MidiInputError>(
                true,
            )),
            source == CymaMidiSource::User ==> final(self)@.file == old(self)@.file,
            source == CymaMidiSource::File ==> final(self)@.user == old(self)@.user,
    {
        let changed = match source {
            CymaMidiSource::User => self.user.apply(event),
            CymaMidiSource::File => self.file.apply(event),
        };
        if let Ok(true) = changed {
            self.dirty = true;
        }
        changed
    }

    /// Whether the harmony must be analysed again; the mark is cleared.
    pub fn take_dirty(&mut self) -> (dirty: bool)
        ensures
            dirty == old(self)@.dirty,
            !final(self)@.dirty,
            final(self)@.user == old(self)@.user,
            final(self)@.file == old(self)@.file,
    {
        let dirty = self.dirty;
        self.dirty = false;
        dirty
    }

    /// The state of one source.
    pub fn source(&self, source: CymaMidiSource) -> (state: &MidiState)
        ensures
            state@ == self@.source(source),
    {
        match source {
            CymaMidiSource::User => &self.user,
            CymaMidiSource::File => &self.file,
        }
    }

    /// The pitch classes sounding in either source, as a mask, and the
    /// number of sounding notes of both together.
    pub fn active_summary(&self) -> (summary: (u16, usize))
        ensures
            summary.0 == active_pitch_class_mask(self@.user.notes) | active_pitch_class_mask(
                self@.file.notes,
            ),
            summary.1 == count_active(self@.user.notes) + count_active(self@.file.notes),
            summary.1 == (sounding_notes(self@.user.notes) + sounding_notes(self@.file.notes)).len(),
            recognize_mask(summary.0, summary.1 as nat) == recognize_notes(
                sounding_notes(self@.user.notes) + sounding_notes(self@.file.notes),
            ),
    {
        proof {
            law_mixed_sources_chord_is_note_chord(self@.user.notes, self@.file.notes);
            lemma_sounding_notes_summary(self@.user.notes);
            lemma_sounding_notes_summary(self@.file.notes);
        }
        let (user_mask, user_count) = self.user.active_summary();
        let (file_mask, file_count) = self.file.active_summary();
        proof {
            lemma_midi_state_well_formed(&self.user);
            lemma_midi_state_well_formed(&self.file);
            crate::midi::lemma_count_active_bounded(self@.user.notes);
            crate::midi::lemma_count_active_bounded(self@.file.notes);
        }
        (user_mask | file_mask, user_count + file_count)
    }

    /// The sounding notes of the user and then of the file, each with its
    /// velocity raised to at least 1.
    pub fn active_notes(&self) -> (notes: Vec<(u8, u8)>)
        ensures
            notes@ == active_note_velocities(self@.user.notes) + active_note_velocities(
                self@.file.notes,
            ),
    {
        let mut notes = self.user.active_notes();
        let mut file_notes = self.file.active_notes();
        notes.append(&mut file_notes);
        notes
    }
}

/// Every channel but percussion reaches the harmony: on any other channel a
/// Note On or Note Off becomes the same event on that channel with the same
/// key (and velocity), and the sustain controller becomes that channel's
/// pedal, down from value 64 up; other controllers and messages are ignored.
pub proof fn law_melodic_channels_reach_the_harmony(channel: u8, key: u8, vel: u8, value: u8)
    requires
        channel != PERCUSSION_CHANNEL,
    ensures
        harmony_event(channel, ChannelMessage::NoteOn { key, vel }) == Some(
            MidiEvent::NoteOn { channel, note: key, velocity: vel },
        ),
        harmony_event(channel, ChannelMessage::NoteOff { key, vel }) == Some(
            MidiEvent::NoteOff { channel, note: key },
        ),
        harmony_event(channel, ChannelMessage::Controller { controller: SUSTAIN_CONTROLLER, value })
            == Some(MidiEvent::SustainPedal { channel, down: value >= 64 }),
        key != SUSTAIN_CONTROLLER ==> harmony_event(
            channel,
            ChannelMessage::Controller { controller: key, value },
        ) is None,
        harmony_event(channel, ChannelMessage::Other) is None,
{
}

/// Percussion never reaches the harmony: any message on the percussion
/// channel is ignored.
pub proof fn law_percussion_channel_is_ignored(message: ChannelMessage)
    ensures
        harmony_event(PERCUSSION_CHANNEL, message) is None,
{
}

} // verus!

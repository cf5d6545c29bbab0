use vstd::prelude::*;

use crate::bits::{has_bit, lemma_or_bit, lemma_zero_has_no_bit};
use crate::analysis::{
    law_summary_chord_is_note_chord, lemma_sounding_notes_summary, sounding_notes,
};
use crate::chord::{pitch_class_mask, recognize_mask, recognize_notes};
use crate::pitch::{PitchClass, midi_pitch_class};

verus! {

/// Number of MIDI channels.
pub const MIDI_CHANNEL_COUNT: usize = 16;

/// Number of MIDI note numbers.
pub const MIDI_NOTE_COUNT: usize = 128;

/// A MIDI input event that changes which notes sound.
#[derive(Debug, Clone, Copy, PartialEq, Eq, Structural)]
pub enum MidiEvent {
    NoteOn { channel: u8, note: u8, velocity: u8 },
    NoteOff { channel: u8, note: u8 },
    SustainPedal { channel: u8, down: bool },
    Reset,
}

/// Why a MIDI event was rejected.
#[derive(Debug, Clone, Copy, PartialEq, Eq, Structural)]
pub enum MidiInputError {
    /// The channel is 16 or more.
    InvalidChannel(u8),
    /// The note number is 128 or more.
    InvalidNote(u8),
    /// The key was already pressed `u16::MAX` times without release.
    DuplicateCountOverflow { channel: u8, note: u8 },
}

/// The decimal digits of a number, most significant first.
pub open spec fn decimal_digits(n: nat) -> Seq<char>
    decreases n,
{
    if n < 10 {
        seq![digit_char(n)]
    } else {
        decimal_digits(n / 10).push(digit_char(n % 10))
    }
}

/// The character of a decimal digit.
pub open spec fn digit_char(d: nat) -> char {
    if d == 0 {
        '0'
    } else if d == 1 {
        '1'
    } else if d == 2 {
        '2'
    } else if d == 3 {
        '3'
    } else if d == 4 {
        '4'
    } else if d == 5 {
        '5'
    } else if d == 6 {
        '6'
    } else if d == 7 {
        '7'
    } else if d == 8 {
        '8'
    } else {
        '9'
    }
}

fn digit_str(d: u8) -> (digit: &'static str)
    requires
        d < 10,
    ensures
        digit@ == seq![digit_char(d as nat)],
{
    proof {
        reveal_strlit("0");
        reveal_strlit("1");
        reveal_strlit("2");
        reveal_strlit("3");
        reveal_strlit("4");
        reveal_strlit("5");
        reveal_strlit("6");
        reveal_strlit("7");
        reveal_strlit("8");
        reveal_strlit("9");
    }
    match d {
        0 => "0",
        1 => "1",
        2 => "2",
        3 => "3",
        4 => "4",
        5 => "5",
        6 => "6",
        7 => "7",
        8 => "8",
        _ => "9",
    }
}

/// Appends the decimal digits of `n` to `text`.
fn append_decimal(text: &mut String, n: u8)
    ensures
        final(text)@ == old(text)@ + decimal_digits(n as nat),
    decreases n,
{
    if n >= 10 {
        append_decimal(text, n / 10);
    }
    text.append(digit_str(n % 10));
    proof {
        if n >= 10 {
            assert(old(text)@ + decimal_digits(n as nat) =~= old(text)@ + decimal_digits(
                (n / 10) as nat,
            ) + seq![digit_char((n % 10) as nat)]);
        }
    }
}

/// The message that describes an input error.
pub open spec fn error_message(error: MidiInputError) -> Seq<char> {
    match error {
        MidiInputError::InvalidChannel(channel) => "invalid MIDI channel "@ + decimal_digits(
            channel as nat,
        ),
        MidiInputError::InvalidNote(note) => "invalid MIDI note "@ + decimal_digits(note as nat),
        MidiInputError::DuplicateCountOverflow { channel, note } =>
            "too many duplicate Note On events for channel "@ + decimal_digits(channel as nat)
            + ", note "@ + decimal_digits(note as nat),
    }
}

impl MidiInputError {
    /// The message that describes the error, such as "invalid MIDI note 200".
    pub fn to_string(&self) -> (message: String)
        ensures
            message@ == error_message(*self),
    {
        match self {
            MidiInputError::InvalidChannel(channel) => {
                let mut message = String::from_str("invalid MIDI channel ");
                append_decimal(&mut message, *channel);
                message
            },
            MidiInputError::InvalidNote(note) => {
                let mut message = String::from_str("invalid MIDI note ");
                append_decimal(&mut message, *note);
                message
            },
            MidiInputError::DuplicateCountOverflow { channel, note } => {
                let mut message = String::from_str(
                    "too many duplicate Note On events for channel ",
                );
                append_decimal(&mut message, *channel);
                message.append(", note ");
                append_decimal(&mut message, *note);
                message
            },
        }
    }
}

/// The state of one key of one channel.
#[derive(Debug, Clone, Copy, PartialEq, Eq, Structural)]
pub struct NoteState {
    /// Note On events not yet matched by a Note Off.
    pub held_count: u16,
    /// Released while the channel's sustain pedal was down, and kept sounding.
    pub sustained: bool,
    /// Velocity of the last Note On; zero once the note stops.
    pub velocity: u8,
}

impl NoteState {
    /// A key that does not sound.
    pub open spec fn silent() -> NoteState {
        NoteState { held_count: 0, sustained: false, velocity: 0 }
    }

    /// A note sounds while its key is held or the pedal sustains it.
    pub open spec fn active(self) -> bool {
        self.held_count > 0 || self.sustained
    }

    /// Whether the note sounds.
    pub fn is_active(self) -> (active: bool)
        ensures
            active == self.active(),
    {
        self.held_count > 0 || self.sustained
    }
}

/// The abstract MIDI state: the state of every key, indexed by
/// `channel * 128 + note`, and whether each channel's sustain pedal is down.
#[verifier::ext_equal]
pub struct MidiModel {
    pub notes: Seq<NoteState>,
    pub sustain_down: Seq<bool>,
}

/// Where the key `note` of `channel` lives in `MidiModel::notes`.
pub open spec fn slot(channel: nat, note: nat) -> int {
    (channel * 128 + note) as int
}

/// The note that a pedal release leaves: a sustained note whose key is up stops.
pub open spec fn release_pedal(state: NoteState) -> NoteState {
    if state.held_count == 0 && state.sustained {
        NoteState::silent()
    } else {
        state
    }
}

/// Number of sounding notes in a sequence of key states.
pub open spec fn count_active(notes: Seq<NoteState>) -> nat
    decreases notes.len(),
{
    if notes.len() == 0 {
        0
    } else {
        count_active(notes.drop_last()) + (if notes.last().active() {
            1nat
        } else {
            0nat
        })
    }
}

/// The pitch classes of the sounding notes of a sequence of key states
/// (key `i` is note `i % 128`), as a mask.
pub open spec fn active_pitch_class_mask(notes: Seq<NoteState>) -> u16
    decreases notes.len(),
{
    if notes.len() == 0 {
        0
    } else if notes.last().active() {
        active_pitch_class_mask(notes.drop_last()) | (1u16 << (midi_pitch_class(
            ((notes.len() - 1) % 128) as nat,
        ) as u16))
    } else {
        active_pitch_class_mask(notes.drop_last())
    }
}

/// The sounding notes of a sequence of key states (key `i` is note
/// `i % 128`), in order, each with its velocity raised to at least 1.
pub open spec fn active_note_velocities(notes: Seq<NoteState>) -> Seq<(u8, u8)>
    decreases notes.len(),
{
    if notes.len() == 0 {
        Seq::empty()
    } else if notes.last().active() {
        active_note_velocities(notes.drop_last()).push(
            (
                ((notes.len() - 1) % 128) as u8,
                if notes.last().velocity == 0 {
                    1u8
                } else {
                    notes.last().velocity
                },
            ),
        )
    } else {
        active_note_velocities(notes.drop_last())
    }
}

impl MidiModel {
    /// Sixteen channels of 128 keys, and one pedal per channel.
    pub open spec fn wf(self) -> bool {
        &&& self.notes.len() == 2048
        &&& self.sustain_down.len() == 16
    }

    /// No note sounds and no pedal is down.
    pub open spec fn initial() -> MidiModel {
        MidiModel {
            notes: Seq::new(2048, |i: int| NoteState::silent()),
            sustain_down: Seq::new(16, |i: int| false),
        }
    }

    /// The state of key `note` of `channel`.
    pub open spec fn note(self, channel: nat, note: nat) -> NoteState {
        self.notes[slot(channel, note)]
    }

    /// The model with the state of one key replaced.
    pub open spec fn with_note(self, channel: nat, note: nat, state: NoteState) -> MidiModel {
        MidiModel { notes: self.notes.update(slot(channel, note), state), sustain_down: self.sustain_down }
    }

    /// A Note On: the key is held once more, with the new velocity.
    pub open spec fn note_on(self, channel: u8, note: u8, velocity: u8) -> (
        Result<bool, MidiInputError>,
        MidiModel,
    ) {
        if note >= 128 {
            (Err(MidiInputError::InvalidNote(note)), self)
        } else if channel >= 16 {
            (Err(MidiInputError::InvalidChannel(channel)), self)
        } else {
            let state = self.note(channel as nat, note as nat);
            if state.held_count == u16::MAX {
                (Err(MidiInputError::DuplicateCountOverflow { channel, note }), self)
            } else {
                (
                    Ok(true),
                    self.with_note(
                        channel as nat,
                        note as nat,
                        NoteState {
                            held_count: (state.held_count + 1) as u16,
                            sustained: state.sustained,
                            velocity,
                        },
                    ),
                )
            }
        }
    }

    /// A Note Off: the key is held once less; released for the last time it
    /// keeps sounding only while the channel's pedal is down.
    pub open spec fn note_off(self, channel: u8, note: u8) -> (
        Result<bool, MidiInputError>,
        MidiModel,
    ) {
        if note >= 128 {
            (Err(MidiInputError::InvalidNote(note)), self)
        } else if channel >= 16 {
            (Err(MidiInputError::InvalidChannel(channel)), self)
        } else {
            let state = self.note(channel as nat, note as nat);
            if state.held_count == 0 {
                (Ok(false), self)
            } else if state.held_count > 1 {
                (
                    Ok(true),
                    self.with_note(
                        channel as nat,
                        note as nat,
                        NoteState {
                            held_count: (state.held_count - 1) as u16,
                            sustained: state.sustained,
                            velocity: state.velocity,
                        },
                    ),
                )
            } else if self.sustain_down[channel as int] {
                (
                    Ok(true),
                    self.with_note(
                        channel as nat,
                        note as nat,
                        NoteState { held_count: 0, sustained: true, velocity: state.velocity },
                    ),
                )
            } else {
                (Ok(true), self.with_note(channel as nat, note as nat, NoteState::silent()))
            }
        }
    }

    /// A sustain pedal change; releasing the pedal stops the notes it sustained.
    pub open spec fn sustain(self, channel: u8, down: bool) -> (
        Result<bool, MidiInputError>,
        MidiModel,
    ) {
        if channel >= 16 {
            (Err(MidiInputError::InvalidChannel(channel)), self)
        } else if self.sustain_down[channel as int] == down {
            (Ok(false), self)
        } else {
            (
                Ok(true),
                MidiModel {
                    notes: if down {
                        self.notes
                    } else {
                        Seq::new(
                            self.notes.len(),
                            |i: int|
                                if i / 128 == channel {
                                    release_pedal(self.notes[i])
                                } else {
                                    self.notes[i]
                                },
                        )
                    },
                    sustain_down: self.sustain_down.update(channel as int, down),
                },
            )
        }
    }

    /// A reset: everything stops; it reports a change when a note sounded
    /// or a pedal was down.
    pub open spec fn reset(self) -> (Result<bool, MidiInputError>, MidiModel) {
        (
            Ok(count_active(self.notes) > 0 || self.sustain_down.contains(true)),
            MidiModel::initial(),
        )
    }

    /// The result of an event and the state after it. A Note On of velocity
    /// zero is a Note Off.
    pub open spec fn apply(self, event: MidiEvent) -> (Result<bool, MidiInputError>, MidiModel) {
        match event {
            MidiEvent::NoteOn { channel, note, velocity } => if velocity == 0 {
                self.note_off(channel, note)
            } else {
                self.note_on(channel, note, velocity)
            },
            MidiEvent::NoteOff { channel, note } => self.note_off(channel, note),
            MidiEvent::SustainPedal { channel, down } => self.sustain(channel, down),
            MidiEvent::Reset => self.reset(),
        }
    }
}

/// Which notes of which channels sound, from a stream of MIDI events.
#[derive(Debug, Clone)]
pub struct MidiState {
    notes: [NoteState; 2048],
    sustain_down: [bool; 16],
}

impl View for MidiState {
    type V = MidiModel;

    closed spec fn view(&self) -> MidiModel {
        MidiModel { notes: self.notes@, sustain_down: self.sustain_down@ }
    }
}

impl MidiState {
    /// Applies one event; on error the state is left as it was.
    pub fn apply(&mut self, event: MidiEvent) -> (changed: Result<bool, MidiInputError>)
        ensures
            changed == old(self)@.apply(event).0,
            final(self)@ == old(self)@.apply(event).1,
    {
        match event {
            MidiEvent::NoteOn { channel, note, velocity } => {
                if velocity == 0 {
                    self.note_off(channel, note)
                } else {
                    self.note_on(channel, note, velocity)
                }
            },
            MidiEvent::NoteOff { channel, note } => self.note_off(channel, note),
            MidiEvent::SustainPedal { channel, down } => self.sustain(channel, down),
            MidiEvent::Reset => {
                let changed = self.active_note_count() > 0 || self.any_sustain_down();
                *self = Self::default();
                Ok(changed)
            },
        }
    }

    fn any_sustain_down(&self) -> (down: bool)
        ensures
            down == self@.sustain_down.contains(true),
    {
        let mut channel: usize = 0;
        while channel < MIDI_CHANNEL_COUNT
            invariant
                channel <= 16,
                self.sustain_down@.len() == 16,
                forall|c: int| 0 <= c < channel ==> !self.sustain_down@[c],
            decreases 16 - channel,
        {
            if self.sustain_down[channel] {
                assert(self.sustain_down@[channel as int]);
                return true;
            }
            channel += 1;
        }
        false
    }

    /// Number of sounding notes over all channels.
    pub fn active_note_count(&self) -> (count: usize)
        ensures
            count == count_active(self@.notes),
            count == sounding_keys(self@).len(),
            count <= 2048,
    {
        proof {
            law_active_note_count_counts_sounding_keys(self@);
            lemma_count_active_bounded(self@.notes);
        }
        let mut count: usize = 0;
        let mut index: usize = 0;
        while index < MIDI_CHANNEL_COUNT * MIDI_NOTE_COUNT
            invariant
                index <= self.notes@.len(),
                self.notes@.len() == 2048,
                count == count_active(self.notes@.take(index as int)),
                count <= index,
            decreases 2048 - index,
        {
            assert(self.notes@.take(index as int + 1).drop_last() =~= self.notes@.take(
                index as int,
            ));
            if self.notes[index].is_active() {
                count += 1;
            }
            index += 1;
        }
        assert(self.notes@.take(self.notes@.len() as int) =~= self.notes@);
        count
    }

    /// Whether the note sounds on the channel; the channel is checked before the note.
    pub fn is_note_active(&self, channel: u8, note: u8) -> (active: Result<bool, MidiInputError>)
        ensures
            channel >= 16 ==> active == Err::<bool, MidiInputError>(
                MidiInputError::InvalidChannel(channel),
            ),
            channel < 16 && note >= 128 ==> active == Err::<bool, MidiInputError>(
                MidiInputError::InvalidNote(note),
            ),
            channel < 16 && note < 128 ==> active == Ok::<bool, MidiInputError>(
                self@.note(channel as nat, note as nat).active(),
            ),
    {
        let base = match Self::channel(channel) {
            Ok(base) => base,
            Err(error) => return Err(error),
        };
        let note_index = match Self::note_index(note) {
            Ok(index) => index,
            Err(error) => return Err(error),
        };
        Ok(self.notes[base + note_index].is_active())
    }

    /// The pitch classes of the sounding notes, as a mask, and the number of sounding notes.
    pub fn active_summary(&self) -> (summary: (u16, usize))
        ensures
            summary.0 == active_pitch_class_mask(self@.notes),
            summary.1 == count_active(self@.notes),
            summary.0 == pitch_class_mask(sounding_notes(self@.notes)),
            summary.1 == sounding_notes(self@.notes).len(),
            recognize_mask(summary.0, summary.1 as nat) == recognize_notes(
                sounding_notes(self@.notes),
            ),
    {
        proof {
            lemma_sounding_notes_summary(self@.notes);
            law_summary_chord_is_note_chord(self@.notes);
        }
        let mut mask: u16 = 0;
        let mut count: usize = 0;
        let mut index: usize = 0;
        while index < MIDI_CHANNEL_COUNT * MIDI_NOTE_COUNT
            invariant
                index <= self.notes@.len(),
                self.notes@.len() == 2048,
                mask == active_pitch_class_mask(self.notes@.take(index as int)),
                count == count_active(self.notes@.take(index as int)),
                count <= index,
            decreases 2048 - index,
        {
            let ghost prefix = self.notes@.take(index as int + 1);
            assert(prefix.drop_last() =~= self.notes@.take(index as int));
            assert(prefix.last() == self.notes@[index as int]);
            if self.notes[index].is_active() {
                let pitch_class = PitchClass::from_midi((index % MIDI_NOTE_COUNT) as u8);
                mask = mask | (1u16 << (pitch_class.index() as u16));
                count += 1;
            }
            index += 1;
        }
        assert(self.notes@.take(self.notes@.len() as int) =~= self.notes@);
        (mask, count)
    }

    /// The sounding notes over all channels, in channel order and then note
    /// order, each with its velocity raised to at least 1.
    pub fn active_notes(&self) -> (notes: Vec<(u8, u8)>)
        ensures
            notes@ == active_note_velocities(self@.notes),
    {
        let mut notes: Vec<(u8, u8)> = Vec::new();
        let mut index: usize = 0;
        while index < MIDI_CHANNEL_COUNT * MIDI_NOTE_COUNT
            invariant
                index <= self.notes@.len(),
                self.notes@.len() == 2048,
                notes@ == active_note_velocities(self.notes@.take(index as int)),
            decreases 2048 - index,
        {
            let ghost prefix = self.notes@.take(index as int + 1);
            assert(prefix.drop_last() =~= self.notes@.take(index as int));
            assert(prefix.last() == self.notes@[index as int]);
            let state = self.notes[index];
            if state.is_active() {
                let velocity = if state.velocity == 0 {
                    1u8
                } else {
                    state.velocity
                };
                notes.push(((index % MIDI_NOTE_COUNT) as u8, velocity));
            }
            index += 1;
        }
        assert(self.notes@.take(self.notes@.len() as int) =~= self.notes@);
        notes
    }

    fn note_on(&mut self, channel: u8, note: u8, velocity: u8) -> (changed: Result<
        bool,
        MidiInputError,
    >)
        ensures
            changed == old(self)@.note_on(channel, note, velocity).0,
            final(self)@ == old(self)@.note_on(channel, note, velocity).1,
    {
        let note_index = match Self::note_index(note) {
            Ok(index) => index,
            Err(error) => return Err(error),
        };
        let base = match Self::channel(channel) {
            Ok(base) => base,
            Err(error) => return Err(error),
        };
        let state = self.notes[base + note_index];
        if state.held_count == u16::MAX {
            return Err(MidiInputError::DuplicateCountOverflow { channel, note });
        }
        self.notes[base + note_index] = NoteState { held_count: state.held_count + 1, sustained: state.sustained, velocity };
        Ok(true)
    }

    fn note_off(&mut self, channel: u8, note: u8) -> (changed: Result<bool, MidiInputError>)
        ensures
            changed == old(self)@.note_off(channel, note).0,
            final(self)@ == old(self)@.note_off(channel, note).1,
    {
        let note_index = match Self::note_index(note) {
            Ok(index) => index,
            Err(error) => return Err(error),
        };
        let base = match Self::channel(channel) {
            Ok(base) => base,
            Err(error) => return Err(error),
        };
        let state = self.notes[base + note_index];
        if state.held_count == 0 {
            return Ok(false);
        }
        let held_count = state.held_count - 1;
        let mut sustained = state.sustained;
        let mut velocity = state.velocity;
        if held_count == 0 {
            sustained = self.sustain_down[channel as usize];
            if !sustained {
                velocity = 0;
            }
        }
        self.notes[base + note_index] = NoteState { held_count, sustained, velocity };
        Ok(true)
    }

    fn sustain(&mut self, channel: u8, down: bool) -> (changed: Result<bool, MidiInputError>)
        ensures
            changed == old(self)@.sustain(channel, down).0,
            final(self)@ == old(self)@.sustain(channel, down).1,
    {
        let base = match Self::channel(channel) {
            Ok(base) => base,
            Err(error) => return Err(error),
        };
        if self.sustain_down[channel as usize] == down {
            return Ok(false);
        }
        self.sustain_down[channel as usize] = down;
        if !down {
            let ghost before = self.notes@;
            let ghost pedals = self.sustain_down@;
            let mut offset: usize = 0;
            while offset < MIDI_NOTE_COUNT
                invariant
                    offset <= 128,
                    self.sustain_down@ == pedals,
                    base == channel as nat * 128,
                    channel < 16,
                    before.len() == 2048,
                    self.notes@.len() == 2048,
                    forall|i: int|
                        0 <= i < 2048 ==> #[trigger] self.notes@[i] == if i / 128 == channel && i
                            < base + offset {
                            release_pedal(before[i])
                        } else {
                            before[i]
                        },
                decreases 128 - offset,
            {
                let state = self.notes[base + offset];
                if state.held_count == 0 && state.sustained {
                    self.notes[base + offset] = NoteState { held_count: 0, sustained: false, velocity: 0 };
                }
                offset += 1;
            }
            assert(self.notes@ =~= Seq::new(
                before.len(),
                |i: int|
                    if i / 128 == channel {
                        release_pedal(before[i])
                    } else {
                        before[i]
                    },
            ));
        }
        assert(self@.sustain_down =~= old(self)@.sustain_down.update(channel as int, down));
        assert(self@.notes =~= old(self)@.sustain(channel, down).1.notes);
        Ok(true)
    }

    /// The first key of the channel, or the error for a channel of 16 or more.
    fn channel(channel: u8) -> (base: Result<usize, MidiInputError>)
        ensures
            channel < 16 ==> base == Ok::<usize, MidiInputError>((channel as usize * 128) as usize),
            channel >= 16 ==> base == Err::<usize, MidiInputError>(
                MidiInputError::InvalidChannel(channel),
            ),
    {
        if (channel as usize) < MIDI_CHANNEL_COUNT {
            Ok(channel as usize * MIDI_NOTE_COUNT)
        } else {
            Err(MidiInputError::InvalidChannel(channel))
        }
    }

    /// The note as an index, or the error for a note of 128 or more.
    fn note_index(note: u8) -> (index: Result<usize, MidiInputError>)
        ensures
            note < 128 ==> index == Ok::<usize, MidiInputError>(note as usize),
            note >= 128 ==> index == Err::<usize, MidiInputError>(MidiInputError::InvalidNote(note)),
    {
        if note < MIDI_NOTE_COUNT as u8 {
            Ok(note as usize)
        } else {
            Err(MidiInputError::InvalidNote(note))
        }
    }
}

impl Default for MidiState {
    /// No note sounds and no pedal is down.
    fn default() -> (state: Self)
        ensures
            state@ == MidiModel::initial(),
    {
        let state = MidiState {
            notes: [NoteState { held_count: 0, sustained: false, velocity: 0 }; 2048],
            sustain_down: [false; 16],
        };
        proof {
            broadcast use vstd::array::group_array_axioms;

            assert(state@.notes =~= MidiModel::initial().notes);
            assert(state@.sustain_down =~= MidiModel::initial().sustain_down);
        }
        state
    }
}

/// Every MIDI state has sixteen channels of 128 keys.
pub proof fn lemma_midi_state_well_formed(state: &MidiState)
    ensures
        state@.wf(),
{
}

/// Whether some sounding key of the sequence (key `i` is note `i % 128`)
/// has pitch class `pitch_class`.
pub open spec fn pitch_class_sounds(notes: Seq<NoteState>, pitch_class: nat) -> bool {
    exists|i: int|
        0 <= i < notes.len() && (#[trigger] notes[i]).active() && midi_pitch_class(
            (i % 128) as nat,
        ) == pitch_class
}

/// Bit `k` of the active pitch-class mask is set exactly when a sounding
/// note has pitch class `k`.
pub proof fn law_active_mask_lists_sounding_pitch_classes(notes: Seq<NoteState>, k: nat)
    requires
        k < 16,
    ensures
        has_bit(active_pitch_class_mask(notes), k) <==> pitch_class_sounds(notes, k),
    decreases notes.len(),
{
    if notes.len() == 0 {
        lemma_zero_has_no_bit(k as u16);
    } else {
        let rest = notes.drop_last();
        let last = (notes.len() - 1) as int;
        law_active_mask_lists_sounding_pitch_classes(rest, k);
        let pitch_class = midi_pitch_class((last % 128) as nat);
        if notes.last().active() {
            lemma_or_bit(active_pitch_class_mask(rest), pitch_class as u16, k as u16);
        }
        if pitch_class_sounds(notes, k) {
            let i = choose|i: int|
                0 <= i < notes.len() && (#[trigger] notes[i]).active() && midi_pitch_class(
                    (i % 128) as nat,
                ) == k;
            if i < last {
                assert(rest[i] == notes[i]);
            }
        }
        if pitch_class_sounds(rest, k) {
            let i = choose|i: int|
                0 <= i < rest.len() && (#[trigger] rest[i]).active() && midi_pitch_class(
                    (i % 128) as nat,
                ) == k;
            assert(notes[i] == rest[i]);
        }
        assert(notes[last] == notes.last());
    }
}

/// The (channel, note) pairs whose note sounds.
pub open spec fn sounding_keys(model: MidiModel) -> Set<(nat, nat)> {
    Set::new(
        |key: (nat, nat)| key.0 < 16 && key.1 < 128 && model.note(key.0, key.1).active(),
    )
}

/// The key slots below `upto` whose note sounds.
pub open spec fn sounding_slots(notes: Seq<NoteState>, upto: int) -> Set<int> {
    Set::new(|i: int| 0 <= i < upto && notes[i].active())
}

proof fn lemma_sounding_slots_count(notes: Seq<NoteState>, upto: int)
    requires
        0 <= upto <= notes.len(),
    ensures
        sounding_slots(notes, upto).finite(),
        sounding_slots(notes, upto).len() == count_active(notes.take(upto)),
    decreases upto,
{
    if upto == 0 {
        assert(sounding_slots(notes, 0) =~= Set::<int>::empty());
        assert(notes.take(0) =~= Seq::<NoteState>::empty());
    } else {
        let below = sounding_slots(notes, upto - 1);
        lemma_sounding_slots_count(notes, upto - 1);
        assert(notes.take(upto).drop_last() =~= notes.take(upto - 1));
        assert(notes.take(upto).last() == notes[upto - 1]);
        if notes[upto - 1].active() {
            assert(sounding_slots(notes, upto) =~= below.insert(upto - 1));
            assert(!below.contains(upto - 1));
        } else {
            assert(sounding_slots(notes, upto) =~= below);
        }
    }
}

/// The number of sounding notes is the number of (channel, note) pairs
/// whose note sounds: each key of each channel counts once, however often
/// it was pressed.
pub proof fn law_active_note_count_counts_sounding_keys(model: MidiModel)
    requires
        model.wf(),
    ensures
        sounding_keys(model).finite(),
        count_active(model.notes) == sounding_keys(model).len(),
{
    let slots = sounding_slots(model.notes, 2048);
    lemma_sounding_slots_count(model.notes, 2048);
    assert(model.notes.take(2048) =~= model.notes);
    let key_of = |i: int| ((i / 128) as nat, (i % 128) as nat);
    assert forall|i: int, j: int|
        slots.contains(i) && slots.contains(j) && #[trigger] key_of(i) == #[trigger] key_of(
            j,
        ) implies i == j by {
        assert(i == 128 * (i / 128) + i % 128);
        assert(j == 128 * (j / 128) + j % 128);
    }
    assert(vstd::relations::injective_on(key_of, slots));
    assert forall|key: (nat, nat)| sounding_keys(model).contains(key) implies slots.map(
        key_of,
    ).contains(key) by {
        let i = slot(key.0, key.1);
        assert(i / 128 == key.0 && i % 128 == key.1);
        assert(key_of(i) == key);
        assert(slots.contains(i));
    }
    assert forall|key: (nat, nat)| slots.map(key_of).contains(key) implies sounding_keys(
        model,
    ).contains(key) by {
        let i = choose|i: int| slots.contains(i) && key_of(i) == key;
        assert(i == 128 * (i / 128) + i % 128);
        assert(slot(key.0, key.1) == i);
    }
    assert(slots.map(key_of) =~= sounding_keys(model));
    vstd::set_lib::lemma_map_size(slots, sounding_keys(model), key_of);
}

/// There are no more sounding notes than keys.
pub proof fn lemma_count_active_bounded(notes: Seq<NoteState>)
    ensures
        count_active(notes) <= notes.len(),
    decreases notes.len(),
{
    if notes.len() > 0 {
        lemma_count_active_bounded(notes.drop_last());
    }
}

/// A sustained note whose key is up only exists while its channel's pedal is down.
pub open spec fn pedal_consistent(model: MidiModel) -> bool {
    forall|i: int|
        0 <= i < model.notes.len() && (#[trigger] model.notes[i]).held_count == 0
            && model.notes[i].sustained ==> model.sustain_down[i / 128]
}

/// The channel an event addresses, if it addresses one.
pub open spec fn event_channel(event: MidiEvent) -> Option<u8> {
    match event {
        MidiEvent::NoteOn { channel, .. } => Some(channel),
        MidiEvent::NoteOff { channel, .. } => Some(channel),
        MidiEvent::SustainPedal { channel, .. } => Some(channel),
        MidiEvent::Reset => None,
    }
}

/// A Note On with velocity zero is a Note Off.
pub proof fn law_velocity_zero_note_on_is_note_off(model: MidiModel, channel: u8, note: u8)
    ensures
        model.apply(MidiEvent::NoteOn { channel, note, velocity: 0 }) == model.apply(
            MidiEvent::NoteOff { channel, note },
        ),
{
}

/// A rejected event leaves the state as it was.
pub proof fn law_rejected_event_changes_nothing(model: MidiModel, event: MidiEvent)
    ensures
        model.apply(event).0 is Err ==> model.apply(event).1 == model,
{
}

/// Every event keeps the state well formed, and keeps sustained notes
/// tied to a pedal that is down.
pub proof fn law_events_keep_state_consistent(model: MidiModel, event: MidiEvent)
    requires
        model.wf(),
        pedal_consistent(model),
    ensures
        model.apply(event).1.wf(),
        pedal_consistent(model.apply(event).1),
{
    let after = model.apply(event).1;
    match event {
        MidiEvent::SustainPedal { channel, down } => {
            if channel < 16 && model.sustain_down[channel as int] != down {
                assert forall|i: int|
                    0 <= i < after.notes.len() && (#[trigger] after.notes[i]).held_count == 0
                        && after.notes[i].sustained implies after.sustain_down[i / 128] by {
                    assert(model.notes[i].held_count == 0 && model.notes[i].sustained);
                }
            }
        },
        MidiEvent::Reset => {
        },
        _ => {
            assert forall|i: int|
                0 <= i < after.notes.len() && (#[trigger] after.notes[i]).held_count == 0
                    && after.notes[i].sustained implies after.sustain_down[i / 128] by {
                if after.notes[i] != model.notes[i] {
                    let channel = event_channel(event)->0;
                    assert(i / 128 == channel as int);
                }
            }
        },
    }
}

/// An event on one channel leaves the notes and pedal of every other channel as they were.
pub proof fn law_events_stay_on_their_channel(model: MidiModel, event: MidiEvent, other: nat)
    requires
        model.wf(),
        event_channel(event) matches Some(channel) && other != channel,
        other < 16,
    ensures
        model.apply(event).1.sustain_down[other as int] == model.sustain_down[other as int],
        forall|note: nat|
            note < 128 ==> #[trigger] model.apply(event).1.note(other, note) == model.note(
                other,
                note,
            ),
{
    assert forall|note: nat| note < 128 implies #[trigger] model.apply(event).1.note(other, note)
        == model.note(other, note) by {
        assert(slot(other, note) / 128 == other);
    }
}

/// With the pedal up, a Note On followed by a Note Off gives the key back
/// its held count and leaves it sounding exactly when it sounded before;
/// every other key is as it was.
pub proof fn law_note_off_undoes_note_on(
    model: MidiModel,
    channel: u8,
    note: u8,
    velocity: u8,
)
    requires
        model.wf(),
        pedal_consistent(model),
        channel < 16,
        note < 128,
        velocity > 0,
        model.note(channel as nat, note as nat).held_count < u16::MAX,
        !model.sustain_down[channel as int],
    ensures
        ({
            let pressed = model.apply(MidiEvent::NoteOn { channel, note, velocity });
            let released = pressed.1.apply(MidiEvent::NoteOff { channel, note });
            &&& pressed.0 == Ok::<bool, MidiInputError>(true)
            &&& released.0 == Ok::<bool, MidiInputError>(true)
            &&& released.1.note(channel as nat, note as nat).held_count == model.note(
                channel as nat,
                note as nat,
            ).held_count
            &&& released.1.note(channel as nat, note as nat).active() == model.note(
                channel as nat,
                note as nat,
            ).active()
            &&& released.1.sustain_down == model.sustain_down
            &&& forall|i: int|
                0 <= i < 2048 && i != slot(channel as nat, note as nat) ==> #[trigger] released.1.notes[i]
                    == model.notes[i]
        }),
{
    let i = slot(channel as nat, note as nat);
    assert(i / 128 == channel as int);
}

/// Each Note On needs its own Note Off: a key pressed more than once keeps
/// sounding after one release.
pub proof fn law_duplicate_note_needs_matching_note_off(model: MidiModel, channel: u8, note: u8)
    requires
        model.wf(),
        channel < 16,
        note < 128,
        model.note(channel as nat, note as nat).held_count >= 2,
    ensures
        model.apply(MidiEvent::NoteOff { channel, note }).1.note(
            channel as nat,
            note as nat,
        ).active(),
{
}

/// While the pedal is down, releasing a key keeps its note sounding.
pub proof fn law_pedal_sustains_released_note(model: MidiModel, channel: u8, note: u8)
    requires
        model.wf(),
        channel < 16,
        note < 128,
        model.sustain_down[channel as int],
        model.note(channel as nat, note as nat).active(),
    ensures
        model.apply(MidiEvent::NoteOff { channel, note }).1.note(
            channel as nat,
            note as nat,
        ).active(),
{
}

/// Releasing the pedal stops every note of its channel whose key is up.
pub proof fn law_pedal_release_stops_sustained_notes(model: MidiModel, channel: u8, note: nat)
    requires
        model.wf(),
        pedal_consistent(model),
        channel < 16,
        note < 128,
    ensures
        ({
            let after = model.apply(MidiEvent::SustainPedal { channel, down: false }).1;
            after.note(channel as nat, note).held_count == 0 ==> !after.note(
                channel as nat,
                note,
            ).active()
        }),
{
    let i = slot(channel as nat, note);
    assert(i / 128 == channel as int);
    assert(model.notes[i] == model.note(channel as nat, note));
}

/// Lifting the pedal never touches a key that is still held: it keeps its
/// held count, its velocity and its sustain flag, and so keeps sounding.
/// A key that is up and was sustained stops, with its velocity cleared;
/// every other key, and every other channel, is unchanged.
pub proof fn law_pedal_release_keeps_held_keys(model: MidiModel, channel: u8, note: nat)
    requires
        model.wf(),
        channel < 16,
        note < 128,
        model.sustain_down[channel as int],
    ensures
        ({
            let (result, after) = model.apply(MidiEvent::SustainPedal { channel, down: false });
            let before_key = model.note(channel as nat, note);
            let after_key = after.note(channel as nat, note);
            &&& result == Ok::<bool, MidiInputError>(true)
            &&& !after.sustain_down[channel as int]
            &&& before_key.held_count > 0 ==> after_key == before_key && after_key.active()
            &&& before_key.held_count == 0 && before_key.sustained ==> after_key == NoteState {
                held_count: 0,
                sustained: false,
                velocity: 0,
            }
            &&& before_key.held_count == 0 && !before_key.sustained ==> after_key == before_key
        }),
{
    let i = slot(channel as nat, note);
    assert(i / 128 == channel as int);
    assert(model.notes[i] == model.note(channel as nat, note));
}

proof fn lemma_silent_notes_count_zero(notes: Seq<NoteState>)
    requires
        forall|i: int| 0 <= i < notes.len() ==> notes[i] == NoteState::silent(),
    ensures
        count_active(notes) == 0,
    decreases notes.len(),
{
    if notes.len() > 0 {
        lemma_silent_notes_count_zero(notes.drop_last());
        assert(notes.last() == notes[notes.len() - 1]);
    }
}

/// The initial state keeps sustained notes tied to a pedal that is down,
/// so with `law_events_keep_state_consistent` every reachable state does.
pub proof fn law_initial_state_consistent()
    ensures
        MidiModel::initial().wf(),
        pedal_consistent(MidiModel::initial()),
{
}

/// After a reset no note sounds and no pedal is down.
pub proof fn law_reset_silences_everything(model: MidiModel)
    ensures
        model.apply(MidiEvent::Reset).0 is Ok,
        count_active(model.apply(MidiEvent::Reset).1.notes) == 0,
        !model.apply(MidiEvent::Reset).1.sustain_down.contains(true),
        model.apply(MidiEvent::Reset).1 == MidiModel::initial(),
{
    lemma_silent_notes_count_zero(MidiModel::initial().notes);
}

} // verus!

use vstd::prelude::*;

use crate::bits::{has_bit, lemma_bits_determine_mask, lemma_union_bit};
use crate::chord::{
    lemma_pitch_class_mask_bits, pitch_class_mask, recognize_mask, recognize_notes, sounds,
};
use crate::midi::{NoteState, active_note_velocities, active_pitch_class_mask, count_active};
use crate::pitch::midi_pitch_class;
use vstd::std_specs::bits::{axiom_u16_trailing_zeros, u16_trailing_zeros};

verus! {

/// The note numbers of the sounding keys of a sequence of key states (key
/// `i` is note `i % 128`), in key order: one entry per sounding key.
pub open spec fn sounding_notes(notes: Seq<NoteState>) -> Seq<u8> {
    active_note_velocities(notes).map_values(|entry: (u8, u8)| entry.0)
}

/// The pitch-class mask and the count of the sounding keys are those of
/// the list of their note numbers.
pub proof fn lemma_sounding_notes_summary(notes: Seq<NoteState>)
    ensures
        pitch_class_mask(sounding_notes(notes)) == active_pitch_class_mask(notes),
        sounding_notes(notes).len() == count_active(notes),
    decreases notes.len(),
{
    if notes.len() > 0 {
        let rest = notes.drop_last();
        lemma_sounding_notes_summary(rest);
        if notes.last().active() {
            let note = ((notes.len() - 1) % 128) as u8;
            let listed = sounding_notes(notes);
            assert(listed =~= sounding_notes(rest).push(note));
            assert(listed.drop_last() =~= sounding_notes(rest));
            assert(listed.last() == note);
        } else {
            assert(sounding_notes(notes) =~= sounding_notes(rest));
        }
    }
}

proof fn lemma_lowest_bit_of_single_class(p: u16)
    requires
        p < 12,
    ensures
        0u16 | (1u16 << p) != 0,
        u16_trailing_zeros(0u16 | (1u16 << p)) == p,
{
    let mask = 0u16 | (1u16 << p);
    assert(mask == 1u16 << p && mask != 0) by (bit_vector)
        requires
            p < 12,
            mask == 0u16 | (1u16 << p),
    ;
    axiom_u16_trailing_zeros(mask);
    let lowest = u16_trailing_zeros(mask) as u16;
    if lowest < p {
        assert((mask >> lowest) & 1u16 == 0u16) by (bit_vector)
            requires
                mask == 1u16 << p,
                lowest < p,
                p < 12,
        ;
    }
    if lowest > p {
        assert((mask >> p) & 1u16 == 1u16) by (bit_vector)
            requires
                mask == 1u16 << p,
                p < 12,
        ;
    }
}

/// Recognizing a list of notes and recognizing its pitch-class mask with
/// its length give the same chord.
pub proof fn lemma_mask_recognition_agrees(notes: Seq<u8>)
    ensures
        recognize_mask(pitch_class_mask(notes), notes.len()) == recognize_notes(notes),
{
    if notes.len() == 1 {
        let p = midi_pitch_class(notes[0] as nat);
        assert(notes.drop_last() =~= Seq::<u8>::empty());
        assert(notes.last() == notes[0]);
        lemma_lowest_bit_of_single_class(p as u16);
        assert(pitch_class_mask(notes.drop_last()) == 0);
        assert(pitch_class_mask(notes) == 0u16 | (1u16 << (p as u16)));
        assert(u16_trailing_zeros(pitch_class_mask(notes)) == p);
        assert(recognize_mask(pitch_class_mask(notes), 1) == recognize_notes(notes));
    }
}

/// The chord the harmony analysis derives from a MIDI state's summary (its
/// sounding pitch classes and their count) is the chord the note
/// recognizer gives for the list of its sounding notes.
pub proof fn law_summary_chord_is_note_chord(notes: Seq<NoteState>)
    ensures
        recognize_mask(active_pitch_class_mask(notes), count_active(notes)) == recognize_notes(
            sounding_notes(notes),
        ),
{
    lemma_sounding_notes_summary(notes);
    lemma_mask_recognition_agrees(sounding_notes(notes));
}

proof fn lemma_mask_of_concatenation(a: Seq<u8>, b: Seq<u8>)
    ensures
        pitch_class_mask(a + b) == pitch_class_mask(a) | pitch_class_mask(b),
{
    assert forall|k: nat| k < 16 implies (has_bit(pitch_class_mask(a + b), k) <==> has_bit(
        pitch_class_mask(a) | pitch_class_mask(b),
        k,
    )) by {
        lemma_pitch_class_mask_bits(a + b, k);
        lemma_pitch_class_mask_bits(a, k);
        lemma_pitch_class_mask_bits(b, k);
        lemma_union_bit(pitch_class_mask(a), pitch_class_mask(b), k as u16);
        if sounds(a + b, k) {
            let i = choose|i: int|
                0 <= i < (a + b).len() && midi_pitch_class(#[trigger] (a + b)[i] as nat) == k;
            if i < a.len() {
                assert(a[i] == (a + b)[i]);
            } else {
                assert(b[i - a.len()] == (a + b)[i]);
            }
        }
        if sounds(a, k) {
            let i = choose|i: int| 0 <= i < a.len() && midi_pitch_class(#[trigger] a[i] as nat) == k;
            assert((a + b)[i] == a[i]);
        }
        if sounds(b, k) {
            let i = choose|i: int| 0 <= i < b.len() && midi_pitch_class(#[trigger] b[i] as nat) == k;
            assert((a + b)[a.len() + i] == b[i]);
        }
    }
    lemma_bits_determine_mask(pitch_class_mask(a + b), pitch_class_mask(a) | pitch_class_mask(b));
}

/// The chord derived from the user's and the file's summaries together
/// (the union of their pitch classes, the sum of their counts) is the chord
/// the note recognizer gives for the user's sounding notes followed by the
/// file's.
pub proof fn law_mixed_sources_chord_is_note_chord(user: Seq<NoteState>, file: Seq<NoteState>)
    ensures
        recognize_mask(
            active_pitch_class_mask(user) | active_pitch_class_mask(file),
            count_active(user) + count_active(file),
        ) == recognize_notes(sounding_notes(user) + sounding_notes(file)),
{
    lemma_sounding_notes_summary(user);
    lemma_sounding_notes_summary(file);
    lemma_mask_of_concatenation(sounding_notes(user), sounding_notes(file));
    lemma_mask_recognition_agrees(sounding_notes(user) + sounding_notes(file));
}

} // verus!

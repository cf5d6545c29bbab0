use vstd::prelude::*;

use crate::bits::{has_bit, lemma_bits_determine_mask, lemma_or_bit, lemma_zero_has_no_bit};
use crate::pitch::{
    PITCH_CLASS_COUNT, PitchClass, midi_pitch_class, pitch_class_name, pitch_class_of_index,
    lemma_pitch_class_of_index,
};
use vstd::std_specs::bits::{u16_trailing_zeros, axiom_u16_trailing_zeros};

verus! {

/// What a set of sounding notes is recognized as.
#[derive(Debug, Clone, Copy, PartialEq, Eq, Structural)]
pub enum Chord {
    /// No note sounds.
    Empty,
    /// A single pitch class sounds.
    Single(PitchClass),
    /// A chord with a recognized root and quality.
    Named { root: PitchClass, quality: ChordQuality },
    /// Several pitch classes that form no known chord.
    Unknown,
}

/// The quality of a recognized chord, by the intervals above its root.
#[derive(Debug, Clone, Copy, PartialEq, Eq, Structural)]
pub enum ChordQuality {
    Minor,
    Major,
    Diminished,
    Augmented,
    MinorSeventh,
    MajorSeventh,
    DominantSeventh,
    DiminishedSeventh,
    HalfDiminished,
    AugmentedSeventh,
    AugmentedMajorSeventh,
    MinorMajorSeventh,
    MajorSixth,
    MinorSixth,
    SuspendedSecond,
    SuspendedFourth,
    DominantSeventhSuspendedFourth,
    DominantNinth,
    MajorNinth,
    MinorNinth,
    Power,
}

/// The chord symbol suffix of a quality.
pub open spec fn quality_suffix(quality: ChordQuality) -> Seq<char> {
    match quality {
        ChordQuality::Minor => "m"@,
        ChordQuality::Major => "M"@,
        ChordQuality::Diminished => "dim"@,
        ChordQuality::Augmented => "aug"@,
        ChordQuality::MinorSeventh => "m7"@,
        ChordQuality::MajorSeventh => "maj7"@,
        ChordQuality::DominantSeventh => "7"@,
        ChordQuality::DiminishedSeventh => "dim7"@,
        ChordQuality::HalfDiminished => "m7b5"@,
        ChordQuality::AugmentedSeventh => "aug7"@,
        ChordQuality::AugmentedMajorSeventh => "augmaj7"@,
        ChordQuality::MinorMajorSeventh => "mmaj7"@,
        ChordQuality::MajorSixth => "6"@,
        ChordQuality::MinorSixth => "m6"@,
        ChordQuality::SuspendedSecond => "sus2"@,
        ChordQuality::SuspendedFourth => "sus4"@,
        ChordQuality::DominantSeventhSuspendedFourth => "7sus4"@,
        ChordQuality::DominantNinth => "9"@,
        ChordQuality::MajorNinth => "maj9"@,
        ChordQuality::MinorNinth => "m9"@,
        ChordQuality::Power => "5"@,
    }
}

/// How a chord is written: "No notes", a note name, a root with its
/// quality suffix, or nothing for an unknown chord.
pub open spec fn chord_name(chord: Chord) -> Seq<char> {
    match chord {
        Chord::Empty => "No notes"@,
        Chord::Single(note) => pitch_class_name(note@),
        Chord::Named { root, quality } => pitch_class_name(root@) + quality_suffix(quality),
        Chord::Unknown => Seq::empty(),
    }
}

impl ChordQuality {
    /// The chord symbol suffix of the quality ("m", "M", "dim", "maj7", ...).
    pub fn suffix(self) -> (suffix: &'static str)
        ensures
            suffix@ == quality_suffix(self),
    {
        match self {
            Self::Minor => "m",
            Self::Major => "M",
            Self::Diminished => "dim",
            Self::Augmented => "aug",
            Self::MinorSeventh => "m7",
            Self::MajorSeventh => "maj7",
            Self::DominantSeventh => "7",
            Self::DiminishedSeventh => "dim7",
            Self::HalfDiminished => "m7b5",
            Self::AugmentedSeventh => "aug7",
            Self::AugmentedMajorSeventh => "augmaj7",
            Self::MinorMajorSeventh => "mmaj7",
            Self::MajorSixth => "6",
            Self::MinorSixth => "m6",
            Self::SuspendedSecond => "sus2",
            Self::SuspendedFourth => "sus4",
            Self::DominantSeventhSuspendedFourth => "7sus4",
            Self::DominantNinth => "9",
            Self::MajorNinth => "maj9",
            Self::MinorNinth => "m9",
            Self::Power => "5",
        }
    }
}

impl Chord {
    /// The chord written out, as `chord_name` gives it.
    pub fn to_string(&self) -> (name: String)
        ensures
            name@ == chord_name(*self),
    {
        match self {
            Chord::Empty => String::from_str("No notes"),
            Chord::Single(note) => String::from_str(note.name()),
            Chord::Named { root, quality } => {
                let mut name = String::from_str(root.name());
                name.append(quality.suffix());
                name
            },
            Chord::Unknown => String::new(),
        }
    }
}

/// The name of the chord that the given MIDI notes form.
pub fn deduce_chord_name(midi_notes: &[u8]) -> (name: String)
    ensures
        name@ == chord_name(recognize_notes(midi_notes@)),
{
    recognize_midi_notes(midi_notes).to_string()
}

/// The pitch classes of a sequence of MIDI notes, as a mask with bit `p`
/// set for pitch class `p`.
pub open spec fn pitch_class_mask(notes: Seq<u8>) -> u16
    decreases notes.len(),
{
    if notes.len() == 0 {
        0
    } else {
        pitch_class_mask(notes.drop_last()) | (1u16 << (midi_pitch_class(
            notes.last() as nat,
        ) as u16))
    }
}

/// The chord that a sequence of MIDI notes forms.
pub open spec fn recognize_notes(notes: Seq<u8>) -> Chord {
    if notes.len() == 0 {
        Chord::Empty
    } else if notes.len() == 1 {
        Chord::Single(pitch_class_of_index(midi_pitch_class(notes[0] as nat)))
    } else {
        recognize_mask(pitch_class_mask(notes), notes.len())
    }
}

/// The chord formed by `count` sounding notes whose pitch classes are the
/// set bits of `mask`.
pub open spec fn recognize_mask(mask: u16, count: nat) -> Chord {
    if count == 0 || mask == 0 {
        Chord::Empty
    } else if count == 1 {
        let lowest = u16_trailing_zeros(mask);
        if lowest < 12 {
            Chord::Single(pitch_class_of_index(lowest as nat))
        } else {
            Chord::Unknown
        }
    } else {
        named_chord_from(mask, 0)
    }
}

/// The first root, counting up from `root` to B, that sounds in `mask` and
/// over which the other pitch classes form a known quality, as a named
/// chord; `Unknown` when there is none.
pub open spec fn named_chord_from(mask: u16, root: nat) -> Chord
    decreases 12 - root,
{
    if root >= 12 {
        Chord::Unknown
    } else if has_bit(mask, root) && quality_of_intervals(intervals_above(mask, root as u16)) is Some {
        Chord::Named {
            root: pitch_class_of_index(root),
            quality: quality_of_intervals(intervals_above(mask, root as u16))->0,
        }
    } else {
        named_chord_from(mask, root + 1)
    }
}

/// The quality whose intervals above the root are exactly the set bits of `intervals`.
pub open spec fn quality_of_intervals(intervals: u16) -> Option<ChordQuality> {
    if intervals == interval_bits(seq![3u8, 7u8]) {
        Some(ChordQuality::Minor)
    } else if intervals == interval_bits(seq![4u8, 7u8]) {
        Some(ChordQuality::Major)
    } else if intervals == interval_bits(seq![3u8, 6u8]) {
        Some(ChordQuality::Diminished)
    } else if intervals == interval_bits(seq![4u8, 8u8]) {
        Some(ChordQuality::Augmented)
    } else if intervals == interval_bits(seq![3u8, 7u8, 10u8]) {
        Some(ChordQuality::MinorSeventh)
    } else if intervals == interval_bits(seq![4u8, 7u8, 11u8]) {
        Some(ChordQuality::MajorSeventh)
    } else if intervals == interval_bits(seq![4u8, 7u8, 10u8]) {
        Some(ChordQuality::DominantSeventh)
    } else if intervals == interval_bits(seq![3u8, 6u8, 9u8]) {
        Some(ChordQuality::DiminishedSeventh)
    } else if intervals == interval_bits(seq![3u8, 6u8, 10u8]) {
        Some(ChordQuality::HalfDiminished)
    } else if intervals == interval_bits(seq![4u8, 8u8, 10u8]) {
        Some(ChordQuality::AugmentedSeventh)
    } else if intervals == interval_bits(seq![4u8, 8u8, 11u8]) {
        Some(ChordQuality::AugmentedMajorSeventh)
    } else if intervals == interval_bits(seq![3u8, 7u8, 11u8]) {
        Some(ChordQuality::MinorMajorSeventh)
    } else if intervals == interval_bits(seq![4u8, 7u8, 9u8]) {
        Some(ChordQuality::MajorSixth)
    } else if intervals == interval_bits(seq![3u8, 7u8, 9u8]) {
        Some(ChordQuality::MinorSixth)
    } else if intervals == interval_bits(seq![2u8, 7u8]) {
        Some(ChordQuality::SuspendedSecond)
    } else if intervals == interval_bits(seq![5u8, 7u8]) {
        Some(ChordQuality::SuspendedFourth)
    } else if intervals == interval_bits(seq![5u8, 7u8, 10u8]) {
        Some(ChordQuality::DominantSeventhSuspendedFourth)
    } else if intervals == interval_bits(seq![2u8, 4u8, 7u8, 10u8]) {
        Some(ChordQuality::DominantNinth)
    } else if intervals == interval_bits(seq![2u8, 4u8, 7u8, 11u8]) {
        Some(ChordQuality::MajorNinth)
    } else if intervals == interval_bits(seq![2u8, 3u8, 7u8, 10u8]) {
        Some(ChordQuality::MinorNinth)
    } else if intervals == interval_bits(seq![7u8]) {
        Some(ChordQuality::Power)
    } else {
        None
    }
}

/// The mask with bit `v` set for each value `v`.
pub open spec fn interval_bits(values: Seq<u8>) -> u16
    decreases values.len(),
{
    if values.len() == 0 {
        0
    } else {
        interval_bits(values.drop_last()) | (1u16 << (values.last() as u16))
    }
}

fn intervals(values: &[u8]) -> (mask: u16)
    requires
        forall|i: int| 0 <= i < values@.len() ==> values@[i] < 16,
    ensures
        mask == interval_bits(values@),
{
    let mut mask: u16 = 0;
    let mut index: usize = 0;
    while index < values.len()
        invariant
            index <= values@.len(),
            forall|i: int| 0 <= i < values@.len() ==> values@[i] < 16,
            mask == interval_bits(values@.take(index as int)),
        decreases values.len() - index,
    {
        assert(values@.take(index as int + 1).drop_last() =~= values@.take(index as int));
        mask = mask | (1u16 << (values[index] as u16));
        index += 1;
    }
    assert(values@.take(values@.len() as int) =~= values@);
    mask
}

/// The intervals above `root` of the pitch classes in `mask`, as a mask:
/// bit `k` is set when the pitch class `k` semitones above the root sounds,
/// for `k` from 1 to 11 (the root itself and bits 12 to 15 are ignored).
/// It is the twelve-bit pitch-class set rotated so that the root lands on bit 0.
pub open spec fn intervals_above(mask: u16, root: u16) -> u16 {
    let classes = mask & 0xfffu16;
    ((classes >> root) | (classes << ((12 - root) as u16))) & 0xffeu16
}

/// Bits below `n` set, the others clear.
pub open spec fn bits_below(n: u16) -> u16 {
    ((1u16 << n) - 1) as u16
}

proof fn lemma_intervals_step(mask: u16, root: u16, note: u16, interval: u16)
    requires
        note < 12,
        root < 12,
        interval == (if note >= root { note - root } else { note + 12 - root }),
    ensures
        intervals_above(mask & bits_below((note + 1) as u16), root) == (if note != root && mask
            & (1u16 << note) != 0 {
            intervals_above(mask & bits_below(note), root) | (1u16 << interval)
        } else {
            intervals_above(mask & bits_below(note), root)
        }),
{
    assert(((((mask & (((1u16 << ((note + 1) as u16)) - 1) as u16)) & 0xfffu16) >> root) | (((mask
        & (((1u16 << ((note + 1) as u16)) - 1) as u16)) & 0xfffu16) << ((12 - root) as u16)))
        & 0xffeu16 == (if note != root && mask & (1u16 << note) != 0 {
        (((((mask & (((1u16 << note) - 1) as u16)) & 0xfffu16) >> root) | (((mask & (((1u16
            << note) - 1) as u16)) & 0xfffu16) << ((12 - root) as u16))) & 0xffeu16) | (1u16
            << interval)
    } else {
        ((((mask & (((1u16 << note) - 1) as u16)) & 0xfffu16) >> root) | (((mask & (((1u16
            << note) - 1) as u16)) & 0xfffu16) << ((12 - root) as u16))) & 0xffeu16
    })) by (bit_vector)
        requires
            note < 12,
            root < 12,
            interval == (if note >= root { note - root } else { note + 12 - root }),
    ;
}

proof fn lemma_intervals_ends(mask: u16, root: u16)
    requires
        root < 12,
    ensures
        intervals_above(mask & bits_below(0), root) == 0,
        intervals_above(mask & bits_below(12), root) == intervals_above(mask, root),
{
    assert(((((mask & (((1u16 << 0u16) - 1) as u16)) & 0xfffu16) >> root) | (((mask & (((1u16
        << 0u16) - 1) as u16)) & 0xfffu16) << ((12 - root) as u16))) & 0xffeu16 == 0)
        by (bit_vector)
        requires
            root < 12,
    ;
    assert(((((mask & (((1u16 << 12u16) - 1) as u16)) & 0xfffu16) >> root) | (((mask & (((1u16
        << 12u16) - 1) as u16)) & 0xfffu16) << ((12 - root) as u16))) & 0xffeu16 == (((mask
        & 0xfffu16) >> root) | ((mask & 0xfffu16) << ((12 - root) as u16))) & 0xffeu16)
        by (bit_vector)
        requires
            root < 12,
    ;
}

/// The intervals above `root` of the pitch classes in the mask.
fn interval_mask(pitch_class_mask: u16, root: u8) -> (intervals: u16)
    requires
        root < 12,
    ensures
        intervals == intervals_above(pitch_class_mask, root as u16),
{
    let mut intervals: u16 = 0;
    let mut note: u8 = 0;
    proof {
        lemma_intervals_ends(pitch_class_mask, root as u16);
    }
    while note < PITCH_CLASS_COUNT as u8
        invariant
            note <= 12,
            root < 12,
            intervals == intervals_above(pitch_class_mask & bits_below(note as u16), root as u16),
        decreases 12 - note,
    {
        let interval = (note + PITCH_CLASS_COUNT as u8 - root) % PITCH_CLASS_COUNT as u8;
        proof {
            lemma_intervals_step(pitch_class_mask, root as u16, note as u16, interval as u16);
        }
        if note != root && pitch_class_mask & (1u16 << (note as u16)) != 0 {
            intervals = intervals | (1u16 << (interval as u16));
        }
        note += 1;
    }
    proof {
        lemma_intervals_ends(pitch_class_mask, root as u16);
    }
    intervals
}

/// The quality formed by the given intervals above a root, if any.
fn match_chord_quality(intervals_mask: u16) -> (quality: Option<ChordQuality>)
    ensures
        quality == quality_of_intervals(intervals_mask),
{
    let value = intervals_mask;
    let power: [u8; 1] = [7];
    assert(power@ =~= seq![7u8]);
    if value == intervals(&[3, 7]) {
        Some(ChordQuality::Minor)
    } else if value == intervals(&[4, 7]) {
        Some(ChordQuality::Major)
    } else if value == intervals(&[3, 6]) {
        Some(ChordQuality::Diminished)
    } else if value == intervals(&[4, 8]) {
        Some(ChordQuality::Augmented)
    } else if value == intervals(&[3, 7, 10]) {
        Some(ChordQuality::MinorSeventh)
    } else if value == intervals(&[4, 7, 11]) {
        Some(ChordQuality::MajorSeventh)
    } else if value == intervals(&[4, 7, 10]) {
        Some(ChordQuality::DominantSeventh)
    } else if value == intervals(&[3, 6, 9]) {
        Some(ChordQuality::DiminishedSeventh)
    } else if value == intervals(&[3, 6, 10]) {
        Some(ChordQuality::HalfDiminished)
    } else if value == intervals(&[4, 8, 10]) {
        Some(ChordQuality::AugmentedSeventh)
    } else if value == intervals(&[4, 8, 11]) {
        Some(ChordQuality::AugmentedMajorSeventh)
    } else if value == intervals(&[3, 7, 11]) {
        Some(ChordQuality::MinorMajorSeventh)
    } else if value == intervals(&[4, 7, 9]) {
        Some(ChordQuality::MajorSixth)
    } else if value == intervals(&[3, 7, 9]) {
        Some(ChordQuality::MinorSixth)
    } else if value == intervals(&[2, 7]) {
        Some(ChordQuality::SuspendedSecond)
    } else if value == intervals(&[5, 7]) {
        Some(ChordQuality::SuspendedFourth)
    } else if value == intervals(&[5, 7, 10]) {
        Some(ChordQuality::DominantSeventhSuspendedFourth)
    } else if value == intervals(&[2, 4, 7, 10]) {
        Some(ChordQuality::DominantNinth)
    } else if value == intervals(&[2, 4, 7, 11]) {
        Some(ChordQuality::MajorNinth)
    } else if value == intervals(&[2, 3, 7, 10]) {
        Some(ChordQuality::MinorNinth)
    } else if value == intervals(&power) {
        Some(ChordQuality::Power)
    } else {
        None
    }
}

/// The chord formed by `note_count` sounding notes whose pitch classes are
/// the set bits of `pitch_class_mask`.
pub fn recognize_pitch_class_mask(pitch_class_mask: u16, note_count: usize) -> (chord: Chord)
    ensures
        chord == recognize_mask(pitch_class_mask, note_count as nat),
{
    if note_count == 0 || pitch_class_mask == 0 {
        return Chord::Empty;
    }
    if note_count == 1 {
        let root = pitch_class_mask.trailing_zeros() as u8;
        proof {
            axiom_u16_trailing_zeros(pitch_class_mask);
        }
        return match PitchClass::from_index(root) {
            Some(pitch_class) => {
                proof {
                    lemma_pitch_class_of_index(root as nat);
                    crate::pitch::lemma_pitch_class_view_injective(
                        pitch_class,
                        pitch_class_of_index(root as nat),
                    );
                }
                Chord::Single(pitch_class)
            },
            None => Chord::Unknown,
        };
    }
    let mut root: u8 = 0;
    while root < PITCH_CLASS_COUNT as u8
        invariant
            root <= 12,
            note_count >= 2,
            pitch_class_mask != 0,
            named_chord_from(pitch_class_mask, 0) == named_chord_from(
                pitch_class_mask,
                root as nat,
            ),
        decreases 12 - root,
    {
        if pitch_class_mask & (1u16 << (root as u16)) != 0 {
            let intervals = interval_mask(pitch_class_mask, root);
            if let Some(quality) = match_chord_quality(intervals) {
                let root_class = match PitchClass::from_index(root) {
                    Some(pitch_class) => pitch_class,
                    None => PitchClass::C(),
                };
                proof {
                    lemma_pitch_class_of_index(root as nat);
                    crate::pitch::lemma_pitch_class_view_injective(
                        root_class,
                        pitch_class_of_index(root as nat),
                    );
                }
                return Chord::Named { root: root_class, quality };
            }
        }
        root += 1;
    }
    Chord::Unknown
}

/// The chord that the given MIDI notes form: `Empty` for no note, the
/// pitch class of a single note, else the chord of their pitch classes.
pub fn recognize_midi_notes(midi_notes: &[u8]) -> (chord: Chord)
    ensures
        chord == recognize_notes(midi_notes@),
{
    if midi_notes.len() == 0 {
        return Chord::Empty;
    }
    if midi_notes.len() == 1 {
        let pitch_class = PitchClass::from_midi(midi_notes[0]);
        proof {
            lemma_pitch_class_of_index(pitch_class@);
            crate::pitch::lemma_pitch_class_view_injective(
                pitch_class,
                pitch_class_of_index(midi_pitch_class(midi_notes@[0] as nat)),
            );
        }
        return Chord::Single(pitch_class);
    }
    let mut pitch_class_mask: u16 = 0;
    let mut index: usize = 0;
    while index < midi_notes.len()
        invariant
            index <= midi_notes@.len(),
            pitch_class_mask == crate::chord::pitch_class_mask(midi_notes@.take(index as int)),
        decreases midi_notes.len() - index,
    {
        assert(midi_notes@.take(index as int + 1).drop_last() =~= midi_notes@.take(index as int));
        let pitch_class = PitchClass::from_midi(midi_notes[index]);
        pitch_class_mask = pitch_class_mask | (1u16 << (pitch_class.index() as u16));
        index += 1;
    }
    assert(midi_notes@.take(midi_notes@.len() as int) =~= midi_notes@);
    recognize_pitch_class_mask(pitch_class_mask, midi_notes.len())
}

/// Whether some note of the sequence has pitch class `pitch_class`.
pub open spec fn sounds(notes: Seq<u8>, pitch_class: nat) -> bool {
    exists|i: int| 0 <= i < notes.len() && midi_pitch_class(#[trigger] notes[i] as nat) == pitch_class
}

/// Bit `k` of the pitch-class mask is set exactly when a note of pitch class `k` sounds.
pub proof fn lemma_pitch_class_mask_bits(notes: Seq<u8>, k: nat)
    requires
        k < 16,
    ensures
        has_bit(pitch_class_mask(notes), k) <==> sounds(notes, k),
    decreases notes.len(),
{
    if notes.len() == 0 {
        lemma_zero_has_no_bit(k as u16);
    } else {
        let rest = notes.drop_last();
        let last = midi_pitch_class(notes.last() as nat);
        lemma_pitch_class_mask_bits(rest, k);
        lemma_or_bit(pitch_class_mask(rest), last as u16, k as u16);
        if sounds(notes, k) {
            let i = choose|i: int|
                0 <= i < notes.len() && midi_pitch_class(#[trigger] notes[i] as nat) == k;
            if i < notes.len() - 1 {
                assert(rest[i] == notes[i]);
            }
        }
        if sounds(rest, k) {
            let i = choose|i: int|
                0 <= i < rest.len() && midi_pitch_class(#[trigger] rest[i] as nat) == k;
            assert(notes[i] == rest[i]);
        }
        if last == k {
            assert(notes[notes.len() - 1] == notes.last());
        }
    }
}

/// Recognition of two or more notes depends only on which pitch classes
/// sound: neither the octaves, the order, nor the doubling of notes matter.
pub proof fn law_recognition_depends_only_on_pitch_classes(a: Seq<u8>, b: Seq<u8>)
    requires
        a.len() >= 2,
        b.len() >= 2,
        forall|pitch_class: nat| sounds(a, pitch_class) <==> sounds(b, pitch_class),
    ensures
        recognize_notes(a) == recognize_notes(b),
{
    assert forall|k: nat| k < 16 implies (has_bit(pitch_class_mask(a), k) <==> has_bit(
        pitch_class_mask(b),
        k,
    )) by {
        lemma_pitch_class_mask_bits(a, k);
        lemma_pitch_class_mask_bits(b, k);
    }
    lemma_bits_determine_mask(pitch_class_mask(a), pitch_class_mask(b));
}

proof fn lemma_same_classes_same_mask(a: Seq<u8>, b: Seq<u8>)
    requires
        a.len() == b.len(),
        forall|i: int| 0 <= i < a.len() ==> midi_pitch_class(a[i] as nat) == midi_pitch_class(b[i] as nat),
    ensures
        pitch_class_mask(a) == pitch_class_mask(b),
    decreases a.len(),
{
    if a.len() > 0 {
        lemma_same_classes_same_mask(a.drop_last(), b.drop_last());
        assert(a.last() == a[a.len() - 1]);
        assert(b.last() == b[b.len() - 1]);
    }
}

/// Chord recognition is octave independent: moving any notes by whole
/// octaves does not change the recognized chord.
pub proof fn law_recognition_octave_independent(a: Seq<u8>, b: Seq<u8>)
    requires
        a.len() == b.len(),
        forall|i: int| 0 <= i < a.len() ==> midi_pitch_class(a[i] as nat) == midi_pitch_class(b[i] as nat),
    ensures
        recognize_notes(a) == recognize_notes(b),
{
    lemma_same_classes_same_mask(a, b);
}

proof fn lemma_named_root_in_mask(mask: u16, from: nat)
    ensures
        named_chord_from(mask, from) matches Chord::Named { root, quality } ==> {
            &&& root@ < 12
            &&& has_bit(mask, root@)
            &&& quality_of_intervals(intervals_above(mask, root@ as u16)) == Some(quality)
        },
    decreases 12 - from,
{
    if from < 12 {
        lemma_pitch_class_of_index(from);
        lemma_named_root_in_mask(mask, from + 1);
    }
}

/// The root of a recognized chord is one of the sounding pitch classes,
/// and the other sounding pitch classes form the chord's quality above it.
pub proof fn law_named_chord_root_sounds(notes: Seq<u8>)
    ensures
        recognize_notes(notes) matches Chord::Named { root, quality } ==> {
            &&& sounds(notes, root@)
            &&& quality_of_intervals(intervals_above(pitch_class_mask(notes), root@ as u16))
                == Some(quality)
        },
{
    if notes.len() >= 2 {
        let mask = pitch_class_mask(notes);
        lemma_named_root_in_mask(mask, 0);
        if recognize_notes(notes) is Named {
            let root = recognize_notes(notes)->root;
            lemma_pitch_class_mask_bits(notes, root@);
        }
    }
}

/// The intervals above the root, in semitones, that make up each quality.
pub open spec fn quality_intervals(quality: ChordQuality) -> Seq<u8> {
    match quality {
        ChordQuality::Minor => seq![3u8, 7u8],
        ChordQuality::Major => seq![4u8, 7u8],
        ChordQuality::Diminished => seq![3u8, 6u8],
        ChordQuality::Augmented => seq![4u8, 8u8],
        ChordQuality::MinorSeventh => seq![3u8, 7u8, 10u8],
        ChordQuality::MajorSeventh => seq![4u8, 7u8, 11u8],
        ChordQuality::DominantSeventh => seq![4u8, 7u8, 10u8],
        ChordQuality::DiminishedSeventh => seq![3u8, 6u8, 9u8],
        ChordQuality::HalfDiminished => seq![3u8, 6u8, 10u8],
        ChordQuality::AugmentedSeventh => seq![4u8, 8u8, 10u8],
        ChordQuality::AugmentedMajorSeventh => seq![4u8, 8u8, 11u8],
        ChordQuality::MinorMajorSeventh => seq![3u8, 7u8, 11u8],
        ChordQuality::MajorSixth => seq![4u8, 7u8, 9u8],
        ChordQuality::MinorSixth => seq![3u8, 7u8, 9u8],
        ChordQuality::SuspendedSecond => seq![2u8, 7u8],
        ChordQuality::SuspendedFourth => seq![5u8, 7u8],
        ChordQuality::DominantSeventhSuspendedFourth => seq![5u8, 7u8, 10u8],
        ChordQuality::DominantNinth => seq![2u8, 4u8, 7u8, 10u8],
        ChordQuality::MajorNinth => seq![2u8, 4u8, 7u8, 11u8],
        ChordQuality::MinorNinth => seq![2u8, 3u8, 7u8, 10u8],
        ChordQuality::Power => seq![7u8],
    }
}

/// Whether `pitch_class` belongs to the chord of the quality built on `root`:
/// the root itself, or the root raised by one of the quality's intervals
/// (wrapping around the octave).
pub open spec fn is_chord_tone(root: nat, quality: ChordQuality, pitch_class: nat) -> bool {
    pitch_class == root || exists|i: int|
        0 <= i < quality_intervals(quality).len() && pitch_class == (root
            + #[trigger] quality_intervals(quality)[i]) % 12
}

proof fn lemma_interval_bits_values()
    ensures
        interval_bits(seq![3u8, 7u8]) == 0x88u16,
        interval_bits(seq![4u8, 7u8]) == 0x90u16,
        interval_bits(seq![3u8, 6u8]) == 0x48u16,
        interval_bits(seq![4u8, 8u8]) == 0x110u16,
        interval_bits(seq![3u8, 7u8, 10u8]) == 0x488u16,
        interval_bits(seq![4u8, 7u8, 11u8]) == 0x890u16,
        interval_bits(seq![4u8, 7u8, 10u8]) == 0x490u16,
        interval_bits(seq![3u8, 6u8, 9u8]) == 0x248u16,
        interval_bits(seq![3u8, 6u8, 10u8]) == 0x448u16,
        interval_bits(seq![4u8, 8u8, 10u8]) == 0x510u16,
        interval_bits(seq![4u8, 8u8, 11u8]) == 0x910u16,
        interval_bits(seq![3u8, 7u8, 11u8]) == 0x888u16,
        interval_bits(seq![4u8, 7u8, 9u8]) == 0x290u16,
        interval_bits(seq![3u8, 7u8, 9u8]) == 0x288u16,
        interval_bits(seq![2u8, 7u8]) == 0x84u16,
        interval_bits(seq![5u8, 7u8]) == 0xa0u16,
        interval_bits(seq![5u8, 7u8, 10u8]) == 0x4a0u16,
        interval_bits(seq![2u8, 4u8, 7u8, 10u8]) == 0x494u16,
        interval_bits(seq![2u8, 4u8, 7u8, 11u8]) == 0x894u16,
        interval_bits(seq![2u8, 3u8, 7u8, 10u8]) == 0x48cu16,
        interval_bits(seq![7u8]) == 0x80u16,
{
    reveal_with_fuel(interval_bits, 5);
    assert(interval_bits(seq![3u8, 7u8]) == ((0u16 | (1u16 << 3u16)) | (1u16 << 7u16)));
    assert(interval_bits(seq![4u8, 7u8]) == ((0u16 | (1u16 << 4u16)) | (1u16 << 7u16)));
    assert(interval_bits(seq![3u8, 6u8]) == ((0u16 | (1u16 << 3u16)) | (1u16 << 6u16)));
    assert(interval_bits(seq![4u8, 8u8]) == ((0u16 | (1u16 << 4u16)) | (1u16 << 8u16)));
    assert(interval_bits(seq![3u8, 7u8, 10u8]) == (((0u16 | (1u16 << 3u16)) | (1u16 << 7u16)) | (1u16 << 10u16)));
    assert(interval_bits(seq![4u8, 7u8, 11u8]) == (((0u16 | (1u16 << 4u16)) | (1u16 << 7u16)) | (1u16 << 11u16)));
    assert(interval_bits(seq![4u8, 7u8, 10u8]) == (((0u16 | (1u16 << 4u16)) | (1u16 << 7u16)) | (1u16 << 10u16)));
    assert(interval_bits(seq![3u8, 6u8, 9u8]) == (((0u16 | (1u16 << 3u16)) | (1u16 << 6u16)) | (1u16 << 9u16)));
    assert(interval_bits(seq![3u8, 6u8, 10u8]) == (((0u16 | (1u16 << 3u16)) | (1u16 << 6u16)) | (1u16 << 10u16)));
    assert(interval_bits(seq![4u8, 8u8, 10u8]) == (((0u16 | (1u16 << 4u16)) | (1u16 << 8u16)) | (1u16 << 10u16)));
    assert(interval_bits(seq![4u8, 8u8, 11u8]) == (((0u16 | (1u16 << 4u16)) | (1u16 << 8u16)) | (1u16 << 11u16)));
    assert(interval_bits(seq![3u8, 7u8, 11u8]) == (((0u16 | (1u16 << 3u16)) | (1u16 << 7u16)) | (1u16 << 11u16)));
    assert(interval_bits(seq![4u8, 7u8, 9u8]) == (((0u16 | (1u16 << 4u16)) | (1u16 << 7u16)) | (1u16 << 9u16)));
    assert(interval_bits(seq![3u8, 7u8, 9u8]) == (((0u16 | (1u16 << 3u16)) | (1u16 << 7u16)) | (1u16 << 9u16)));
    assert(interval_bits(seq![2u8, 7u8]) == ((0u16 | (1u16 << 2u16)) | (1u16 << 7u16)));
    assert(interval_bits(seq![5u8, 7u8]) == ((0u16 | (1u16 << 5u16)) | (1u16 << 7u16)));
    assert(interval_bits(seq![5u8, 7u8, 10u8]) == (((0u16 | (1u16 << 5u16)) | (1u16 << 7u16)) | (1u16 << 10u16)));
    assert(interval_bits(seq![2u8, 4u8, 7u8, 10u8]) == ((((0u16 | (1u16 << 2u16)) | (1u16 << 4u16)) | (1u16 << 7u16)) | (1u16 << 10u16)));
    assert(interval_bits(seq![2u8, 4u8, 7u8, 11u8]) == ((((0u16 | (1u16 << 2u16)) | (1u16 << 4u16)) | (1u16 << 7u16)) | (1u16 << 11u16)));
    assert(interval_bits(seq![2u8, 3u8, 7u8, 10u8]) == ((((0u16 | (1u16 << 2u16)) | (1u16 << 3u16)) | (1u16 << 7u16)) | (1u16 << 10u16)));
    assert(interval_bits(seq![7u8]) == (0u16 | (1u16 << 7u16)));
    assert(((0u16 | (1u16 << 3u16)) | (1u16 << 7u16)) == 0x88u16 &&
        ((0u16 | (1u16 << 4u16)) | (1u16 << 7u16)) == 0x90u16 &&
        ((0u16 | (1u16 << 3u16)) | (1u16 << 6u16)) == 0x48u16 &&
        ((0u16 | (1u16 << 4u16)) | (1u16 << 8u16)) == 0x110u16 &&
        (((0u16 | (1u16 << 3u16)) | (1u16 << 7u16)) | (1u16 << 10u16)) == 0x488u16 &&
        (((0u16 | (1u16 << 4u16)) | (1u16 << 7u16)) | (1u16 << 11u16)) == 0x890u16 &&
        (((0u16 | (1u16 << 4u16)) | (1u16 << 7u16)) | (1u16 << 10u16)) == 0x490u16 &&
        (((0u16 | (1u16 << 3u16)) | (1u16 << 6u16)) | (1u16 << 9u16)) == 0x248u16 &&
        (((0u16 | (1u16 << 3u16)) | (1u16 << 6u16)) | (1u16 << 10u16)) == 0x448u16 &&
        (((0u16 | (1u16 << 4u16)) | (1u16 << 8u16)) | (1u16 << 10u16)) == 0x510u16 &&
        (((0u16 | (1u16 << 4u16)) | (1u16 << 8u16)) | (1u16 << 11u16)) == 0x910u16 &&
        (((0u16 | (1u16 << 3u16)) | (1u16 << 7u16)) | (1u16 << 11u16)) == 0x888u16 &&
        (((0u16 | (1u16 << 4u16)) | (1u16 << 7u16)) | (1u16 << 9u16)) == 0x290u16 &&
        (((0u16 | (1u16 << 3u16)) | (1u16 << 7u16)) | (1u16 << 9u16)) == 0x288u16 &&
        ((0u16 | (1u16 << 2u16)) | (1u16 << 7u16)) == 0x84u16 &&
        ((0u16 | (1u16 << 5u16)) | (1u16 << 7u16)) == 0xa0u16 &&
        (((0u16 | (1u16 << 5u16)) | (1u16 << 7u16)) | (1u16 << 10u16)) == 0x4a0u16 &&
        ((((0u16 | (1u16 << 2u16)) | (1u16 << 4u16)) | (1u16 << 7u16)) | (1u16 << 10u16)) == 0x494u16 &&
        ((((0u16 | (1u16 << 2u16)) | (1u16 << 4u16)) | (1u16 << 7u16)) | (1u16 << 11u16)) == 0x894u16 &&
        ((((0u16 | (1u16 << 2u16)) | (1u16 << 3u16)) | (1u16 << 7u16)) | (1u16 << 10u16)) == 0x48cu16 &&
        (0u16 | (1u16 << 7u16)) == 0x80u16) by (bit_vector);
}

proof fn lemma_quality_intervals_in_octave(quality: ChordQuality)
    ensures
        forall|i: int|
            0 <= i < quality_intervals(quality).len() ==> 1 <= #[trigger] quality_intervals(
                quality,
            )[i] < 12,
{
    let s = quality_intervals(quality);
    match quality {
        ChordQuality::Minor => { assert(s[0] == 3u8); assert(s[1] == 7u8); },
        ChordQuality::Major => { assert(s[0] == 4u8); assert(s[1] == 7u8); },
        ChordQuality::Diminished => { assert(s[0] == 3u8); assert(s[1] == 6u8); },
        ChordQuality::Augmented => { assert(s[0] == 4u8); assert(s[1] == 8u8); },
        ChordQuality::MinorSeventh => { assert(s[0] == 3u8); assert(s[1] == 7u8); assert(s[2] == 10u8); },
        ChordQuality::MajorSeventh => { assert(s[0] == 4u8); assert(s[1] == 7u8); assert(s[2] == 11u8); },
        ChordQuality::DominantSeventh => { assert(s[0] == 4u8); assert(s[1] == 7u8); assert(s[2] == 10u8); },
        ChordQuality::DiminishedSeventh => { assert(s[0] == 3u8); assert(s[1] == 6u8); assert(s[2] == 9u8); },
        ChordQuality::HalfDiminished => { assert(s[0] == 3u8); assert(s[1] == 6u8); assert(s[2] == 10u8); },
        ChordQuality::AugmentedSeventh => { assert(s[0] == 4u8); assert(s[1] == 8u8); assert(s[2] == 10u8); },
        ChordQuality::AugmentedMajorSeventh => { assert(s[0] == 4u8); assert(s[1] == 8u8); assert(s[2] == 11u8); },
        ChordQuality::MinorMajorSeventh => { assert(s[0] == 3u8); assert(s[1] == 7u8); assert(s[2] == 11u8); },
        ChordQuality::MajorSixth => { assert(s[0] == 4u8); assert(s[1] == 7u8); assert(s[2] == 9u8); },
        ChordQuality::MinorSixth => { assert(s[0] == 3u8); assert(s[1] == 7u8); assert(s[2] == 9u8); },
        ChordQuality::SuspendedSecond => { assert(s[0] == 2u8); assert(s[1] == 7u8); },
        ChordQuality::SuspendedFourth => { assert(s[0] == 5u8); assert(s[1] == 7u8); },
        ChordQuality::DominantSeventhSuspendedFourth => { assert(s[0] == 5u8); assert(s[1] == 7u8); assert(s[2] == 10u8); },
        ChordQuality::DominantNinth => { assert(s[0] == 2u8); assert(s[1] == 4u8); assert(s[2] == 7u8); assert(s[3] == 10u8); },
        ChordQuality::MajorNinth => { assert(s[0] == 2u8); assert(s[1] == 4u8); assert(s[2] == 7u8); assert(s[3] == 11u8); },
        ChordQuality::MinorNinth => { assert(s[0] == 2u8); assert(s[1] == 3u8); assert(s[2] == 7u8); assert(s[3] == 10u8); },
        ChordQuality::Power => { assert(s[0] == 7u8); },
    }
}

proof fn lemma_quality_of_its_intervals(quality: ChordQuality)
    ensures
        quality_of_intervals(interval_bits(quality_intervals(quality))) is Some,
{
}

/// Bit `k` of `interval_bits(values)` is set exactly when `k` is one of the values.
proof fn lemma_interval_bits_bits(values: Seq<u8>, k: nat)
    requires
        k < 16,
        forall|i: int| 0 <= i < values.len() ==> #[trigger] values[i] < 16,
    ensures
        has_bit(interval_bits(values), k) <==> exists|i: int|
            0 <= i < values.len() && #[trigger] values[i] == k,
    decreases values.len(),
{
    if values.len() == 0 {
        lemma_zero_has_no_bit(k as u16);
    } else {
        let rest = values.drop_last();
        assert forall|i: int| 0 <= i < rest.len() implies #[trigger] rest[i] < 16 by {
            assert(rest[i] == values[i]);
        }
        lemma_interval_bits_bits(rest, k);
        assert(values.last() == values[values.len() - 1]);
        lemma_or_bit(interval_bits(rest), values.last() as u16, k as u16);
        if exists|i: int| 0 <= i < values.len() && #[trigger] values[i] == k {
            let i = choose|i: int| 0 <= i < values.len() && #[trigger] values[i] == k;
            if i < values.len() - 1 {
                assert(rest[i] == values[i]);
            }
        }
        if exists|i: int| 0 <= i < rest.len() && #[trigger] rest[i] == k {
            let i = choose|i: int| 0 <= i < rest.len() && #[trigger] rest[i] == k;
            assert(values[i] == rest[i]);
        }
    }
}

/// The pitch class `k` semitones above `t`, wrapped into the octave.
pub open spec fn above(t: nat, k: nat) -> nat {
    if t + k < 12 {
        t + k
    } else {
        (t + k - 12) as nat
    }
}

proof fn lemma_intervals_above_bit(mask: u16, t: u16, k: u16)
    requires
        t < 12,
        k < 16,
    ensures
        has_bit(intervals_above(mask, t), k as nat) <==> (1 <= k < 12 && has_bit(
            mask,
            above(t as nat, k as nat),
        )),
{
    let target: u16 = if t + k < 12 {
        (t + k) as u16
    } else {
        (t + k - 12) as u16
    };
    assert(((((mask & 0xfffu16) >> t) | ((mask & 0xfffu16) << ((12 - t) as u16))) & 0xffeu16) & (
    1u16 << k) != 0 <==> (1 <= k && k < 12 && (mask & (1u16 << target)) != 0)) by (bit_vector)
        requires
            t < 12,
            k < 16,
            target == (if t + k < 12 {
                (t + k) as u16
            } else {
                (t + k - 12) as u16
            }),
    ;
}

proof fn lemma_named_from_witness(mask: u16, from: nat, root: nat)
    requires
        from <= root < 12,
        has_bit(mask, root),
        quality_of_intervals(intervals_above(mask, root as u16)) is Some,
    ensures
        named_chord_from(mask, from) is Named,
    decreases root - from,
{
    if from < root {
        if !(has_bit(mask, from) && quality_of_intervals(intervals_above(mask, from as u16)) is Some) {
            lemma_named_from_witness(mask, from + 1, root);
        }
    }
}

proof fn lemma_named_from_first(mask: u16, from: nat, root: nat, quality: ChordQuality)
    requires
        from <= root < 12,
        forall|t: nat|
            from <= t < root && #[trigger] has_bit(mask, t) ==> quality_of_intervals(
                intervals_above(mask, t as u16),
            ) is None,
        has_bit(mask, root),
        quality_of_intervals(intervals_above(mask, root as u16)) == Some(quality),
    ensures
        named_chord_from(mask, from) == (Chord::Named { root: pitch_class_of_index(root), quality }),
    decreases root - from,
{
    if from < root {
        lemma_named_from_first(mask, from + 1, root, quality);
    }
}

proof fn lemma_chord_shape_interval_bit(notes: Seq<u8>, root: nat, quality: ChordQuality, k: nat)
    requires
        root < 12,
        k < 16,
        forall|pc: nat| pc < 12 ==> (sounds(notes, pc) <==> is_chord_tone(root, quality, pc)),
    ensures
        has_bit(intervals_above(pitch_class_mask(notes), root as u16), k) <==> has_bit(
            interval_bits(quality_intervals(quality)),
            k,
        ),
{
    let mask = pitch_class_mask(notes);
    let intervals = quality_intervals(quality);
    lemma_quality_intervals_in_octave(quality);
    lemma_intervals_above_bit(mask, root as u16, k as u16);
    lemma_interval_bits_bits(intervals, k);
    let m = above(root, k);
    if 1 <= k < 12 {
        lemma_pitch_class_mask_bits(notes, m);
        assert(sounds(notes, m) <==> is_chord_tone(root, quality, m));
        if is_chord_tone(root, quality, m) {
            let i = choose|i: int|
                0 <= i < intervals.len() && m == (root + #[trigger] intervals[i]) % 12;
            assert(intervals[i] == k);
        }
        if exists|i: int| 0 <= i < intervals.len() && #[trigger] intervals[i] == k {
            let i = choose|i: int| 0 <= i < intervals.len() && #[trigger] intervals[i] == k;
            assert(m == (root + intervals[i]) % 12);
            assert(is_chord_tone(root, quality, m));
        }
    } else {
        if exists|i: int| 0 <= i < intervals.len() && #[trigger] intervals[i] == k {
            let i = choose|i: int| 0 <= i < intervals.len() && #[trigger] intervals[i] == k;
        }
    }
}

/// Every chord shape is recognized: whenever the sounding pitch classes
/// are exactly a root and the root raised by the intervals of a quality,
/// the notes are recognized as a named chord, whatever the root.
pub proof fn law_every_chord_shape_is_recognized(notes: Seq<u8>, root: nat, quality: ChordQuality)
    requires
        root < 12,
        notes.len() >= 2,
        forall|pc: nat| pc < 12 ==> (sounds(notes, pc) <==> is_chord_tone(root, quality, pc)),
    ensures
        recognize_notes(notes) is Named,
{
    let mask = pitch_class_mask(notes);
    let intervals = quality_intervals(quality);
    assert(is_chord_tone(root, quality, root));
    lemma_pitch_class_mask_bits(notes, root);
    if mask == 0 {
        lemma_zero_has_no_bit(root as u16);
    }
    assert forall|k: nat| k < 16 implies (has_bit(intervals_above(mask, root as u16), k) <==> has_bit(
        interval_bits(intervals),
        k,
    )) by {
        lemma_chord_shape_interval_bit(notes, root, quality, k);
    }
    lemma_bits_determine_mask(intervals_above(mask, root as u16), interval_bits(intervals));
    lemma_quality_of_its_intervals(quality);
    lemma_named_from_witness(mask, 0, root);
}

proof fn lemma_bits_of_constant(c: u16, first: u16, second: u16, k: u16)
    requires
        first < 16,
        second < 16,
        k < 16,
        c == (1u16 << first) | (1u16 << second),
    ensures
        has_bit(c, k as nat) <==> (k == first || k == second),
{
    assert((c & (1u16 << k)) != 0 <==> (k == first || k == second)) by (bit_vector)
        requires
            first < 16,
            second < 16,
            k < 16,
            c == (1u16 << first) | (1u16 << second),
    ;
}

/// Every major triad is recognized as a major chord on its own root, for
/// all twelve roots: when the sounding pitch classes are exactly a root,
/// its major third and its fifth, the chord is `Named { root, Major }`.
pub proof fn law_major_triads_are_named_by_their_root(notes: Seq<u8>, root: nat)
    requires
        root < 12,
        notes.len() >= 2,
        forall|pc: nat|
            pc < 12 ==> (sounds(notes, pc) <==> (pc == root || pc == above(root, 4) || pc == above(
                root,
                7,
            ))),
    ensures
        recognize_notes(notes) == (Chord::Named {
            root: pitch_class_of_index(root),
            quality: ChordQuality::Major,
        }),
{
    let mask = pitch_class_mask(notes);
    lemma_interval_bits_values();
    assert forall|pc: nat| pc < 16 implies (has_bit(mask, pc) <==> (pc == root || pc == above(
        root,
        4,
    ) || pc == above(root, 7))) by {
        lemma_pitch_class_mask_bits(notes, pc);
    }
    if mask == 0 {
        lemma_zero_has_no_bit(root as u16);
    }
    assert((1u16 << 4u16) | (1u16 << 7u16) == 0x90u16) by (bit_vector);
    assert((1u16 << 3u16) | (1u16 << 8u16) == 0x108u16) by (bit_vector);
    assert((1u16 << 5u16) | (1u16 << 9u16) == 0x220u16) by (bit_vector);
    // Above the root: a major third and a fifth.
    assert forall|k: nat| k < 16 implies (has_bit(intervals_above(mask, root as u16), k) <==> has_bit(
        0x90u16,
        k,
    )) by {
        lemma_intervals_above_bit(mask, root as u16, k as u16);
        lemma_bits_of_constant(0x90u16, 4, 7, k as u16);
    }
    lemma_bits_determine_mask(intervals_above(mask, root as u16), 0x90u16);
    // Any lower sounding root is the third or the fifth, over which the
    // other tones are a minor third and a minor sixth, or a fourth and a major sixth.
    assert forall|t: nat| 0 <= t < root && #[trigger] has_bit(mask, t) implies quality_of_intervals(
        intervals_above(mask, t as u16),
    ) is None by {
        if t == above(root, 4) {
            assert forall|k: nat| k < 16 implies (has_bit(intervals_above(mask, t as u16), k)
                <==> has_bit(0x108u16, k)) by {
                lemma_intervals_above_bit(mask, t as u16, k as u16);
                lemma_bits_of_constant(0x108u16, 3, 8, k as u16);
            }
            lemma_bits_determine_mask(intervals_above(mask, t as u16), 0x108u16);
        } else {
            assert(t == above(root, 7));
            assert forall|k: nat| k < 16 implies (has_bit(intervals_above(mask, t as u16), k)
                <==> has_bit(0x220u16, k)) by {
                lemma_intervals_above_bit(mask, t as u16, k as u16);
                lemma_bits_of_constant(0x220u16, 5, 9, k as u16);
            }
            lemma_bits_determine_mask(intervals_above(mask, t as u16), 0x220u16);
        }
    }
    lemma_named_from_first(mask, 0, root, ChordQuality::Major);
}

} // verus!

use vstd::prelude::*;

verus! {

/// Number of pitch classes in the chromatic scale.
pub const PITCH_CLASS_COUNT: usize = 12;

/// One of the twelve pitch classes (C, C#, ..., B), independent of octave.
#[derive(Debug, Clone, Copy, PartialEq, Eq, Structural, PartialOrd, Ord, Hash)]
pub struct PitchClass(u8);

impl View for PitchClass {
    type V = nat;

    /// The pitch class as its index: 0 for C up to 11 for B.
    closed spec fn view(&self) -> nat {
        self.0 as nat
    }
}

/// The name of the pitch class with the given index.
pub open spec fn pitch_class_name(index: nat) -> Seq<char> {
    if index == 0 {
        "C"@
    } else if index == 1 {
        "C#"@
    } else if index == 2 {
        "D"@
    } else if index == 3 {
        "D#"@
    } else if index == 4 {
        "E"@
    } else if index == 5 {
        "F"@
    } else if index == 6 {
        "F#"@
    } else if index == 7 {
        "G"@
    } else if index == 8 {
        "G#"@
    } else if index == 9 {
        "A"@
    } else if index == 10 {
        "A#"@
    } else {
        "B"@
    }
}

/// The pitch class with index `index` (meaningful for `index < 12`).
pub closed spec fn pitch_class_of_index(index: nat) -> PitchClass {
    PitchClass(index as u8)
}

/// `pitch_class_of_index` is the inverse of the view on valid indices.
pub proof fn lemma_pitch_class_of_index(index: nat)
    requires
        index < 12,
    ensures
        pitch_class_of_index(index)@ == index,
{
}

/// Two pitch classes with the same index are the same pitch class.
pub proof fn lemma_pitch_class_view_injective(a: PitchClass, b: PitchClass)
    ensures
        a@ == b@ <==> a == b,
{
}

impl PitchClass {
    #[verifier::type_invariant]
    spec fn in_range(self) -> bool {
        self.0 < 12
    }

    /// The pitch class C.
    #[allow(non_snake_case)]
    pub fn C() -> (pitch_class: Self)
        ensures
            pitch_class@ == 0,
    {
        PitchClass(0)
    }

    /// The pitch class of a MIDI note number: the note modulo twelve.
    pub fn from_midi(note: u8) -> (pitch_class: Self)
        ensures
            pitch_class@ == midi_pitch_class(note as nat),
            pitch_class@ < 12,
    {
        PitchClass(note % (PITCH_CLASS_COUNT as u8))
    }

    /// The pitch class with the given index, or `None` when the index is 12 or more.
    pub fn from_index(index: u8) -> (pitch_class: Option<Self>)
        ensures
            index < 12 <==> pitch_class is Some,
            pitch_class matches Some(p) ==> p@ == index as nat,
    {
        if index < PITCH_CLASS_COUNT as u8 {
            Some(PitchClass(index))
        } else {
            None
        }
    }

    /// The index of the pitch class, 0 for C up to 11 for B.
    pub fn index(self) -> (index: usize)
        ensures
            index as nat == self@,
            index < 12,
    {
        proof {
            use_type_invariant(&self);
        }
        self.0 as usize
    }

    /// The index of the pitch class as a byte.
    pub fn as_u8(self) -> (index: u8)
        ensures
            index as nat == self@,
            index < 12,
    {
        proof {
            use_type_invariant(&self);
        }
        self.0
    }

    /// The note name of the pitch class, with sharps ("C", "C#", ..., "B").
    pub fn name(self) -> (name: &'static str)
        ensures
            name@ == pitch_class_name(self@),
    {
        proof {
            use_type_invariant(&self);
        }
        match self.0 {
            0 => "C",
            1 => "C#",
            2 => "D",
            3 => "D#",
            4 => "E",
            5 => "F",
            6 => "F#",
            7 => "G",
            8 => "G#",
            9 => "A",
            10 => "A#",
            _ => "B",
        }
    }
}

/// The pitch class index of a MIDI note number.
pub open spec fn midi_pitch_class(note: nat) -> nat {
    note % 12
}

/// Pitch classes do not depend on the octave: notes any whole number of
/// octaves apart have the same pitch class.
pub proof fn law_pitch_class_octave_independent(note: nat, octaves: nat)
    ensures
        midi_pitch_class(note + 12 * octaves) == midi_pitch_class(note),
{
    vstd::arithmetic::div_mod::lemma_mod_multiples_vanish(octaves as int, note as int, 12);
}

} // verus!

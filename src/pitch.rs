use vstd::prelude::*;

use crate::powers::{three_pow, two_pow};

verus! {

/// Denotes an octave.
pub type Octave = i32;

/// Denotes a tone within the octave.
pub type Tone = u8;

/// Denotes a raw note value that takes the octave into account.
pub type Note = i64;

/// Binds a raw note to its tone and octave. A temperament is seeded with one of these; its
/// frequency there is the temperament's reference frequency, which every pitch the
/// temperament gives is a ratio to.
#[derive(Debug, Clone, Copy, PartialEq, Eq)]
pub struct NoteMap {
    pub note: Note,
    pub tone: Tone,
    pub octave: Octave,
}

impl NoteMap {
    pub fn new(note: Note, tone: Tone, octave: Octave) -> (r: Self)
        ensures
            r.note == note,
            r.tone == tone,
            r.octave == octave,
    {
        Self { note, tone, octave }
    }

    /// Concert A.
    pub open spec fn concert_a_spec() -> Self {
        NoteMap { note: 69, tone: 9, octave: 4 }
    }

    /// Concert A: note 69, the tenth tone of octave four, tuned to 440 Hz.
    pub fn concert_a() -> (r: Self)
        ensures
            r == Self::concert_a_spec(),
    {
        Self::new(69, 9, 4)
    }
}

/// A frequency ratio of Pythagorean tuning: `3^threes * 2^twos`. Every such ratio has
/// exactly one pair of exponents, so two ratios are equal exactly when their fields are.
#[derive(Debug, Clone, Copy, PartialEq, Eq)]
pub struct Ratio {
    pub threes: i64,
    pub twos: i64,
}

/// A frequency ratio of equal temperament: `2^(steps / divisions)`.
#[derive(Debug, Clone, Copy, PartialEq, Eq)]
pub struct EqualRatio {
    pub steps: i64,
    pub divisions: u8,
}

impl Ratio {
    /// The numerator of the ratio written as a fraction of naturals.
    pub open spec fn numerator(self) -> nat {
        three_pow(if self.threes >= 0 { self.threes as nat } else { 0 }) * two_pow(
            if self.twos >= 0 { self.twos as nat } else { 0 },
        )
    }

    /// The denominator of the ratio written as a fraction of naturals.
    pub open spec fn denominator(self) -> nat {
        three_pow(if self.threes < 0 { (-self.threes) as nat } else { 0 }) * two_pow(
            if self.twos < 0 { (-self.twos) as nat } else { 0 },
        )
    }

    /// The ratio lies in `[1, 2)`.
    pub open spec fn in_first_octave(self) -> bool {
        self.denominator() <= self.numerator() < 2 * self.denominator()
    }

    /// The ratio `1`.
    pub fn unison() -> (r: Self)
        ensures
            r.threes == 0,
            r.twos == 0,
    {
        Ratio { threes: 0, twos: 0 }
    }
}

impl EqualRatio {
    /// The ratio is `2^k`: `k` whole octaves.
    pub open spec fn is_octaves(self, k: int) -> bool {
        self.steps == k * self.divisions
    }
}

} // verus!

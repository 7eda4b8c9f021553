use vstd::prelude::*;
use vstd::arithmetic::div_mod::{
    lemma_fundamental_div_mod, lemma_fundamental_div_mod_converse, lemma_mod_bound,
};

use crate::pitch::{Note, NoteMap, Octave, Tone};

verus! {

/// The note at the given octave and tone, in a system of `n` tones whose octave zero starts
/// at note `origin`.
pub open spec fn note_of(n: int, origin: int, octave: int, tone: int) -> int {
    octave * n + tone + origin
}

/// The tone of a note: never negative, also for notes below the origin.
pub open spec fn tone_of(n: int, origin: int, note: int) -> int {
    (note - origin) % n
}

/// The octave of a note, counted from the origin and rounded down.
pub open spec fn octave_of(n: int, origin: int, note: int) -> int {
    (note - origin) / n
}

/// The note of octave zero, tone zero, for a reference note in a system of `n` tones.
pub open spec fn origin_of(n: int, reference: NoteMap) -> int {
    reference.note - reference.tone - reference.octave * n
}

/// What a reference note must be for a temperament of `n` tones: its tone lies in the
/// octave, and the origin it gives is a [`Note`].
pub open spec fn valid_reference(n: int, reference: NoteMap) -> bool {
    &&& 2 <= n <= 255
    &&& reference.tone < n
    &&& i64::MIN <= origin_of(n, reference) <= i64::MAX
}

/// The shared contract of tuning systems: converting between a raw note and its octave and
/// tone.
pub trait Temperament {
    /// The number of tones per octave.
    spec fn spec_tone_count(&self) -> int;

    /// The note of octave zero, tone zero.
    spec fn spec_origin(&self) -> int;

    spec fn well_formed(&self) -> bool;

    /// The number of tones per octave.
    fn tone_count(&self) -> (r: usize)
        requires
            self.well_formed(),
        ensures
            r == self.spec_tone_count(),
            2 <= r <= 255,
    ;

    /// Gets the note value, using octave and tone.
    fn note(&self, oct: Octave, tone: Tone) -> (r: Note)
        requires
            self.well_formed(),
            i64::MIN <= note_of(self.spec_tone_count(), self.spec_origin(), oct as int, tone as int)
                <= i64::MAX,
        ensures
            r == note_of(self.spec_tone_count(), self.spec_origin(), oct as int, tone as int),
    ;

    /// Gets the octave number of the given note.
    fn octave(&self, note: Note) -> (r: Octave)
        requires
            self.well_formed(),
            i32::MIN <= octave_of(self.spec_tone_count(), self.spec_origin(), note as int)
                <= i32::MAX,
        ensures
            r == octave_of(self.spec_tone_count(), self.spec_origin(), note as int),
    ;

    /// Gets the tone value for the given note.
    fn tone(&self, note: Note) -> (r: Tone)
        requires
            self.well_formed(),
        ensures
            r == tone_of(self.spec_tone_count(), self.spec_origin(), note as int),
            r < self.spec_tone_count(),
    ;
}

/// Every note is the note of its own octave and tone.
pub proof fn lemma_note_round_trip(n: int, origin: int, note: int)
    requires
        n >= 1,
    ensures
        0 <= tone_of(n, origin, note) < n,
        note_of(n, origin, octave_of(n, origin, note), tone_of(n, origin, note)) == note,
{
    let x = note - origin;
    lemma_fundamental_div_mod(x, n);
    lemma_mod_bound(x, n);
    assert(x == (x / n) * n + x % n) by (nonlinear_arith)
        requires
            x == n * (x / n) + x % n,
    ;
}

/// An octave and a tone within the octave are the octave and tone of their note.
pub proof fn lemma_octave_tone_round_trip(n: int, origin: int, octave: int, tone: int)
    requires
        n >= 1,
        0 <= tone < n,
    ensures
        tone_of(n, origin, note_of(n, origin, octave, tone)) == tone,
        octave_of(n, origin, note_of(n, origin, octave, tone)) == octave,
{
    lemma_fundamental_div_mod_converse(octave * n + tone, n, octave, tone);
}

/// The origin of a reference note.
pub(crate) fn octave_origin(tone_count: Tone, reference: &NoteMap) -> (r: Note)
    requires
        valid_reference(tone_count as int, *reference),
    ensures
        r == origin_of(tone_count as int, *reference),
{
    let oct = reference.octave as i128 * tone_count as i128;
    (reference.note as i128 - reference.tone as i128 - oct) as Note
}

proof fn lemma_div_mod_parts(y: int, d: int)
    requires
        d >= 1,
    ensures
        y == (y / d) * d + y % d,
        0 <= y % d < d,
{
    lemma_fundamental_div_mod(y, d);
    lemma_mod_bound(y, d);
    assert(y == (y / d) * d + y % d) by (nonlinear_arith)
        requires
            y == d * (y / d) + y % d,
    ;
}

/// Floor division and non-negative remainder of `x` by `n`.
pub(crate) fn floor_div_mod(x: i128, n: u8) -> (r: (i128, u8))
    requires
        n >= 1,
        -0x1_0000_0000_0000_0000_0000 <= x <= 0x1_0000_0000_0000_0000_0000,
    ensures
        r.0 == (x as int) / (n as int),
        r.1 == (x as int) % (n as int),
{
    let d = n as u128;
    if x >= 0 {
        let y = x as u128;
        let q = y / d;
        let m = y % d;
        proof {
            lemma_div_mod_parts(y as int, d as int);
            lemma_fundamental_div_mod_converse(x as int, n as int, q as int, m as int);
        }
        (q as i128, m as u8)
    } else {
        let y = (-x) as u128;
        let q = y / d;
        let m = y % d;
        proof {
            lemma_div_mod_parts(y as int, d as int);
        }
        if m == 0 {
            proof {
                assert(x as int == (-(q as int)) * (d as int)) by (nonlinear_arith)
                    requires
                        y as int == (q as int) * (d as int),
                        x as int == -(y as int),
                ;
                lemma_fundamental_div_mod_converse(x as int, n as int, -(q as int), 0);
            }
            (-(q as i128), 0)
        } else {
            proof {
                assert(x as int == (-(q as int) - 1) * (d as int) + (d as int - m as int))
                    by (nonlinear_arith)
                    requires
                        y as int == (q as int) * (d as int) + m as int,
                        x as int == -(y as int),
                ;
                lemma_fundamental_div_mod_converse(
                    x as int,
                    n as int,
                    -(q as int) - 1,
                    n as int - m as int,
                );
            }
            (-(q as i128) - 1, (d - m) as u8)
        }
    }
}

} // verus!

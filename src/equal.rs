use vstd::prelude::*;

use crate::pitch::{EqualRatio, Note, NoteMap, Octave, Tone};
use crate::temperament::{
    floor_div_mod, lemma_octave_tone_round_trip, octave_origin, origin_of, valid_reference,
    Temperament,
};

verus! {

/// Equal temperament: every step of the octave is the same ratio, `2^(1 / tone_count)`.
///
/// Frequencies are ratios to the reference frequency, which sounds at the reference note.
pub struct EqualTemperament {
    /// The number of tones per octave.
    tone_count: Tone,
    /// The reference note.
    reference: NoteMap,
    /// The note of octave zero, tone zero.
    octave_note_zero: Note,
}

impl EqualTemperament {
    /// The reference note.
    pub closed spec fn spec_reference(self) -> NoteMap {
        self.reference
    }

    /// The frequency of `note` is `2^(steps / tone_count)` times the reference frequency,
    /// with this many steps.
    pub open spec fn steps_from_reference(self, note: int) -> int {
        note - self.spec_reference().note
    }

    /// A temperament of `tone_count` tones in which `reference_note` sounds at the reference
    /// frequency.
    pub fn new(tone_count: Tone, reference_note: NoteMap) -> (r: Self)
        requires
            valid_reference(tone_count as int, reference_note),
        ensures
            r.well_formed(),
            r.spec_tone_count() == tone_count,
            r.spec_origin() == origin_of(tone_count as int, reference_note),
            r.spec_reference() == reference_note,
    {
        let octave_note_zero = octave_origin(tone_count, &reference_note);
        Self { reference: reference_note, tone_count, octave_note_zero }
    }

    /// Twelve-tone equal temperament tuned from concert A.
    pub fn tet() -> (r: Self)
        ensures
            r.well_formed(),
            r.spec_tone_count() == 12,
            r.spec_origin() == 12,
            r.spec_reference() == NoteMap::concert_a_spec(),
    {
        Self::new(12, NoteMap::concert_a())
    }

    /// The reference note.
    pub fn reference_note(&self) -> (r: Note)
        ensures
            r == self.spec_reference().note,
    {
        self.reference.note
    }

    /// The frequency of `note`, as a ratio to the reference frequency.
    pub fn frequency(&self, note: Note) -> (r: EqualRatio)
        requires
            self.well_formed(),
            i64::MIN <= self.steps_from_reference(note as int) <= i64::MAX,
        ensures
            r.steps == self.steps_from_reference(note as int),
            r.divisions == self.spec_tone_count(),
    {
        EqualRatio { steps: note - self.reference.note, divisions: self.tone_count }
    }
}

impl Temperament for EqualTemperament {
    closed spec fn spec_tone_count(&self) -> int {
        self.tone_count as int
    }

    closed spec fn spec_origin(&self) -> int {
        self.octave_note_zero as int
    }

    closed spec fn well_formed(&self) -> bool {
        &&& valid_reference(self.tone_count as int, self.reference)
        &&& self.octave_note_zero as int == origin_of(self.tone_count as int, self.reference)
    }

    fn tone_count(&self) -> (r: usize) {
        self.tone_count as usize
    }

    fn note(&self, oct: Octave, tone: Tone) -> (r: Note) {
        let oct_mul = oct as i128 * self.tone_count as i128;
        (oct_mul + tone as i128 + self.octave_note_zero as i128) as Note
    }

    fn octave(&self, note: Note) -> (r: Octave) {
        let (q, _) = floor_div_mod(note as i128 - self.octave_note_zero as i128, self.tone_count);
        q as Octave
    }

    fn tone(&self, note: Note) -> (r: Tone) {
        let (_, t) = floor_div_mod(note as i128 - self.octave_note_zero as i128, self.tone_count);
        t
    }
}

/// In equal temperament the reference note sounds at the reference frequency, and each
/// octave above or below it doubles or halves the frequency: the note `k` octaves from the
/// reference sounds at `2^k` times the reference frequency.
pub proof fn lemma_equal_octaves(temperament: EqualTemperament, k: int)
    requires
        temperament.well_formed(),
    ensures
        temperament.steps_from_reference(temperament.spec_reference().note as int) == 0,
        temperament.steps_from_reference(
            temperament.spec_reference().note + k * temperament.spec_tone_count(),
        ) == k * temperament.spec_tone_count(),
{
}

/// The reference note sits at the octave and tone it was given as.
pub proof fn lemma_equal_reference_coordinates(temperament: EqualTemperament)
    requires
        temperament.well_formed(),
    ensures
        crate::temperament::tone_of(
            temperament.spec_tone_count(),
            temperament.spec_origin(),
            temperament.spec_reference().note as int,
        ) == temperament.spec_reference().tone,
        crate::temperament::octave_of(
            temperament.spec_tone_count(),
            temperament.spec_origin(),
            temperament.spec_reference().note as int,
        ) == temperament.spec_reference().octave,
{
    lemma_octave_tone_round_trip(
        temperament.spec_tone_count(),
        temperament.spec_origin(),
        temperament.spec_reference().octave as int,
        temperament.spec_reference().tone as int,
    );
}

} // verus!

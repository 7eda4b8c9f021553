use vstd::prelude::*;

use crate::circle::{
    circle_reaches, circle_step_spec, circle_tone, lemma_perfect_circle_visits_each_tone_once, Circle,
};
use crate::pitch::{Note, NoteMap, Octave, Ratio, Tone};
use crate::powers::{
    lemma_log2_floor_below, lemma_log2_floor_bracket, lemma_three_pow_80, lemma_three_pow_monotone,
    lemma_two_pow_127, lemma_two_pow_exponent_bound, log2_floor, three_pow, three_power, two_pow,
};
use crate::temperament::{
    floor_div_mod, note_of, octave_of, octave_origin, origin_of, tone_of, valid_reference,
    Temperament,
};

verus! {

/// The largest power of three that an exact ratio computation holds: `3^80` is the last
/// one below `2^128`.
pub const MAX_THREES: i64 = 80;

/// The most tones per octave for which every Pythagorean ratio stays within [`MAX_THREES`].
pub const MAX_PYTHAGOREAN_TONES: u8 = 161;

/// The power of two that brings a ratio with `threes` threes into `[1, 2)`.
pub open spec fn first_octave_twos(threes: int) -> int {
    if threes >= 0 {
        -(log2_floor(three_pow(threes as nat)) as int)
    } else {
        log2_floor((three_pow((-threes) as nat) - 1) as nat) as int + 1
    }
}

/// The scale degree of `tone` above the root tone: never negative.
pub open spec fn scale_degree(n: int, root_tone: int, tone: int) -> int {
    (tone - root_tone) % n
}

/// The step of the perfect circle over `n` tones at which `degree` comes.
pub open spec fn circle_position(n: int, degree: int) -> int {
    choose|i: int| 0 <= i < n && circle_tone(circle_step_spec(n), n, i) == degree
}

/// How many fifths up a position of the circle stands for. Past the middle the ratio is
/// `(2/3)^-(n - position)`, which is `n - position` fifths up: the shorter way round.
pub open spec fn fifths_exponent(n: int, position: int) -> int {
    if position > n / 2 {
        n - position
    } else {
        position
    }
}

/// The power of three in the ratio of `tone` to the root tone.
pub open spec fn absolute_threes(n: int, root_tone: int, tone: int) -> int {
    fifths_exponent(n, circle_position(n, scale_degree(n, root_tone, tone)))
}

/// The place of a degree in the perfect circle is a step of its one period, and few
/// enough fifths for an exact ratio.
proof fn lemma_circle_position(n: int, degree: int)
    requires
        2 <= n <= 161,
        0 <= degree < n,
    ensures
        0 <= circle_position(n, degree) < n,
        circle_tone(circle_step_spec(n), n, circle_position(n, degree)) == degree,
        forall|i: int|
            0 <= i < n && #[trigger] circle_tone(circle_step_spec(n), n, i) == degree ==> i
                == circle_position(n, degree),
        0 <= fifths_exponent(n, circle_position(n, degree)) <= 80,
{
    lemma_perfect_circle_visits_each_tone_once(n);
    assert(circle_reaches(circle_step_spec(n), n, degree));
}

/// The exponents that a tone contributes to a frequency are small.
proof fn lemma_tone_exponent_bounds(n: int, root_tone: int, tone: int)
    requires
        2 <= n <= 161,
    ensures
        0 <= absolute_threes(n, root_tone, tone) <= MAX_THREES,
        -127 <= first_octave_twos(absolute_threes(n, root_tone, tone)) <= 0,
{
    let d = scale_degree(n, root_tone, tone);
    vstd::arithmetic::div_mod::lemma_mod_bound(tone - root_tone, n);
    lemma_circle_position(n, d);
    let e = absolute_threes(n, root_tone, tone);
    lemma_three_pow_monotone(e as nat, 80);
    lemma_three_pow_80();
    lemma_two_pow_127();
    lemma_log2_floor_below(three_pow(e as nat), 127);
}

/// Adding whole octaves to a value adds them to its floor quotient and keeps its remainder.
proof fn lemma_shift_by_octaves(a: int, k: int, n: int)
    requires
        n >= 1,
    ensures
        (a + k * n) / n == a / n + k,
        (a + k * n) % n == a % n,
{
    vstd::arithmetic::div_mod::lemma_fundamental_div_mod(a, n);
    vstd::arithmetic::div_mod::lemma_mod_bound(a, n);
    assert(a + k * n == (a / n + k) * n + a % n) by (nonlinear_arith)
        requires
            a == n * (a / n) + a % n,
    ;
    vstd::arithmetic::div_mod::lemma_fundamental_div_mod_converse(a + k * n, n, a / n + k, a % n);
}

/// A tone is no fifths away from itself, and needs no octave folding.
proof fn lemma_unison(n: int, tone: int)
    requires
        2 <= n <= 161,
    ensures
        scale_degree(n, tone, tone) == 0,
        absolute_threes(n, tone, tone) == 0,
        first_octave_twos(0) == 0,
{
    lemma_circle_position(n, 0);
    assert(0 * circle_step_spec(n) == 0);
    vstd::arithmetic::div_mod::lemma_fundamental_div_mod_converse(0, n, 0, 0);
    vstd::arithmetic::div_mod::lemma_fundamental_div_mod_converse(tone - tone, n, 0, 0);
    assert(circle_tone(circle_step_spec(n), n, 0) == 0);
    assert(three_pow(0) == 1);
    assert(log2_floor(1) == 0);
}

/// A Pythagorean tuning: every tone is a number of pure fifths (`3/2`) away from the root,
/// brought back into the root's octave.
///
/// Frequencies are exact ratios to the reference frequency that the temperament was made
/// with; the root can be moved, carrying with it the frequency it had.
pub struct PythagoreanTemperament {
    /// The tuning note.
    root: NoteMap,
    /// The frequency of the tuning note, as a ratio to the reference frequency.
    root_frequency: Ratio,
    /// The number of tones per octave.
    tone_count: Tone,
    /// The note of octave zero, tone zero.
    octave_note_zero: Note,
}

impl PythagoreanTemperament {
    /// The tuning note.
    pub closed spec fn spec_root(self) -> NoteMap {
        self.root
    }

    /// The frequency of the tuning note, as a ratio to the reference frequency.
    pub closed spec fn spec_root_frequency(self) -> Ratio {
        self.root_frequency
    }

    /// The power of three in the frequency of `note`.
    pub open spec fn frequency_threes(self, note: int) -> int {
        let n = self.spec_tone_count();
        self.spec_root_frequency().threes + absolute_threes(
            n,
            self.spec_root().tone as int,
            tone_of(n, self.spec_origin(), note),
        )
    }

    /// The power of two in the frequency of `note`: the root's, the one that brings the
    /// tone into the root's octave, and one per octave from the root to the note.
    pub open spec fn frequency_twos(self, note: int) -> int {
        let n = self.spec_tone_count();
        self.spec_root_frequency().twos + first_octave_twos(
            absolute_threes(n, self.spec_root().tone as int, tone_of(n, self.spec_origin(), note)),
        ) + (note - self.spec_root().note) / n
    }

    /// The root's exponents and the octaves from the root to `note` leave room for the
    /// frequency of `note` in a [`Ratio`].
    pub open spec fn frequency_in_range(self, note: int) -> bool {
        &&& i64::MIN + MAX_THREES <= self.spec_root_frequency().threes <= i64::MAX - MAX_THREES
        &&& i64::MIN + 128 <= self.spec_root_frequency().twos + (note - self.spec_root().note)
            / self.spec_tone_count() <= i64::MAX - 128
    }

    /// The temperament after its root moved to `note`.
    pub closed spec fn moved_root(self, note: int) -> Self {
        let n = self.tone_count as int;
        PythagoreanTemperament {
            root: NoteMap {
                note: note as Note,
                tone: tone_of(n, self.octave_note_zero as int, note) as Tone,
                octave: octave_of(n, self.octave_note_zero as int, note) as Octave,
            },
            root_frequency: Ratio {
                threes: self.frequency_threes(note) as i64,
                twos: self.frequency_twos(note) as i64,
            },
            tone_count: self.tone_count,
            octave_note_zero: self.octave_note_zero,
        }
    }

    /// A temperament of `tone_count` tones, tuned from `reference_note`, which becomes its
    /// root and sounds at the reference frequency.
    pub fn new(tone_count: Tone, reference_note: NoteMap) -> (r: Self)
        requires
            valid_reference(tone_count as int, reference_note),
            tone_count <= MAX_PYTHAGOREAN_TONES,
        ensures
            r.well_formed(),
            r.spec_tone_count() == tone_count,
            r.spec_origin() == origin_of(tone_count as int, reference_note),
            r.spec_root() == reference_note,
            r.spec_root_frequency() == (Ratio { threes: 0, twos: 0 }),
    {
        let octave_note_zero = octave_origin(tone_count, &reference_note);
        proof {
            crate::temperament::lemma_octave_tone_round_trip(
                tone_count as int,
                octave_note_zero as int,
                reference_note.octave as int,
                reference_note.tone as int,
            );
        }
        Self { tone_count, root: reference_note, root_frequency: Ratio::unison(), octave_note_zero }
    }

    /// The tone of the root.
    pub fn root(&self) -> (r: Tone)
        ensures
            r == self.spec_root().tone,
    {
        self.root.tone
    }

    /// The note of the root.
    pub fn root_note(&self) -> (r: Note)
        ensures
            r == self.spec_root().note,
    {
        self.root.note
    }

    /// The frequency of the root, as a ratio to the reference frequency.
    pub fn root_frequency(&self) -> (r: Ratio)
        ensures
            r == self.spec_root_frequency(),
    {
        self.root_frequency
    }

    /// Twelve tones tuned from concert A.
    pub fn standard() -> (r: Self)
        ensures
            r.well_formed(),
            r.spec_tone_count() == 12,
            r.spec_origin() == 12,
            r.spec_root() == NoteMap::concert_a_spec(),
            r.spec_root_frequency() == (Ratio { threes: 0, twos: 0 }),
    {
        Self::new(12, NoteMap::concert_a())
    }

    /// Moves the root to `note` for later calculations. The new root keeps the frequency
    /// that the tuning gave it before the move.
    pub fn move_root(&mut self, note: Note)
        requires
            old(self).well_formed(),
            old(self).frequency_in_range(note as int),
            i32::MIN <= octave_of(old(self).spec_tone_count(), old(self).spec_origin(), note as int)
                <= i32::MAX,
        ensures
            final(self).well_formed(),
            *final(self) == old(self).moved_root(note as int),
    {
        let freq = self.frequency(note);
        let tone = self.tone(note);
        let octave = self.octave(note);
        self.root = NoteMap::new(note, tone, octave);
        self.root_frequency = freq;
    }

    /// The ratio of a tone to the root tone, as a number of pure fifths up, before it is
    /// brought into the root's octave.
    pub fn absolute_ratio(&self, tone: Tone) -> (r: Ratio)
        requires
            self.well_formed(),
        ensures
            r.threes == absolute_threes(
                self.spec_tone_count(),
                self.spec_root().tone as int,
                tone as int,
            ),
            r.twos == -r.threes,
            0 <= r.threes <= MAX_THREES,
    {
        let n = self.tone_count;
        let (_, degree) = floor_div_mod(tone as i128 - self.root.tone as i128, n);
        let circle = Circle::new(n as usize);
        proof {
            lemma_circle_position(n as int, degree as int);
        }
        let ghost position = circle_position(n as int, degree as int);
        let index = match circle.index(degree) {
            Some(i) => {
                assert(circle.tone_at(i as int) == degree);
                i
            },
            None => {
                assert(circle.tone_at(position) == degree);
                0
            },
        };
        let e: i64 = if index > (n / 2) as usize {
            (n as usize - index) as i64
        } else {
            index as i64
        };
        Ratio { threes: e, twos: -e }
    }

    /// The ratio of a tone to the root tone, brought into `[1, 2)`.
    pub fn tone_space_ratio(&self, tone: Tone) -> (r: Ratio)
        requires
            self.well_formed(),
        ensures
            r.threes == absolute_threes(
                self.spec_tone_count(),
                self.spec_root().tone as int,
                tone as int,
            ),
            r.twos == first_octave_twos(r.threes as int),
            r.in_first_octave(),
            0 <= r.threes <= MAX_THREES,
            -128 < r.twos < 128,
    {
        let absolute = self.absolute_ratio(tone);
        self.sanitize_ratio(absolute)
    }

    /// The frequency of `note`, as a ratio to the reference frequency: the root's frequency,
    /// times the ratio of the note's tone to the root tone, times two for each octave from
    /// the root to the note.
    pub fn frequency(&self, note: Note) -> (r: Ratio)
        requires
            self.well_formed(),
            self.frequency_in_range(note as int),
        ensures
            r.threes == self.frequency_threes(note as int),
            r.twos == self.frequency_twos(note as int),
    {
        let tone = self.tone(note);
        let tsr = self.tone_space_ratio(tone);
        let (octaves, _) = floor_div_mod(note as i128 - self.root.note as i128, self.tone_count);
        let threes = self.root_frequency.threes as i128 + tsr.threes as i128;
        let twos = self.root_frequency.twos as i128 + tsr.twos as i128 + octaves;
        Ratio { threes: threes as i64, twos: twos as i64 }
    }

    /// Brings a ratio into `[1, 2)` by whole octaves.
    pub fn sanitize_ratio(&self, ratio: Ratio) -> (r: Ratio)
        requires
            -MAX_THREES <= ratio.threes <= MAX_THREES,
        ensures
            r.threes == ratio.threes,
            r.twos == first_octave_twos(ratio.threes as int),
            r.in_first_octave(),
            -128 < r.twos < 128,
    {
        if ratio.threes >= 0 {
            let p = three_power(ratio.threes as u32);
            proof {
                lemma_three_pow_monotone(0, ratio.threes as nat);
            }
            let mut pw: u128 = 1;
            let mut k: i64 = 0;
            while pw <= p / 2
                invariant
                    p == three_pow(ratio.threes as nat),
                    0 <= k < 128,
                    pw == two_pow(k as nat),
                    1 <= pw <= p,
                decreases p - pw,
            {
                pw = pw * 2;
                k = k + 1;
                proof {
                    lemma_two_pow_exponent_bound(k as nat);
                }
            }
            proof {
                lemma_log2_floor_bracket(p as nat, k as nat);
                assert(ratio.threes >= 0);
                let r = Ratio { threes: ratio.threes, twos: (-k) as i64 };
                assert(two_pow(0) == 1 && three_pow(0) == 1);
                assert(r.numerator() == three_pow(ratio.threes as nat) * 1);
                assert(r.numerator() == p);
                assert(r.denominator() == pw);
            }
            Ratio { threes: ratio.threes, twos: -k }
        } else {
            let p = three_power((-ratio.threes) as u32);
            proof {
                lemma_three_pow_monotone(1, (-ratio.threes) as nat);
                lemma_three_pow_80();
                lemma_three_pow_monotone((-ratio.threes) as nat, 80);
            }
            let mut pw: u128 = 1;
            let mut k: i64 = 0;
            while pw < p
                invariant
                    p == three_pow((-ratio.threes) as nat),
                    3 <= p <= 147808829414345923316083210206383297601,
                    0 <= k < 128,
                    pw == two_pow(k as nat),
                    1 <= pw < 2 * p,
                    k > 0 ==> two_pow((k - 1) as nat) < p,
                decreases 2 * p - pw,
            {
                pw = pw * 2;
                k = k + 1;
                proof {
                    lemma_two_pow_exponent_bound(k as nat);
                }
            }
            proof {
                lemma_log2_floor_bracket((p - 1) as nat, (k - 1) as nat);
                let r = Ratio { threes: ratio.threes, twos: k };
                assert(two_pow(0) == 1 && three_pow(0) == 1);
                assert(r.numerator() == 1 * two_pow(k as nat));
                assert(r.denominator() == three_pow((-ratio.threes) as nat) * 1);
                assert(r.numerator() == pw);
                assert(r.denominator() == p);
            }
            Ratio { threes: ratio.threes, twos: k }
        }
    }
}

impl Temperament for PythagoreanTemperament {
    closed spec fn spec_tone_count(&self) -> int {
        self.tone_count as int
    }

    closed spec fn spec_origin(&self) -> int {
        self.octave_note_zero as int
    }

    closed spec fn well_formed(&self) -> bool {
        &&& 2 <= self.tone_count <= MAX_PYTHAGOREAN_TONES
        &&& self.root.tone as int == tone_of(
            self.tone_count as int,
            self.octave_note_zero as int,
            self.root.note as int,
        )
        &&& self.root.octave as int == octave_of(
            self.tone_count as int,
            self.octave_note_zero as int,
            self.root.note as int,
        )
    }

    fn tone_count(&self) -> (r: usize) {
        self.tone_count as usize
    }

    fn note(&self, oct: Octave, tone: Tone) -> (r: Note) {
        let oct_mul = oct as i128 * self.tone_count as i128;
        (oct_mul + tone as i128 + self.octave_note_zero as i128) as Note
    }

    fn octave(&self, note: Note) -> (r: Octave) {
        let (q, _) = floor_div_mod(note as i128 - self.octave_note_zero as i128, self.tone_count);
        q as Octave
    }

    fn tone(&self, note: Note) -> (r: Tone) {
        let (_, t) = floor_div_mod(note as i128 - self.octave_note_zero as i128, self.tone_count);
        t
    }
}

/// Moving the root keeps the frequency of the new root and of every octave of it; where
/// the new root is an octave of the old one, it keeps the frequency of every note.
///
/// Other notes may change: the fifths of a Pythagorean tuning are counted from the root.
pub proof fn lemma_move_root_keeps_frequency(
    temperament: PythagoreanTemperament,
    new_root: Note,
    note: Note,
)
    requires
        temperament.well_formed(),
        temperament.frequency_in_range(new_root as int),
        (note - new_root) % temperament.spec_tone_count() == 0 || (new_root
            - temperament.spec_root().note) % temperament.spec_tone_count() == 0,
    ensures
        temperament.moved_root(new_root as int).frequency_threes(note as int)
            == temperament.frequency_threes(note as int),
        temperament.moved_root(new_root as int).frequency_twos(note as int)
            == temperament.frequency_twos(note as int),
{
    let t = temperament;
    let m = t.moved_root(new_root as int);
    let n = t.tone_count as int;
    let o = t.octave_note_zero as int;
    let r = t.root.note as int;
    let x = note as int;
    let y = new_root as int;
    lemma_tone_exponent_bounds(n, t.root.tone as int, tone_of(n, o, y));
    lemma_unison(n, tone_of(n, o, y));
    vstd::arithmetic::div_mod::lemma_mod_bound(y - o, n);
    assert(m.root.tone as int == tone_of(n, o, y));
    if (x - y) % n == 0 {
        let k = (x - y) / n;
        vstd::arithmetic::div_mod::lemma_fundamental_div_mod(x - y, n);
        assert(x - y == k * n) by (nonlinear_arith)
            requires
                x - y == n * ((x - y) / n) + (x - y) % n,
                (x - y) % n == 0,
                k == (x - y) / n,
        ;
        lemma_shift_by_octaves(y - o, k, n);
        lemma_shift_by_octaves(y - r, k, n);
        lemma_shift_by_octaves(0, k, n);
        assert(tone_of(n, o, x) == tone_of(n, o, y));
    } else {
        let k = (y - r) / n;
        vstd::arithmetic::div_mod::lemma_fundamental_div_mod(y - r, n);
        assert(y - r == k * n) by (nonlinear_arith)
            requires
                y - r == n * ((y - r) / n) + (y - r) % n,
                (y - r) % n == 0,
                k == (y - r) / n,
        ;
        lemma_shift_by_octaves(r - o, k, n);
        lemma_shift_by_octaves(x - y, k, n);
        lemma_shift_by_octaves(0, k, n);
        assert(tone_of(n, o, y) == tone_of(n, o, r));
        lemma_unison(n, t.root.tone as int);
    }
}

} // verus!

use vstd::prelude::*;
use vstd::arithmetic::div_mod::{
    lemma_fundamental_div_mod, lemma_fundamental_div_mod_converse, lemma_mod_bound,
    lemma_mul_mod_noop_left,
};

use crate::pitch::Tone;
use crate::temperament::Temperament;

verus! {

/// The step of the perfect circle over `n` tones.
pub open spec fn circle_step_spec(n: int) -> int {
    n / 2 + (4 - (n - 2) % 4) / 4 + 1
}

/// The tone reached after `i` steps of size `step` around `n` tones.
pub open spec fn circle_tone(step: int, n: int, i: int) -> int {
    (i * step) % n
}

/// Some step of one period around `n` tones lands on tone `t`.
pub open spec fn circle_reaches(step: int, n: int, t: int) -> bool {
    exists|i: int| 0 <= i < n && #[trigger] circle_tone(step, n, i) == t
}

/// Calculates the step size of an octave of `i` tones. Stepping by it visits every tone of
/// the octave exactly once, however many tones there are; with twelve tones it is the
/// seven-semitone fifth.
pub fn circle_step(i: usize) -> (r: usize)
    requires
        i >= 2,
    ensures
        r == circle_step_spec(i as int),
{
    // checked, so that a caller outside verified code with `i < 2` stops here rather than
    // getting a wrapped value
    let below = i.checked_sub(2).unwrap();
    (i / 2) + (4 - (below % 4)) / 4 + 1
}

/// A multiplicative inverse of the perfect step modulo `n`.
proof fn lemma_perfect_step_inverse(n: int) -> (inv: int)
    requires
        n >= 2,
    ensures
        0 <= inv,
        (circle_step_spec(n) * inv) % n == 1,
{
    let s = circle_step_spec(n);
    let m = n / 4;
    let r = n % 4;
    lemma_fundamental_div_mod(n, 4);
    lemma_fundamental_div_mod(n, 2);
    if r == 1 || r == 3 {
        // n = 2k + 1 and s = k + 1, so 2s = n + 1
        assert((n - 2) % 4 == 1 || (n - 2) % 4 == 3);
        assert(s == n / 2 + 1);
        assert(s * 2 == 1 * n + 1);
        lemma_fundamental_div_mod_converse(s * 2, n, 1, 1);
        2
    } else if r == 0 {
        // n = 4m and s = 2m + 1, so s * s = (m + 1) n + 1
        assert((n - 2) % 4 == 2);
        assert(s == 2 * m + 1);
        assert(s * s == (m + 1) * n + 1) by (nonlinear_arith)
            requires
                s == 2 * m + 1,
                n == 4 * m,
        ;
        lemma_fundamental_div_mod_converse(s * s, n, m + 1, 1);
        s
    } else {
        // n = 4m + 2 and s = 2m + 3
        assert((n - 2) % 4 == 0);
        assert(s == 2 * m + 3);
        let j = m / 2;
        lemma_fundamental_div_mod(m, 2);
        if m % 2 == 0 {
            let inv = m + 1;
            assert(s * inv == (j + 1) * n + 1) by (nonlinear_arith)
                requires
                    s == 2 * m + 3,
                    n == 4 * m + 2,
                    m == 2 * j,
                    inv == m + 1,
            ;
            lemma_fundamental_div_mod_converse(s * inv, n, j + 1, 1);
            inv
        } else {
            let inv = 3 * m + 2;
            assert(s * inv == (3 * j + 4) * n + 1) by (nonlinear_arith)
                requires
                    s == 2 * m + 3,
                    n == 4 * m + 2,
                    m == 2 * j + 1,
                    inv == 3 * m + 2,
            ;
            lemma_fundamental_div_mod_converse(s * inv, n, 3 * j + 4, 1);
            inv
        }
    }
}

/// Multiplying by the step and then by its inverse gives back any value modulo `n`.
proof fn lemma_undo_step(n: int, s: int, inv: int, x: int)
    requires
        n >= 2,
        (s * inv) % n == 1,
    ensures
        (((x * s) % n) * inv) % n == x % n,
{
    lemma_mul_mod_noop_left(x * s, inv, n);
    assert(x * s * inv == x * (s * inv)) by (nonlinear_arith);
    let q = (s * inv) / n;
    lemma_fundamental_div_mod(s * inv, n);
    assert(x * (s * inv) == (x * q) * n + x) by (nonlinear_arith)
        requires
            s * inv == n * q + 1,
    ;
    lemma_fundamental_div_mod(x, n);
    lemma_mod_bound(x, n);
    assert((x * q) * n + x == (x * q + x / n) * n + x % n) by (nonlinear_arith)
        requires
            x == n * (x / n) + x % n,
    ;
    lemma_fundamental_div_mod_converse(x * (s * inv), n, x * q + x / n, x % n);
}

/// Stepping around `n` tones by the perfect step reaches every tone in `[0, n)` within
/// one period, and no two steps of that period land on the same tone.
pub proof fn lemma_perfect_circle_visits_each_tone_once(n: int)
    requires
        n >= 2,
    ensures
        forall|t: int| 0 <= t < n ==> #[trigger] circle_reaches(circle_step_spec(n), n, t),
        forall|i: int, j: int|
            0 <= i < n && 0 <= j < n && #[trigger] circle_tone(circle_step_spec(n), n, i)
                == #[trigger] circle_tone(circle_step_spec(n), n, j) ==> i == j,
{
    let s = circle_step_spec(n);
    let inv = lemma_perfect_step_inverse(n);
    lemma_fundamental_div_mod_converse(1, n, 0, 1);
    assert((inv * s) % n == 1) by (nonlinear_arith)
        requires
            (s * inv) % n == 1,
    ;
    assert forall|t: int| 0 <= t < n implies #[trigger] circle_reaches(s, n, t) by {
        let i = (t * inv) % n;
        lemma_mod_bound(t * inv, n);
        lemma_undo_step(n, inv, s, t);
        lemma_fundamental_div_mod_converse(t, n, 0, t);
        assert(circle_tone(s, n, i) == t);
    }
    assert forall|i: int, j: int|
        0 <= i < n && 0 <= j < n && #[trigger] circle_tone(s, n, i)
            == #[trigger] circle_tone(s, n, j) implies i == j by {
        lemma_undo_step(n, s, inv, i);
        lemma_undo_step(n, s, inv, j);
        lemma_fundamental_div_mod_converse(i, n, 0, i);
        lemma_fundamental_div_mod_converse(j, n, 0, j);
    }
}

/// A [`Circle`] walks a tone system by a fixed interval. This is usually the circle of
/// fifths over twelve tones, but any tone count and any interval can be walked.
///
/// Walking yields the tones `(i * interval) % tone_count` for `i = 0, 1, ...`, and stops one
/// step short of the full period: `tone_count - 1` tones, then `None`, after which the walk
/// starts over.
#[derive(Debug, Clone)]
pub struct Circle {
    interval: usize,
    tone_count: usize,
    i: usize,
}

impl Circle {
    /// The interval walked by.
    pub closed spec fn spec_interval(self) -> int {
        self.interval as int
    }

    /// The number of tones walked around.
    pub closed spec fn spec_tone_count(self) -> int {
        self.tone_count as int
    }

    /// How many steps of the current walk have been taken.
    pub closed spec fn spec_cursor(self) -> int {
        self.i as int
    }

    /// The tone count fits a [`Tone`], and the walk is inside its period.
    pub closed spec fn well_formed(self) -> bool {
        2 <= self.tone_count <= 256 && self.interval <= 255 && self.i < self.tone_count
    }

    /// The tone at step `i` of the walk.
    pub open spec fn tone_at(self, i: int) -> int {
        circle_tone(self.spec_interval(), self.spec_tone_count(), i)
    }

    /// Builds a new [`Circle`] that steps by the given interval. An interval that shares a
    /// factor with the tone count misses some tones; [`Circle::new`] never does.
    pub fn new_raw(interval: Tone, tone_count: usize) -> (r: Self)
        requires
            2 <= tone_count <= 256,
        ensures
            r.well_formed(),
            r.spec_interval() == interval as int,
            r.spec_tone_count() == tone_count as int,
            r.spec_cursor() == 0,
    {
        Self { interval: interval as usize, tone_count, i: 0 }
    }

    /// A [`Circle`] that visits every one of the given number of tones exactly once.
    pub fn new(tone_count: usize) -> (r: Self)
        requires
            2 <= tone_count <= 256,
        ensures
            r.well_formed(),
            r.spec_interval() == circle_step_spec(tone_count as int),
            r.spec_tone_count() == tone_count as int,
            r.spec_cursor() == 0,
    {
        let step = circle_step(tone_count);
        Self::new_raw(step as Tone, tone_count)
    }

    /// The classic circle of fifths.
    pub fn circle_of_fifths() -> (r: Self)
        ensures
            r.well_formed(),
            r.spec_interval() == 7,
            r.spec_tone_count() == 12,
            r.spec_cursor() == 0,
    {
        Self::new_raw(7, 12)
    }

    /// A [`Circle`] that visits every tone of the given [`Temperament`] exactly once.
    pub fn from_temperament<T: Temperament>(temperament: &T) -> (r: Self)
        requires
            temperament.well_formed(),
        ensures
            r.well_formed(),
            r.spec_interval() == circle_step_spec(temperament.spec_tone_count()),
            r.spec_tone_count() == temperament.spec_tone_count(),
            r.spec_cursor() == 0,
    {
        Self::new(temperament.tone_count())
    }

    /// The number of tones walked around.
    pub fn tone_count(&self) -> (r: usize)
        ensures
            r == self.spec_tone_count(),
    {
        self.tone_count
    }

    /// The next tone of the walk, or `None` once `tone_count - 1` tones have been given;
    /// the walk then starts over.
    pub fn next(&mut self) -> (r: Option<Tone>)
        requires
            old(self).well_formed(),
        ensures
            final(self).well_formed(),
            final(self).spec_interval() == old(self).spec_interval(),
            final(self).spec_tone_count() == old(self).spec_tone_count(),
            old(self).spec_cursor() + 1 < old(self).spec_tone_count() ==> {
                &&& r == Some(old(self).tone_at(old(self).spec_cursor()) as Tone)
                &&& final(self).spec_cursor() == old(self).spec_cursor() + 1
            },
            old(self).spec_cursor() + 1 >= old(self).spec_tone_count() ==> {
                &&& r is None
                &&& final(self).spec_cursor() == 0
            },
    {
        assert(self.i * self.interval <= 255 * 255) by (nonlinear_arith)
            requires
                self.i < 256,
                self.interval <= 255,
        ;
        let t = (self.i * self.interval) % self.tone_count;
        self.i = self.i + 1;
        if self.i < self.tone_count {
            Some(t as Tone)
        } else {
            self.i = 0;
            None
        }
    }

    /// The first step of a walk from the start at which `tone` comes, or `None` where the
    /// walk never reaches it (only possible when the interval shares a factor with the tone
    /// count). Leaves this circle's own walk untouched.
    pub fn index(&self, tone: Tone) -> (r: Option<usize>)
        requires
            self.well_formed(),
        ensures
            match r {
                Some(i) => {
                    &&& i < self.spec_tone_count()
                    &&& self.tone_at(i as int) == tone as int
                    &&& forall|j: int| 0 <= j < i ==> self.tone_at(j) != tone as int
                },
                None => forall|j: int|
                    0 <= j < self.spec_tone_count() ==> self.tone_at(j) != tone as int,
            },
    {
        let mut i: usize = 0;
        while i < self.tone_count
            invariant
                self.well_formed(),
                i <= self.tone_count,
                forall|j: int| 0 <= j < i ==> self.tone_at(j) != tone as int,
            decreases self.tone_count - i,
        {
            assert(i * self.interval <= 255 * 255) by (nonlinear_arith)
                requires
                    i < 256,
                    self.interval <= 255,
            ;
            if (i * self.interval) % self.tone_count == tone as usize {
                return Some(i);
            }
            i = i + 1;
        }
        None
    }
}

} // verus!

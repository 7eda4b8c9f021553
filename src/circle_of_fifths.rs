use vstd::prelude::*;

verus! {

/// The tone `i` fifths from `start`, in an octave of `n` tones where a fifth is `fifth`
/// tones.
pub open spec fn fifths_tone(n: int, start: int, fifth: int, i: int) -> int {
    (start + i * fifth) % n
}

/// Tonal octave space: the tones of an octave walked by fifths from a starting tone, where
/// a fifth is five tones short of the octave.
///
/// Walking gives the starting tone, then each tone a fifth further, until the walk comes
/// back to the starting tone.
#[derive(Clone, Copy, PartialEq, Eq, Debug)]
pub struct CircleOfFifths {
    tone_count: usize,
    tone: usize,
    starting_tone: usize,
    sent_root: bool,
}

impl CircleOfFifths {
    pub closed spec fn spec_tone_count(self) -> int {
        self.tone_count as int
    }

    /// The tone the walk is at.
    pub closed spec fn spec_tone(self) -> int {
        self.tone as int
    }

    pub closed spec fn spec_starting_tone(self) -> int {
        self.starting_tone as int
    }

    /// The walk has given its starting tone.
    pub closed spec fn spec_sent_root(self) -> bool {
        self.sent_root
    }

    /// The size of a fifth.
    pub open spec fn spec_fifth(self) -> int {
        self.spec_tone_count() - 5
    }

    /// The tone `i` fifths from the starting tone.
    pub open spec fn tone_at(self, i: int) -> int {
        fifths_tone(self.spec_tone_count(), self.spec_starting_tone(), self.spec_fifth(), i)
    }

    /// A fifth fits the octave, and the walk stays inside it.
    pub closed spec fn well_formed(self) -> bool {
        &&& 5 <= self.tone_count
        &&& self.starting_tone < self.tone_count
        &&& self.tone < self.tone_count
    }

    /// A walk around `tone_count` tones from `starting_tone`.
    pub fn new(tone_count: usize, starting_tone: usize) -> (r: Self)
        requires
            5 <= tone_count,
            starting_tone < tone_count,
        ensures
            r.well_formed(),
            r.spec_tone_count() == tone_count,
            r.spec_starting_tone() == starting_tone,
            r.spec_tone() == starting_tone,
            !r.spec_sent_root(),
    {
        Self { tone_count, starting_tone, tone: starting_tone, sent_root: false }
    }

    /// The size of a fifth: five tones short of the octave.
    pub fn fifth(&self) -> (r: usize)
        requires
            self.well_formed(),
        ensures
            r == self.spec_fifth(),
    {
        self.tone_count - 5
    }

    pub fn tone_count(&self) -> (r: usize)
        ensures
            r == self.spec_tone_count(),
    {
        self.tone_count
    }

    /// The tone `index` fifths from the starting tone.
    pub fn tone(&self, index: usize) -> (r: usize)
        requires
            self.well_formed(),
        ensures
            r == self.tone_at(index as int),
    {
        let fifth = self.fifth() as u128;
        assert(index as u128 * fifth <= 0xffff_ffff_ffff_ffff * 0xffff_ffff_ffff_ffff)
            by (nonlinear_arith)
            requires
                index <= 0xffff_ffff_ffff_ffff,
                fifth <= 0xffff_ffff_ffff_ffff,
        ;
        let t = (self.starting_tone as u128 + index as u128 * fifth) % self.tone_count as u128;
        t as usize
    }

    /// The number of fifths from the starting tone to `tone` (taken within the octave),
    /// counted the shortest way up.
    pub fn index(&self, tone: usize) -> (r: usize)
        requires
            self.well_formed(),
            exists|k: int|
                0 <= k < self.spec_tone_count() && #[trigger] self.tone_at(k) == tone as int
                    % self.spec_tone_count(),
        ensures
            r < self.spec_tone_count(),
            self.tone_at(r as int) == tone as int % self.spec_tone_count(),
            forall|j: int|
                0 <= j < r ==> #[trigger] self.tone_at(j) != tone as int % self.spec_tone_count(),
    {
        let m = tone % self.tone_count;
        let mut i: usize = 0;
        while i < self.tone_count
            invariant
                self.well_formed(),
                i <= self.tone_count,
                m == tone as int % self.spec_tone_count(),
                forall|j: int| 0 <= j < i ==> #[trigger] self.tone_at(j) != m,
            decreases self.tone_count - i,
        {
            if self.tone(i) == m {
                return i;
            }
            i = i + 1;
        }
        proof {
            let k = choose|k: int|
                0 <= k < self.spec_tone_count() && #[trigger] self.tone_at(k) == tone as int
                    % self.spec_tone_count();
            assert(self.tone_at(k) != m);
        }
        0
    }

    /// The next tone of the walk: the starting tone first, then each tone a fifth further,
    /// and `None` on coming back to the starting tone.
    pub fn next(&mut self) -> (r: Option<usize>)
        requires
            old(self).well_formed(),
        ensures
            final(self).well_formed(),
            final(self).spec_tone_count() == old(self).spec_tone_count(),
            final(self).spec_starting_tone() == old(self).spec_starting_tone(),
            final(self).spec_sent_root(),
            !old(self).spec_sent_root() ==> {
                &&& final(self).spec_tone() == old(self).spec_tone()
                &&& r == Some(old(self).spec_tone() as usize)
            },
            old(self).spec_sent_root() ==> {
                &&& final(self).spec_tone() == (old(self).spec_tone() + old(self).spec_fifth())
                    % old(self).spec_tone_count()
                &&& final(self).spec_tone() != final(self).spec_starting_tone() ==> r == Some(
                    final(self).spec_tone() as usize,
                )
                &&& final(self).spec_tone() == final(self).spec_starting_tone() ==> r is None
            },
    {
        if !self.sent_root {
            self.sent_root = true;
            return Some(self.tone);
        }
        let fifth = self.fifth();
        self.tone = ((self.tone as u128 + fifth as u128) % self.tone_count as u128) as usize;
        if self.tone != self.starting_tone {
            return Some(self.tone);
        }
        None
    }
}

} // verus!

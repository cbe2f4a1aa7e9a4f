//! Running minimum and maximum of the populations over a run.
use vstd::prelude::*;

verus! {

/// Population extremes seen so far, and the current chronon.
#[derive(Clone, Copy, Debug, PartialEq, Eq, Structural)]
pub struct Stats {
    pub chronon: usize,
    pub min_fish: usize,
    pub max_fish: usize,
    pub min_shark: usize,
    pub max_shark: usize,
}

pub open spec fn min_of(a: usize, b: usize) -> usize {
    if b < a { b } else { a }
}

pub open spec fn max_of(a: usize, b: usize) -> usize {
    if b > a { b } else { a }
}

impl Stats {
    /// Chronon 1, with nothing seen yet: minima at the largest value, maxima at 0.
    pub fn new() -> (r: Stats)
        ensures
            r.chronon == 1,
            r.min_fish == usize::MAX,
            r.max_fish == 0,
            r.min_shark == usize::MAX,
            r.max_shark == 0,
    {
        Stats { chronon: 1, min_fish: usize::MAX, max_fish: 0, min_shark: usize::MAX, max_shark: 0 }
    }

    /// Takes this chronon's counts into the extremes.
    pub fn record(&mut self, fish: usize, sharks: usize)
        ensures
            final(self).chronon == old(self).chronon,
            final(self).min_fish == min_of(old(self).min_fish, fish),
            final(self).max_fish == max_of(old(self).max_fish, fish),
            final(self).min_shark == min_of(old(self).min_shark, sharks),
            final(self).max_shark == max_of(old(self).max_shark, sharks),
    {
        if fish > self.max_fish {
            self.max_fish = fish;
        }
        if fish < self.min_fish {
            self.min_fish = fish;
        }
        if sharks > self.max_shark {
            self.max_shark = sharks;
        }
        if sharks < self.min_shark {
            self.min_shark = sharks;
        }
    }

    /// Moves on to the next chronon.
    pub fn next_chronon(&mut self)
        requires
            old(self).chronon < usize::MAX,
        ensures
            *final(self) == (Stats { chronon: (old(self).chronon + 1) as usize, ..*old(self) }),
    {
        self.chronon = self.chronon + 1;
    }
}

} // verus!

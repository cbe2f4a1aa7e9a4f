//! The simulation as a whole: a grid, its rules, the statistics of the run,
//! and whether it is still running.
use vstd::prelude::*;
use rand::rngs::ThreadRng;
use crate::cell::Cell;
use crate::rules::Config;
use crate::stats::{max_of, min_of, Stats};
use crate::topology::is_rectangle;
use crate::world::{chronon, empty_count, fish_count, initialize, is_seed, shark_count, step, GridError};

verus! {

/// Where a run stands.
#[derive(Clone, Copy, Debug, PartialEq, Eq, Structural)]
pub enum Phase {
    Running,
    /// The last shark has died: the run is over.
    AllSharksDead,
}

/// A run of the automaton.
pub struct Simulation {
    pub cfg: Config,
    pub world: Vec<Cell>,
    pub width: usize,
    pub height: usize,
    pub stats: Stats,
    pub phase: Phase,
    /// The numbers of fish and of sharks after the last chronon, if one ran.
    pub last_counts: Option<(usize, usize)>,
}

impl Simulation {
    /// The grid is `width` by `height`.
    pub open spec fn wf(&self) -> bool {
        &&& self.world@.len() == self.width * self.height
        &&& is_rectangle(self.world@.len() as int, self.width as int)
    }

    /// A running simulation on a freshly seeded `width` by `height` grid, at
    /// chronon 1 with no statistics yet.
    pub fn new(
        rng: &mut ThreadRng,
        cfg: Config,
        width: usize,
        height: usize,
    ) -> (r: Result<Simulation, GridError>)
        ensures
            (width == 0 || height == 0) <==> r matches Err(GridError::EmptyDimension),
            (width > 0 && height > 0 && width * height > usize::MAX) <==> r matches Err(GridError::TooLarge),
            r matches Ok(sim) ==> {
                &&& sim.wf()
                &&& sim.cfg == cfg
                &&& sim.width == width
                &&& sim.height == height
                &&& sim.phase == Phase::Running
                &&& sim.last_counts is None
                &&& sim.stats == (Stats {
                    chronon: 1,
                    min_fish: usize::MAX,
                    max_fish: 0,
                    min_shark: usize::MAX,
                    max_shark: 0,
                })
                &&& forall|k: int| 0 <= k < sim.world@.len() ==> is_seed(#[trigger] sim.world@[k])
            },
    {
        match initialize(rng, width, height) {
            Ok(world) => Ok(Simulation {
                cfg,
                world,
                width,
                height,
                stats: Stats::new(),
                phase: Phase::Running,
                last_counts: None,
            }),
            Err(e) => Err(e),
        }
    }

    /// Runs one chronon: moves on to the next chronon number unless this is
    /// the first, advances the grid, records the new counts, and ends the run
    /// when no shark is left. Returns the numbers of fish and of sharks.
    pub fn advance(&mut self, rng: &mut ThreadRng) -> (r: (usize, usize))
        requires
            old(self).wf(),
            old(self).phase == Phase::Running,
            old(self).stats.chronon < usize::MAX,
        ensures
            final(self).wf(),
            final(self).cfg == old(self).cfg,
            final(self).width == old(self).width,
            final(self).height == old(self).height,
            chronon(old(self).cfg, old(self).world@, old(self).width as int, final(self).world@),
            r.0 == fish_count(final(self).world@),
            r.1 == shark_count(final(self).world@),
            r.0 + r.1 + empty_count(final(self).world@) == final(self).world@.len(),
            final(self).last_counts == Some(r),
            final(self).stats.chronon == if old(self).last_counts is Some {
                old(self).stats.chronon + 1
            } else {
                old(self).stats.chronon as int
            },
            final(self).stats.min_fish == min_of(old(self).stats.min_fish, r.0),
            final(self).stats.max_fish == max_of(old(self).stats.max_fish, r.0),
            final(self).stats.min_shark == min_of(old(self).stats.min_shark, r.1),
            final(self).stats.max_shark == max_of(old(self).stats.max_shark, r.1),
            final(self).phase == (if r.1 == 0 { Phase::AllSharksDead } else { Phase::Running }),
    {
        if self.last_counts.is_some() {
            self.stats.next_chronon();
        }
        let counts = step(rng, self.cfg, &mut self.world, self.width);
        self.stats.record(counts.0, counts.1);
        self.last_counts = Some(counts);
        if counts.1 == 0 {
            self.phase = Phase::AllSharksDead;
        }
        counts
    }
}

} // verus!

//! The three shapes a grid slot can take, and the counters an occupant carries.
use vstd::prelude::*;

verus! {

/// The standard breeding interval of fish, in chronons.
pub const FISH_BREED_INTERVAL: u8 = 10;

/// The standard breeding interval of sharks, in chronons.
pub const SHARK_BREED_INTERVAL: u8 = 14;

/// The standard number of chronons a shark survives without eating.
pub const SHARK_STARVE_INTERVAL: u8 = 8;

/// Sharks older than this many chronons are drawn differently.
pub const OLD_SHARK_AGE: usize = 50;

/// Counters of a fish.
#[derive(Clone, Copy, Debug, PartialEq, Eq, Structural)]
pub struct FishAttr {
    pub lived_chronons: usize,
    pub since_reproduced: u8,
}

/// Counters of a shark.
#[derive(Clone, Copy, Debug, PartialEq, Eq, Structural)]
pub struct SharkAttr {
    pub lived_chronons: usize,
    pub since_reproduced: u8,
    pub since_ate: u8,
}

/// One slot of the grid.
#[derive(Clone, Copy, Debug, PartialEq, Eq, Structural)]
pub enum Cell {
    Empty,
    Fish(FishAttr),
    Shark(SharkAttr),
}

/// The counters of a fish that was just born.
pub open spec fn newborn_fish() -> FishAttr {
    FishAttr { lived_chronons: 0, since_reproduced: 0 }
}

/// The counters of a shark that was just born.
pub open spec fn newborn_shark() -> SharkAttr {
    SharkAttr { lived_chronons: 0, since_reproduced: 0, since_ate: 0 }
}

impl FishAttr {
    /// A fish that was just born: all counters at zero.
    pub fn newborn() -> (r: FishAttr)
        ensures
            r == newborn_fish(),
    {
        FishAttr { lived_chronons: 0, since_reproduced: 0 }
    }
}

impl SharkAttr {
    /// A shark that was just born: all counters at zero.
    pub fn newborn() -> (r: SharkAttr)
        ensures
            r == newborn_shark(),
    {
        SharkAttr { lived_chronons: 0, since_reproduced: 0, since_ate: 0 }
    }
}

impl Cell {
    pub fn is_empty(&self) -> (r: bool)
        ensures
            r == (*self is Empty),
    {
        matches!(self, Cell::Empty)
    }

    pub fn is_fish(&self) -> (r: bool)
        ensures
            r == (*self is Fish),
    {
        matches!(self, Cell::Fish(_))
    }

    pub fn is_shark(&self) -> (r: bool)
        ensures
            r == (*self is Shark),
    {
        matches!(self, Cell::Shark(_))
    }

    /// A shark that has lived more than `OLD_SHARK_AGE` chronons.
    pub fn is_old_shark(&self) -> (r: bool)
        ensures
            r == (*self matches Cell::Shark(a) && a.lived_chronons > OLD_SHARK_AGE),
    {
        match self {
            Cell::Shark(a) => a.lived_chronons > OLD_SHARK_AGE,
            _ => false,
        }
    }
}

} // verus!

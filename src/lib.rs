//! A Wa-Tor predator-prey automaton: fish and sharks on a rectangular grid,
//! advanced one chronon at a time.
//!
//! `topology` finds the neighbours of a slot, `cell` holds what a slot can
//! contain, `rules` says what one occupant does in a chronon, `world` runs a
//! whole chronon over the grid and counts the populations, `stats` keeps
//! the running extremes of those counts, and `driver` runs the simulation
//! until the last shark is gone.

pub mod cell;
pub mod driver;
pub mod rules;
pub mod stats;
pub mod topology;
pub mod world;

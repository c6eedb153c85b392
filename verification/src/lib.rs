//! A verified generalized Monty Hall simulation.
//!
//! The game has `doors` numbered doors (at least 3); one hides the prize.
//! The contestant picks a door, the host opens `opened` other doors that
//! hide neither the prize nor the contestant's pick, and the contestant
//! may then switch to another unopened door.  The library draws doors
//! uniformly under exclusion sets, runs trials, tallies the outcomes of
//! the stay and switch strategies, and computes the exact win
//! probabilities as rational numbers for comparison.

pub mod config;
pub mod exact;
pub mod rng;
pub mod simulate;
pub mod selector;
pub mod rational;
pub mod trial;

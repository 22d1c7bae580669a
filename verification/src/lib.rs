//! Simulation core of a terminal "glyph rain" animation.
//!
//! The library keeps a set of falling glyph trails, advances them on
//! discrete ticks, rebuilds a grid snapshot each tick, and reports the
//! minimal set of cell changes between consecutive snapshots.  All timing
//! is injected by the caller as millisecond timestamps, so the simulation
//! itself is deterministic up to the random draws it makes.

pub mod cell;
pub mod diff;
pub mod engine;
mod rng;
pub mod trail;
pub mod viewport;

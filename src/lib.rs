//! Side-by-side comparison of two traffic-simulation worlds: lockstep
//! stepping, swapping the active world, per-trip and all-trip differences,
//! and checkpoints of the paired state.

pub mod geo;
pub mod world;
pub mod diff;
pub mod session;
pub mod checkpoint;
pub mod control;


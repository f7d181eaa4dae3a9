//! A particle pool with a uniform-grid broad phase for a 2D Verlet solver.
//!
//! The verified part holds the index bookkeeping of the solver: the spatial
//! hash that files particle indices into grid cells, the enumeration of the
//! candidate pairs that the collision phase visits, the particle pool with
//! its insert, restart and retain operations, the order of the phases of
//! one update, when a line spawner emits particles, and the frame counters of
//! a run that restarts periodically. The geometry itself, in floating point,
//! is left to the caller.
mod cells;
pub mod partition;
pub mod boundary;
pub mod solver;
pub mod spawn;
pub mod cycle;

pub use boundary::BoundaryType;
pub use partition::SpatialHash;
pub use solver::{ColorMode, DetectMode, Phase, Solver};
pub use spawn::SpawnSchedule;
pub use cycle::RunClock;

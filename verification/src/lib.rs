//! Conway's Game of Life on a fixed-size square grid, with forward stepping,
//! bounded backward stepping (undo), and full-state randomization.
//!
//! The crate has three layers:
//! - [`rng`]: a small deterministic pseudo-random generator, so that
//!   randomized boards are reproducible from a seed;
//! - [`grid`]: one instantaneous board state, with bounds-checked accessors,
//!   Moore-neighborhood counting, and the synchronous transition rule;
//! - [`engine`]: the time-evolution of a grid, keeping a bounded FIFO ring of
//!   past snapshots so that steps can be undone.

pub mod engine;
pub mod error;
pub mod grid;

pub mod rng;

//! Deterministic tick engine for a fixed-point Earth-system model.
//!
//! The engine advances a grid of regions one tick at a time. All state is
//! bounded integers; every function that writes it states the bounds it
//! keeps. What a kernel computes in floating point reaches the engine as
//! samples that are already rounded, so that for equal samples the engine's
//! output is equal, value for value.

pub mod cause;
pub mod diff;
pub mod error;
pub mod fixed;
pub mod io;
pub mod kernels;
pub mod merge_apply;
pub mod reduce;
pub mod rng;
pub mod schedule;
pub mod sparse;
pub mod text;
pub mod tick;
pub mod world;

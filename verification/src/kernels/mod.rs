//! The kernels of a tick.
//!
//! A kernel reads the world and produces a diff. Whatever a kernel needs
//! that is not integer arithmetic reaches it as a sample: a value that the
//! caller has already rounded to the fixed-point unit in which it is stored.

pub mod astronomy;
pub mod atmosphere;
pub mod climate;
pub mod climate_diag;
pub mod coupler;
pub mod cryosphere;
pub mod ecology;
pub mod geodynamics;

//! What enters and leaves the engine: the initial world, frames, and the
//! layout of records.

pub mod frame;
pub mod record;
pub mod seed;

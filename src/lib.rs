//! Uniform sampling of a fixed number of items from a stream of unknown length,
//! by reservoir sampling with geometric skips.

pub mod input;
pub mod reservoir;
pub mod rng;

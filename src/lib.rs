//! A row-major grid whose every cell can be recomputed from its position,
//! on the calling thread or split into contiguous chunks across a pool of
//! workers, with the same result either way.

pub mod layout;
pub mod seed;
pub mod grid;
mod pool;

pub use grid::{chunk_len, fill_chunk, Grid, GridError};
pub use seed::SeedSequence;

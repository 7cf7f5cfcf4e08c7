//! An interning cache: assigns dense, sequential `u32` ids to unique strings and
//! looks them up in both directions.
pub mod cache;
pub mod dense;
pub mod laws;
pub mod model;

pub use cache::{DecodeError, IdCache};

//! A HyperLogLog sketch: an estimate of the number of distinct elements of a
//! stream in `2^p` one-byte registers, with union by merging and a serialized
//! form that records which hash family and element type built it.
use vstd::prelude::*;

pub mod error;
pub mod estimator;
mod hashing;
pub mod laws;
pub mod sketch;
pub mod tobytes;
pub mod tolebytes;
pub mod wide;

pub use error::HyperLogLogError;
pub use sketch::{HyperLogLog, HyperLogLogSerializable};
pub use tobytes::ToBytes;
pub use tolebytes::ToLeBytes;

verus! {

} // verus!

//! Integer and byte-level core of a fractal-flame generator: the sample
//! record codec, weighted transform selection, walker lifetimes, frame
//! tallies, variation names and the batching rules of the generation
//! pipeline.

pub mod codec;
pub mod coloring;
pub mod error;
pub mod frame;
pub mod pipeline;
pub mod system;
pub mod variations;

pub use coloring::{Distance, Noop};
pub use error::Error;
pub use variations::Linear;

//! A dense six-axis sample array for microscopy image stacks (time, position,
//! z-depth, channel, height, width), with bounds-checked frame access, a
//! sampler-driven generator and a split metadata/payload persistence codec.
//!
//! Samples are single-precision floats stored as their IEEE-754 bit patterns
//! (`u32`); calibration values are double-precision floats stored the same way
//! (`u64`). All contracts speak of those bit patterns, so every statement about
//! stored data is exact.

pub mod dims;
pub mod error;
pub mod grid;
pub mod array6d;
pub mod generate;
pub mod codec;
pub mod loader;

pub use dims::Dimensions;
pub use error::{ArrayError, FrameAxis};
pub use array6d::{Array6D, ArrayModel};
pub use generate::ArrayGenerator;
pub use codec::{
    ArrayMetadata, decode_array, decode_samples, encode_payload, encode_samples, estimate_file_size,
    validate_parts,
};
pub use loader::MicroscopyMetadata;

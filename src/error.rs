use vstd::prelude::*;

verus! {

/// The four axes that select a frame.
#[derive(Debug, Clone, Copy, PartialEq, Eq, Structural)]
pub enum FrameAxis {
    Time,
    Position,
    Z,
    Channel,
}

/// Every failure the library reports.
#[derive(Debug, Clone, Copy, PartialEq, Eq, Structural)]
pub enum ArrayError {
    /// One of the six extents is zero.
    Dimension,
    /// The estimated memory (four bytes per sample, in MiB, rounded down)
    /// exceeds the ceiling; `memory_mb` saturates at `usize::MAX`.
    Capacity { memory_mb: usize },
    /// The buffer does not have the shape that the dimensions describe.
    ShapeMismatch,
    /// The number of channel names differs from the channel extent.
    ChannelCount { names: usize, channels: usize },
    /// A frame index is not below the extent of its axis.
    IndexOutOfBounds { axis: FrameAxis, index: usize, extent: usize },
    /// A frame to be written does not have shape (height, width).
    FrameShapeMismatch { height: usize, width: usize },
    /// The number of channel patterns differs from the channel extent.
    ChannelPatternCount { patterns: usize, channels: usize },
    /// The payload does not hold four bytes for every sample.
    SizeMismatch { expected: u64, actual: u64 },
}

} // verus!

//! The summary of a stored array that a viewer shows.
use vstd::prelude::*;
use crate::array6d::Array6D;
use crate::codec::{ArrayMetadata, clone_names};
use crate::dims::{Dimensions, reported_mib};

verus! {

/// Shape, calibration and names of an array, where it is stored, and the
/// memory its samples need in whole MiB.
pub struct MicroscopyMetadata {
    pub file_path: String,
    pub dimensions: Dimensions,
    /// Bit pattern of the pixel size in micrometers (an `f64`).
    pub pixel_size_um: u64,
    /// Bit pattern of the time interval in seconds (an `f64`).
    pub time_interval_s: u64,
    pub channel_names: Vec<String>,
    pub data_type: String,
    pub memory_usage_mb: usize,
}

impl MicroscopyMetadata {
    /// The summary of a container in memory, with an empty path.
    pub fn from(array: &Array6D) -> (r: MicroscopyMetadata)
        ensures
            r.file_path@ == Seq::<char>::empty(),
            r.dimensions == array@.dims,
            r.pixel_size_um == array@.pixel_size,
            r.time_interval_s == array@.time_interval,
            r.channel_names@ == array@.channel_names,
            r.data_type@ == array@.data_type,
            r.memory_usage_mb == reported_mib(array@.dims),
    {
        let dimensions = *array.dimensions();
        MicroscopyMetadata {
            file_path: String::new(),
            dimensions,
            pixel_size_um: array.pixel_size_um(),
            time_interval_s: array.time_interval_s(),
            channel_names: clone_names(array.channel_names()),
            data_type: array.data_type().to_owned(),
            memory_usage_mb: dimensions.memory_mb(),
        }
    }

    /// The summary of a stored array from its metadata record and its path.
    pub fn from_metadata(file_path: String, metadata: ArrayMetadata) -> (r: MicroscopyMetadata)
        ensures
            r.file_path == file_path,
            r.dimensions == metadata.dimensions,
            r.pixel_size_um == metadata.pixel_size_um,
            r.time_interval_s == metadata.time_interval_s,
            r.channel_names == metadata.channel_names,
            r.data_type == metadata.data_type,
            r.memory_usage_mb == reported_mib(metadata.dimensions),
    {
        let memory_usage_mb = metadata.dimensions.memory_mb();
        MicroscopyMetadata {
            file_path,
            dimensions: metadata.dimensions,
            pixel_size_um: metadata.pixel_size_um,
            time_interval_s: metadata.time_interval_s,
            channel_names: metadata.channel_names,
            data_type: metadata.data_type,
            memory_usage_mb,
        }
    }
}

} // verus!

//! Filling a container from a per-sample source.
use vstd::prelude::*;
use vstd::arithmetic::div_mod::lemma_fundamental_div_mod_converse;
use crate::array6d::{Array6D, new_result};
use crate::dims::{Dimensions, flat_index, frame_in_bounds, total, validation};
use crate::error::ArrayError;

verus! {

/// The coordinates (t, p, z, c, y, x) of position `i` of the row-major buffer.
pub open spec fn sample_at(d: Dimensions, i: int) -> (usize, usize, usize, usize, usize, usize) {
    let r1 = i / (d.width as int);
    let r2 = r1 / (d.height as int);
    let r3 = r2 / (d.channel as int);
    let r4 = r3 / (d.z as int);
    (
        (r4 / (d.position as int)) as usize,
        (r4 % (d.position as int)) as usize,
        (r3 % (d.z as int)) as usize,
        (r2 % (d.channel as int)) as usize,
        (r1 % (d.height as int)) as usize,
        (i % (d.width as int)) as usize,
    )
}

/// Reading the coordinates back from a buffer position gives the
/// coordinates that the position was made from.
pub proof fn lemma_sample_at_flat(d: Dimensions, t: int, p: int, z: int, c: int, y: int, x: int)
    requires
        frame_in_bounds(d, t, p, z, c),
        0 <= y < d.height,
        0 <= x < d.width,
    ensures
        sample_at(d, flat_index(d, t, p, z, c, y, x)) == (t as usize, p as usize, z as usize, c as usize, y as usize, x as usize),
{
    let w = d.width as int;
    let h = d.height as int;
    let i = flat_index(d, t, p, z, c, y, x);
    let r4 = t * d.position + p;
    let r3 = r4 * d.z + z;
    let r2 = r3 * d.channel + c;
    let r1 = r2 * h + y;
    assert(i == r1 * w + x) by (nonlinear_arith)
        requires
            i == r2 * (h * w) + y * w + x,
            r1 == r2 * h + y,
    ;
    lemma_fundamental_div_mod_converse(i, w, r1, x);
    lemma_fundamental_div_mod_converse(r1, h, r2, y);
    lemma_fundamental_div_mod_converse(r2, d.channel as int, r3, c);
    lemma_fundamental_div_mod_converse(r3, d.z as int, r4, z);
    lemma_fundamental_div_mod_converse(r4, d.position as int, t, p);
}

/// The outcome of the checks that precede generation.
pub open spec fn generate_check(d: Dimensions, patterns: nat) -> Result<(), ArrayError> {
    match validation(d) {
        Err(e) => Err(e),
        Ok(_) => if patterns != d.channel {
            Err(ArrayError::ChannelPatternCount { patterns: patterns as usize, channels: d.channel })
        } else {
            Ok(())
        },
    }
}

/// Builds synthetic arrays.
pub struct ArrayGenerator;

impl ArrayGenerator {
    /// Builds a container of shape `dimensions`, one channel per name, whose
    /// sample at (t, p, z, c, y, x) is `sample(t, p, z, c, y, x)`. Fails where
    /// the shape is not valid or the number of names is not the channel
    /// extent.
    pub fn generate<F: Fn(usize, usize, usize, usize, usize, usize) -> u32>(
        dimensions: Dimensions,
        channel_names: Vec<String>,
        pixel_size_um: u64,
        time_interval_s: u64,
        data_type: String,
        sample: F,
    ) -> (r: Result<Array6D, ArrayError>)
        requires
            forall|t: usize, p: usize, z: usize, c: usize, y: usize, x: usize|
                sample.requires((t, p, z, c, y, x)),
        ensures
            r is Ok <==> generate_check(dimensions, channel_names@.len()) is Ok,
            r matches Err(e) ==> generate_check(dimensions, channel_names@.len()) == Err::<(), ArrayError>(e),
            r matches Ok(a) ==> {
                &&& a@.dims == dimensions
                &&& a@.pixel_size == pixel_size_um
                &&& a@.time_interval == time_interval_s
                &&& a@.channel_names == channel_names@
                &&& a@.data_type == data_type@
                &&& a@.samples.len() == total(dimensions)
                &&& forall|t: int, p: int, z: int, c: int, y: int, x: int|
                    frame_in_bounds(dimensions, t, p, z, c) && 0 <= y < dimensions.height && 0 <= x
                        < dimensions.width ==> sample.ensures(
                        (t as usize, p as usize, z as usize, c as usize, y as usize, x as usize),
                        #[trigger] a@.samples[flat_index(dimensions, t, p, z, c, y, x)],
                    )
            },
    {
        match dimensions.validate() {
            Err(e) => {
                return Err(e);
            },
            Ok(_) => {},
        }
        if channel_names.len() != dimensions.channel {
            return Err(ArrayError::ChannelPatternCount { patterns: channel_names.len(), channels: dimensions.channel });
        }
        let d = dimensions;
        let n = d.total_elements();
        let mut buffer: Vec<u32> = Vec::with_capacity(n);
        let mut i: usize = 0;
        while i < n
            invariant
                n == total(d),
                0 <= i <= n,
                buffer@.len() == i,
                d.time >= 1 && d.position >= 1 && d.z >= 1 && d.channel >= 1 && d.height >= 1 && d.width >= 1,
                forall|j: int| 0 <= j < i ==> sample.ensures(sample_at(d, j), #[trigger] buffer@[j]),
                forall|t: usize, p: usize, z: usize, c: usize, y: usize, x: usize|
                    sample.requires((t, p, z, c, y, x)),
            decreases n - i,
        {
            let x = i % d.width;
            let r1 = i / d.width;
            let y = r1 % d.height;
            let r2 = r1 / d.height;
            let c = r2 % d.channel;
            let r3 = r2 / d.channel;
            let z = r3 % d.z;
            let r4 = r3 / d.z;
            let p = r4 % d.position;
            let t = r4 / d.position;
            assert(sample_at(d, i as int) == (t, p, z, c, y, x));
            let v = sample(t, p, z, c, y, x);
            buffer.push(v);
            i += 1;
        }
        let ghost samples = buffer@;
        let r = Array6D::new(buffer, d, pixel_size_um, time_interval_s, channel_names, data_type);
        proof {
            assert(new_result(samples, d, pixel_size_um, time_interval_s, channel_names@, data_type@) is Ok);
            assert forall|t: int, p: int, z: int, c: int, y: int, x: int|
                frame_in_bounds(d, t, p, z, c) && 0 <= y < d.height && 0 <= x < d.width implies sample.ensures(
                (t as usize, p as usize, z as usize, c as usize, y as usize, x as usize),
                #[trigger] samples[flat_index(d, t, p, z, c, y, x)],
            ) by {
                crate::dims::lemma_frame_bounds(d, t, p, z, c);
                crate::dims::lemma_sample_in_frame(d, t, p, z, c, y, x);
                lemma_sample_at_flat(d, t, p, z, c, y, x);
            };
        }
        r
    }
}

} // verus!

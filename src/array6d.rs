//! The six-axis sample container.
use vstd::prelude::*;
use crate::dims::{
    Dimensions, SAMPLE_BYTES, flat_index, frame_in_bounds, frame_index, frame_len, frame_start, is_valid,
    lemma_frame_bounds, shape_seq, total, validation,
};
use crate::error::{ArrayError, FrameAxis};
use crate::grid::{
    SampleGrid, at_least_one, flat6, grid_as_slice, grid_extents, grid_from_vec, grid_samples, grid_set,
    grid_shape, grid_standard, grid_zeros, index_in_bounds6, nonzero_product6, product6,
};
use vstd::slice::slice_subrange;

verus! {

/// What a container holds, as mathematical values.
pub struct ArrayModel {
    pub dims: Dimensions,
    /// Bit pattern of the pixel size in micrometers (an `f64`).
    pub pixel_size: u64,
    /// Bit pattern of the time interval in seconds (an `f64`).
    pub time_interval: u64,
    pub channel_names: Seq<String>,
    pub data_type: Seq<char>,
    /// Bit patterns of the samples (each an `f32`), row-major in
    /// time, position, z, channel, height, width.
    pub samples: Seq<u32>,
}

/// Whether the non-zero extents of `d` multiply to at most `isize::MAX`,
/// which the outside array type needs of every shape.
pub open spec fn shape_fits(d: Dimensions) -> bool {
    nonzero_product6(shape_seq(d)) <= isize::MAX
}

impl ArrayModel {
    pub open spec fn wf(self) -> bool {
        &&& self.samples.len() == total(self.dims)
        &&& total(self.dims) * 4 <= isize::MAX
        &&& shape_fits(self.dims)
        &&& self.channel_names.len() == self.dims.channel
    }

    /// Memory taken by the samples, in bytes.
    pub open spec fn memory(self) -> int {
        total(self.dims) * 4
    }

    /// The samples of frame (t, p, z, c).
    pub open spec fn frame(self, t: int, p: int, z: int, c: int) -> Seq<u32> {
        let start = frame_start(self.dims, t, p, z, c);
        self.samples.subrange(start, start + frame_len(self.dims))
    }
}

/// What `Array6D::new` returns, as mathematical values.
pub open spec fn new_result(
    samples: Seq<u32>,
    dims: Dimensions,
    pixel_size: u64,
    time_interval: u64,
    channel_names: Seq<String>,
    data_type: Seq<char>,
) -> Result<ArrayModel, ArrayError> {
    if samples.len() != total(dims) || !shape_fits(dims) {
        Err(ArrayError::ShapeMismatch)
    } else if channel_names.len() != dims.channel {
        Err(ArrayError::ChannelCount { names: channel_names.len() as usize, channels: dims.channel })
    } else {
        Ok(ArrayModel { dims, pixel_size, time_interval, channel_names, data_type, samples })
    }
}

/// What `Array6D::zeros` returns, as mathematical values.
pub open spec fn zeros_result(
    dims: Dimensions,
    pixel_size: u64,
    time_interval: u64,
    channel_names: Seq<String>,
    data_type: Seq<char>,
) -> Result<ArrayModel, ArrayError> {
    match validation(dims) {
        Err(e) => Err(e),
        Ok(_) => new_result(
            Seq::new(total(dims) as nat, |i: int| 0u32),
            dims,
            pixel_size,
            time_interval,
            channel_names,
            data_type,
        ),
    }
}

/// The outcome of the bounds check on a frame index.
pub open spec fn frame_check(d: Dimensions, t: usize, p: usize, z: usize, c: usize) -> Result<(), ArrayError> {
    if t >= d.time {
        Err(ArrayError::IndexOutOfBounds { axis: FrameAxis::Time, index: t, extent: d.time })
    } else if p >= d.position {
        Err(ArrayError::IndexOutOfBounds { axis: FrameAxis::Position, index: p, extent: d.position })
    } else if z >= d.z {
        Err(ArrayError::IndexOutOfBounds { axis: FrameAxis::Z, index: z, extent: d.z })
    } else if c >= d.channel {
        Err(ArrayError::IndexOutOfBounds { axis: FrameAxis::Channel, index: c, extent: d.channel })
    } else {
        Ok(())
    }
}

/// The outcome of the checks on a frame write.
pub open spec fn set_frame_check(
    d: Dimensions,
    t: usize,
    p: usize,
    z: usize,
    c: usize,
    frame_shape: (usize, usize),
    frame_len_given: nat,
) -> Result<(), ArrayError> {
    if frame_shape.0 != d.height || frame_shape.1 != d.width || frame_len_given != d.height * d.width {
        Err(ArrayError::FrameShapeMismatch { height: d.height, width: d.width })
    } else {
        frame_check(d, t, p, z, c)
    }
}

/// Sample `k` of frame (t, p, z, c) sits at row `k / width`, column
/// `k % width`, which is position `frame_start + k` of the buffer.
proof fn lemma_set_position(d: Dimensions, t: int, p: int, z: int, c: int, k: int)
    requires
        frame_in_bounds(d, t, p, z, c),
        0 <= k < d.height * d.width,
    ensures
        d.width > 0,
        index_in_bounds6(shape_seq(d), seq![t as usize, p as usize, z as usize, c as usize, (k / d.width as int) as usize, (k % d.width as int) as usize]),
        flat6(shape_seq(d), seq![t as usize, p as usize, z as usize, c as usize, (k / d.width as int) as usize, (k % d.width as int) as usize])
            == frame_start(d, t, p, z, c) + k,
{
    let w = d.width as int;
    let h = d.height as int;
    assert(w > 0) by (nonlinear_arith)
        requires
            0 <= k < h * w,
            h >= 0,
            w >= 0,
    ;
    let y = k / w;
    let x = k % w;
    vstd::arithmetic::div_mod::lemma_fundamental_div_mod(k, w);
    assert(0 <= x < w);
    assert(0 <= y < h) by (nonlinear_arith)
        requires
            k == w * y + x,
            0 <= x < w,
            0 <= k < h * w,
            w > 0,
    ;
    let f = frame_index(d, t, p, z, c);
    let s = shape_seq(d);
    let i = seq![t as usize, p as usize, z as usize, c as usize, y as usize, x as usize];
    assert(flat6(s, i) == (f * h + y) * w + x);
    assert((f * h + y) * w + x == f * (h * w) + k) by (nonlinear_arith)
        requires
            k == w * y + x,
    ;
}

/// `samples` with the run starting at `start` replaced by `frame`.
pub open spec fn with_frame(samples: Seq<u32>, start: int, frame: Seq<u32>) -> Seq<u32> {
    samples.subrange(0, start) + frame + samples.subrange(start + frame.len(), samples.len() as int)
}

/// Whether a constructor's outcome is the one that `m` describes.
pub open spec fn same_outcome(r: Result<Array6D, ArrayError>, m: Result<ArrayModel, ArrayError>) -> bool {
    match r {
        Ok(a) => m == Ok::<ArrayModel, ArrayError>(a@),
        Err(e) => m == Err::<ArrayModel, ArrayError>(e),
    }
}

/// A six-axis array of samples with its calibration and channel names.
pub struct Array6D {
    data: SampleGrid,
    dimensions: Dimensions,
    pixel_size_um: u64,
    time_interval_s: u64,
    channel_names: Vec<String>,
    data_type: String,
}

impl View for Array6D {
    type V = ArrayModel;

    closed spec fn view(&self) -> ArrayModel {
        ArrayModel {
            dims: self.dimensions,
            pixel_size: self.pixel_size_um,
            time_interval: self.time_interval_s,
            channel_names: self.channel_names@,
            data_type: self.data_type@,
            samples: grid_samples(self.data),
        }
    }
}

proof fn lemma_product_below_nonzero(s: Seq<usize>)
    requires
        s.len() == 6,
    ensures
        0 <= product6(s) <= nonzero_product6(s),
{
    let a = at_least_one(s[0]);
    let b = at_least_one(s[1]);
    let c = at_least_one(s[2]);
    let d = at_least_one(s[3]);
    let e = at_least_one(s[4]);
    let f = at_least_one(s[5]);
    assert(0 <= s[0] <= a && 0 <= s[1] <= b && 0 <= s[2] <= c && 0 <= s[3] <= d && 0 <= s[4] <= e
        && 0 <= s[5] <= f);
    assert(0 <= product6(s) <= nonzero_product6(s)) by (nonlinear_arith)
        requires
            0 <= s[0] <= a,
            0 <= s[1] <= b,
            0 <= s[2] <= c,
            0 <= s[3] <= d,
            0 <= s[4] <= e,
            0 <= s[5] <= f,
            product6(s) == s[0] * s[1] * s[2] * s[3] * s[4] * s[5],
            nonzero_product6(s) == a * b * c * d * e * f,
    ;
}

impl Array6D {
    #[verifier::type_invariant]
    closed spec fn inv(&self) -> bool {
        &&& grid_extents(self.data) == shape_seq(self.dimensions)
        &&& grid_standard(self.data)
        &&& self@.wf()
    }

    /// Takes a grid of the right extents and checks the channel names.
    fn from_grid(
        data: SampleGrid,
        dimensions: Dimensions,
        pixel_size_um: u64,
        time_interval_s: u64,
        channel_names: Vec<String>,
        data_type: String,
    ) -> (r: Result<Self, ArrayError>)
        requires
            grid_standard(data),
            grid_extents(data) == shape_seq(dimensions),
        ensures
            same_outcome(
                r,
                new_result(grid_samples(data), dimensions, pixel_size_um, time_interval_s, channel_names@, data_type@),
            ),
    {
        // The extents themselves are known; the call brings what ndarray
        // guarantees of every array's size.
        let extents = grid_shape(&data);
        proof {
            assert(extents@ == shape_seq(dimensions));
            lemma_product_below_nonzero(extents@);
        }
        if channel_names.len() != dimensions.channel {
            return Err(ArrayError::ChannelCount { names: channel_names.len(), channels: dimensions.channel });
        }
        Ok(Array6D { data, dimensions, pixel_size_um, time_interval_s, channel_names, data_type })
    }

    /// Builds a container that takes ownership of `buffer`, whose samples are
    /// laid out row-major in time, position, z, channel, height, width.
    /// Fails where the buffer's length is not the product of the extents, or
    /// the number of channel names is not the channel extent.
    pub fn new(
        buffer: Vec<u32>,
        dimensions: Dimensions,
        pixel_size_um: u64,
        time_interval_s: u64,
        channel_names: Vec<String>,
        data_type: String,
    ) -> (r: Result<Self, ArrayError>)
        ensures
            same_outcome(
                r,
                new_result(buffer@, dimensions, pixel_size_um, time_interval_s, channel_names@, data_type@),
            ),
    {
        let ghost samples = buffer@;
        let data = match grid_from_vec(dimensions.shape(), buffer) {
            Ok(g) => g,
            Err(_) => {
                return Err(ArrayError::ShapeMismatch);
            },
        };
        Self::from_grid(data, dimensions, pixel_size_um, time_interval_s, channel_names, data_type)
    }

    /// Builds a zero-filled container after validating the shape.
    pub fn zeros(
        dimensions: Dimensions,
        pixel_size_um: u64,
        time_interval_s: u64,
        channel_names: Vec<String>,
        data_type: String,
    ) -> (r: Result<Self, ArrayError>)
        ensures
            same_outcome(r, zeros_result(dimensions, pixel_size_um, time_interval_s, channel_names@, data_type@)),
    {
        match dimensions.validate() {
            Err(e) => {
                return Err(e);
            },
            Ok(_) => {},
        }
        proof {
            assert(nonzero_product6(shape_seq(dimensions)) == total(dimensions));
        }
        let data = grid_zeros(dimensions.shape());
        proof {
            assert(product6(shape_seq(dimensions)) == total(dimensions));
        }
        Self::from_grid(data, dimensions, pixel_size_um, time_interval_s, channel_names, data_type)
    }

    pub fn dimensions(&self) -> (r: &Dimensions)
        ensures
            *r == self@.dims,
            self@.wf(),
    {
        proof {
            use_type_invariant(self);
        }
        &self.dimensions
    }

    /// Bit pattern of the pixel size in micrometers.
    pub fn pixel_size_um(&self) -> (r: u64)
        ensures
            r == self@.pixel_size,
    {
        self.pixel_size_um
    }

    /// Bit pattern of the time interval in seconds.
    pub fn time_interval_s(&self) -> (r: u64)
        ensures
            r == self@.time_interval,
    {
        self.time_interval_s
    }

    pub fn channel_names(&self) -> (r: &[String])
        ensures
            r@ == self@.channel_names,
    {
        self.channel_names.as_slice()
    }

    pub fn data_type(&self) -> (r: &str)
        ensures
            r@ == self@.data_type,
    {
        self.data_type.as_str()
    }

    /// All samples, row-major, without copying.
    pub fn data(&self) -> (r: &[u32])
        ensures
            r@ == self@.samples,
            self@.wf(),
    {
        proof {
            use_type_invariant(self);
        }
        match grid_as_slice(&self.data) {
            Some(s) => s,
            None => {
                proof {
                    assert(false);
                }
                &[]
            },
        }
    }

    /// The frame (t, p, z, c): `height * width` samples, row-major, borrowed
    /// from the container's buffer. Fails on the first index, in axis order,
    /// that is not below its axis's extent.
    pub fn get_frame(&self, t: usize, p: usize, z: usize, c: usize) -> (r: Result<&[u32], ArrayError>)
        ensures
            r is Ok <==> frame_check(self@.dims, t, p, z, c) is Ok,
            r matches Err(e) ==> frame_check(self@.dims, t, p, z, c) == Err::<(), ArrayError>(e),
            r matches Ok(s) ==> s@ == self@.frame(t as int, p as int, z as int, c as int),
    {
        proof {
            use_type_invariant(self);
        }
        let d = self.dimensions;
        if t >= d.time {
            return Err(ArrayError::IndexOutOfBounds { axis: FrameAxis::Time, index: t, extent: d.time });
        }
        if p >= d.position {
            return Err(ArrayError::IndexOutOfBounds { axis: FrameAxis::Position, index: p, extent: d.position });
        }
        if z >= d.z {
            return Err(ArrayError::IndexOutOfBounds { axis: FrameAxis::Z, index: z, extent: d.z });
        }
        if c >= d.channel {
            return Err(ArrayError::IndexOutOfBounds { axis: FrameAxis::Channel, index: c, extent: d.channel });
        }
        proof {
            lemma_frame_bounds(d, t as int, p as int, z as int, c as int);
        }
        let len = d.height * d.width;
        let all = self.data();
        if len == 0 {
            return Ok(slice_subrange(all, 0, 0));
        }
        let start = (((t * d.position + p) * d.z + z) * d.channel + c) * len;
        Ok(slice_subrange(all, start, start + len))
    }

    /// Overwrites frame (t, p, z, c) with `frame`, a `frame_shape.0` by
    /// `frame_shape.1` run of samples, row-major. Fails, leaving the
    /// container unchanged, where that shape is not (height, width) or the
    /// run does not hold that many samples, and then as `get_frame` does.
    pub fn set_frame(
        &mut self,
        t: usize,
        p: usize,
        z: usize,
        c: usize,
        frame_shape: (usize, usize),
        frame: &[u32],
    ) -> (r: Result<(), ArrayError>)
        ensures
            r == set_frame_check(old(self)@.dims, t, p, z, c, frame_shape, frame@.len()),
            r is Err ==> final(self)@ == old(self)@,
            r is Ok ==> final(self)@ == (ArrayModel {
                samples: with_frame(
                    old(self)@.samples,
                    frame_start(old(self)@.dims, t as int, p as int, z as int, c as int),
                    frame@,
                ),
                ..old(self)@
            }),
    {
        proof {
            use_type_invariant(&*self);
        }
        let d = self.dimensions;
        let given_len = frame.len();
        let expected_len = match d.height.checked_mul(d.width) {
            Some(n) => n,
            None => {
                return Err(ArrayError::FrameShapeMismatch { height: d.height, width: d.width });
            },
        };
        if frame_shape.0 != d.height || frame_shape.1 != d.width || frame.len() != expected_len {
            return Err(ArrayError::FrameShapeMismatch { height: d.height, width: d.width });
        }
        if t >= d.time {
            return Err(ArrayError::IndexOutOfBounds { axis: FrameAxis::Time, index: t, extent: d.time });
        }
        if p >= d.position {
            return Err(ArrayError::IndexOutOfBounds { axis: FrameAxis::Position, index: p, extent: d.position });
        }
        if z >= d.z {
            return Err(ArrayError::IndexOutOfBounds { axis: FrameAxis::Z, index: z, extent: d.z });
        }
        if c >= d.channel {
            return Err(ArrayError::IndexOutOfBounds { axis: FrameAxis::Channel, index: c, extent: d.channel });
        }
        let ghost start = frame_start(d, t as int, p as int, z as int, c as int);
        let ghost before = grid_samples(self.data);
        let len = frame.len();
        proof {
            lemma_frame_bounds(d, t as int, p as int, z as int, c as int);
        }
        let w = d.width;
        let mut k: usize = 0;
        while k < len
            invariant
                0 <= k <= len,
                w == d.width,
                self.dimensions == old(self).dimensions,
                self.pixel_size_um == old(self).pixel_size_um,
                self.time_interval_s == old(self).time_interval_s,
                self.channel_names == old(self).channel_names,
                self.data_type == old(self).data_type,
                total(d) * 4 <= isize::MAX,
                shape_fits(d),
                self.channel_names@.len() == d.channel,
                len == frame@.len(),
                len == d.height * d.width,
                d == self.dimensions,
                frame_in_bounds(d, t as int, p as int, z as int, c as int),
                start == frame_start(d, t as int, p as int, z as int, c as int),
                0 <= start,
                start + len <= total(d),
                grid_extents(self.data) == shape_seq(d),
                grid_standard(self.data),
                grid_samples(self.data).len() == before.len(),
                before.len() == total(d),
                forall|j: int|
                    0 <= j < before.len() ==> #[trigger] grid_samples(self.data)[j] == if start <= j < start + k {
                        frame@[j - start]
                    } else {
                        before[j]
                    },
            decreases len - k,
        {
            proof {
                lemma_set_position(d, t as int, p as int, z as int, c as int, k as int);
            }
            let y = k / w;
            let x = k % w;
            let idx = [t, p, z, c, y, x];
            assert(idx@ =~= seq![t, p, z, c, y, x]);
            grid_set(&mut self.data, idx, frame[k]);
            k += 1;
        }
        proof {
            let after = grid_samples(self.data);
            assert(after =~= with_frame(before, start, frame@));
            assert(self@.samples == after);
        }
        Ok(())
    }

    /// Memory taken by the samples: four bytes each.
    pub fn memory_usage(&self) -> (r: usize)
        ensures
            r == self@.memory(),
            self@.wf(),
    {
        proof {
            use_type_invariant(self);
        }
        self.dimensions.total_elements() * SAMPLE_BYTES
    }
}

/// A zero-filled container of a valid shape takes four bytes per sample.
pub proof fn lemma_zeros_memory(
    dims: Dimensions,
    pixel_size: u64,
    time_interval: u64,
    channel_names: Seq<String>,
    data_type: Seq<char>,
)
    requires
        is_valid(dims),
        channel_names.len() == dims.channel,
    ensures
        zeros_result(dims, pixel_size, time_interval, channel_names, data_type) matches Ok(m)
            && m.memory() == total(dims) * 4 && m.wf(),
{
    assert(nonzero_product6(shape_seq(dims)) == total(dims));
}

/// A frame of a container built from a buffer is the buffer's slice at the
/// frame's row-major position: sample (y, x) of frame (t, p, z, c) is the
/// buffer's sample (t, p, z, c, y, x).
pub proof fn lemma_frame_of_buffer(
    buffer: Seq<u32>,
    dims: Dimensions,
    pixel_size: u64,
    time_interval: u64,
    channel_names: Seq<String>,
    data_type: Seq<char>,
    t: int,
    p: int,
    z: int,
    c: int,
)
    requires
        new_result(buffer, dims, pixel_size, time_interval, channel_names, data_type) is Ok,
        frame_in_bounds(dims, t, p, z, c),
    ensures
        new_result(buffer, dims, pixel_size, time_interval, channel_names, data_type) matches Ok(m) && {
            &&& m.samples == buffer
            &&& m.frame(t, p, z, c).len() == frame_len(dims)
            &&& forall|y: int, x: int|
                0 <= y < dims.height && 0 <= x < dims.width ==> #[trigger] m.frame(t, p, z, c)[y * dims.width
                    + x] == buffer[flat_index(dims, t, p, z, c, y, x)]
        },
{
    lemma_frame_bounds(dims, t, p, z, c);
    let m = ArrayModel { dims, pixel_size, time_interval, channel_names, data_type, samples: buffer };
    assert forall|y: int, x: int| 0 <= y < dims.height && 0 <= x < dims.width implies #[trigger] m.frame(
        t,
        p,
        z,
        c,
    )[y * dims.width + x] == buffer[flat_index(dims, t, p, z, c, y, x)] by {
        crate::dims::lemma_mixed_radix(y, dims.height as int, x, dims.width as int);
    };
}

/// An index equal to its axis's extent is refused on that axis, whatever
/// the other (valid) indices; on an axis of extent one, index zero is taken.
pub proof fn lemma_frame_boundary(d: Dimensions, t: usize, p: usize, z: usize, c: usize)
    requires
        frame_in_bounds(d, t as int, p as int, z as int, c as int),
    ensures
        frame_check(d, d.time, p, z, c) == Err::<(), ArrayError>(
            ArrayError::IndexOutOfBounds { axis: FrameAxis::Time, index: d.time, extent: d.time },
        ),
        frame_check(d, t, d.position, z, c) == Err::<(), ArrayError>(
            ArrayError::IndexOutOfBounds { axis: FrameAxis::Position, index: d.position, extent: d.position },
        ),
        frame_check(d, t, p, d.z, c) == Err::<(), ArrayError>(
            ArrayError::IndexOutOfBounds { axis: FrameAxis::Z, index: d.z, extent: d.z },
        ),
        frame_check(d, t, p, z, d.channel) == Err::<(), ArrayError>(
            ArrayError::IndexOutOfBounds { axis: FrameAxis::Channel, index: d.channel, extent: d.channel },
        ),
        d.time == 1 ==> frame_check(d, 0, p, z, c) is Ok,
        d.position == 1 ==> frame_check(d, t, 0, z, c) is Ok,
        d.z == 1 ==> frame_check(d, t, p, 0, c) is Ok,
        d.channel == 1 ==> frame_check(d, t, p, z, 0) is Ok,
{
}

} // verus!

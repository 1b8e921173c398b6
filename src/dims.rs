use vstd::prelude::*;
use crate::error::ArrayError;

verus! {

/// Bytes per stored sample.
pub const SAMPLE_BYTES: usize = 4;

/// Bytes in one MiB.
pub const MIB: usize = 1048576;

/// Largest estimated memory, in MiB, that a valid shape may need.
pub const MAX_MEMORY_MB: usize = 1024;

/// Shape of a six-axis array: time, position, z-depth, channel, height, width.
#[derive(Debug, Clone, Copy, PartialEq, Eq, Structural)]
pub struct Dimensions {
    pub time: usize,
    pub position: usize,
    pub z: usize,
    pub channel: usize,
    pub height: usize,
    pub width: usize,
}

/// Number of samples in an array of shape `d`.
pub open spec fn total(d: Dimensions) -> int {
    d.time * d.position * d.z * d.channel * d.height * d.width
}

/// Number of samples in one frame (height by width).
pub open spec fn frame_len(d: Dimensions) -> int {
    d.height * d.width
}

/// The six extents in axis order.
pub open spec fn shape_seq(d: Dimensions) -> Seq<usize> {
    seq![d.time, d.position, d.z, d.channel, d.height, d.width]
}

pub open spec fn all_positive(d: Dimensions) -> bool {
    d.time >= 1 && d.position >= 1 && d.z >= 1 && d.channel >= 1 && d.height >= 1 && d.width >= 1
}

/// Estimated memory in MiB, rounded down, saturating at `usize::MAX`.
pub open spec fn reported_mib(d: Dimensions) -> int {
    if total(d) * 4 <= usize::MAX {
        total(d) * 4 / (MIB as int)
    } else {
        usize::MAX as int
    }
}

/// What `validate` returns.
pub open spec fn validation(d: Dimensions) -> Result<(), ArrayError> {
    if !all_positive(d) {
        Err(ArrayError::Dimension)
    } else if reported_mib(d) > MAX_MEMORY_MB {
        Err(ArrayError::Capacity { memory_mb: reported_mib(d) as usize })
    } else {
        Ok(())
    }
}

pub open spec fn is_valid(d: Dimensions) -> bool {
    validation(d) is Ok
}

/// Index of the frame (t, p, z, c) among all frames, in row-major order.
pub open spec fn frame_index(d: Dimensions, t: int, p: int, z: int, c: int) -> int {
    ((t * d.position + p) * d.z + z) * d.channel + c
}

/// Position of the first sample of frame (t, p, z, c) in the flat buffer.
pub open spec fn frame_start(d: Dimensions, t: int, p: int, z: int, c: int) -> int {
    frame_index(d, t, p, z, c) * frame_len(d)
}

/// Position of sample (t, p, z, c, y, x) in the flat row-major buffer.
pub open spec fn flat_index(d: Dimensions, t: int, p: int, z: int, c: int, y: int, x: int) -> int {
    frame_start(d, t, p, z, c) + y * d.width + x
}

pub open spec fn frame_in_bounds(d: Dimensions, t: int, p: int, z: int, c: int) -> bool {
    0 <= t < d.time && 0 <= p < d.position && 0 <= z < d.z && 0 <= c < d.channel
}

/// A product does not shrink when the other factor is at least one.
proof fn lemma_mul_grows(a: int, b: int)
    requires
        a >= 0,
        b >= 1,
    ensures
        a * b >= a,
{
    assert(a * b >= a) by (nonlinear_arith)
        requires
            a >= 0,
            b >= 1,
    ;
}

/// If `i < n` and `j < m` then `i * m + j < n * m`.
pub proof fn lemma_mixed_radix(i: int, n: int, j: int, m: int)
    requires
        0 <= i < n,
        0 <= j < m,
    ensures
        0 <= i * m + j < n * m,
{
    assert(0 <= i * m + j < n * m) by (nonlinear_arith)
        requires
            0 <= i < n,
            0 <= j < m,
    ;
}

/// Every frame of a shape lies inside its buffer, and the partial sums of
/// its index stay below the matching partial products of the extents.
pub proof fn lemma_frame_bounds(d: Dimensions, t: int, p: int, z: int, c: int)
    requires
        frame_in_bounds(d, t, p, z, c),
    ensures
        0 <= t * d.position + p < d.time * d.position,
        0 <= (t * d.position + p) * d.z + z < d.time * d.position * d.z,
        0 <= frame_index(d, t, p, z, c) < d.time * d.position * d.z * d.channel,
        0 <= frame_start(d, t, p, z, c),
        frame_start(d, t, p, z, c) + frame_len(d) <= total(d),
        total(d) == (d.time * d.position * d.z * d.channel) * frame_len(d),
        frame_len(d) >= 1 ==> d.time * d.position * d.z * d.channel <= total(d),
        frame_len(d) <= total(d),
        d.time * d.position <= d.time * d.position * d.z <= d.time * d.position * d.z * d.channel,
{
    lemma_mul_grows(d.time * d.position, d.z as int);
    lemma_mul_grows(d.time * d.position * d.z, d.channel as int);
    lemma_mixed_radix(t, d.time as int, p, d.position as int);
    lemma_mixed_radix(t * d.position + p, d.time * d.position, z, d.z as int);
    lemma_mixed_radix((t * d.position + p) * d.z + z, d.time * d.position * d.z, c, d.channel as int);
    let f = frame_index(d, t, p, z, c);
    let nf = d.time * d.position * d.z * d.channel;
    let fl = frame_len(d);
    assert(fl >= 0) by (nonlinear_arith)
        requires
            fl == d.height * d.width,
    ;
    assert(0 <= f * fl && f * fl + fl <= nf * fl) by (nonlinear_arith)
        requires
            0 <= f < nf,
            fl >= 0,
    ;
    assert(total(d) == nf * fl) by (nonlinear_arith)
        requires
            nf == d.time * d.position * d.z * d.channel,
            fl == d.height * d.width,
            total(d) == d.time * d.position * d.z * d.channel * d.height * d.width,
    ;
    if fl >= 1 {
        lemma_mul_grows(nf, fl);
    }
    assert(nf >= 1) by (nonlinear_arith)
        requires
            0 <= f < nf,
    ;
    assert(fl <= nf * fl) by (nonlinear_arith)
        requires
            nf >= 1,
            fl >= 0,
    ;
}

/// A sample of a frame lies inside that frame.
pub proof fn lemma_sample_in_frame(d: Dimensions, t: int, p: int, z: int, c: int, y: int, x: int)
    requires
        0 <= y < d.height,
        0 <= x < d.width,
    ensures
        frame_start(d, t, p, z, c) <= flat_index(d, t, p, z, c, y, x) < frame_start(d, t, p, z, c)
            + frame_len(d),
{
    lemma_mixed_radix(y, d.height as int, x, d.width as int);
}

impl Dimensions {
    /// Builds a shape from its six extents; validity is checked by `validate`.
    pub fn new(time: usize, position: usize, z: usize, channel: usize, height: usize, width: usize) -> (r: Self)
        ensures
            r == (Dimensions { time, position, z, channel, height, width }),
    {
        Dimensions { time, position, z, channel, height, width }
    }

    /// Builds a shape with a single z-plane.
    pub fn new_2d(time: usize, position: usize, channel: usize, height: usize, width: usize) -> (r: Self)
        ensures
            r == (Dimensions { time, position, z: 1, channel, height, width }),
    {
        Self::new(time, position, 1, channel, height, width)
    }

    /// Number of samples: the product of the six extents.
    pub fn total_elements(&self) -> (r: usize)
        requires
            total(*self) <= usize::MAX,
        ensures
            r == total(*self),
    {
        let t = self.time;
        let p = self.position;
        let z = self.z;
        let c = self.channel;
        let h = self.height;
        let w = self.width;
        if t == 0 || p == 0 || z == 0 || c == 0 || h == 0 || w == 0 {
            assert(total(*self) == 0) by (nonlinear_arith)
                requires
                    t == 0 || p == 0 || z == 0 || c == 0 || h == 0 || w == 0,
                    total(*self) == t * p * z * c * h * w,
            ;
            return 0;
        }
        proof {
            self.lemma_partial_products_fit();
        }
        t * p * z * c * h * w
    }

    proof fn lemma_partial_products_fit(&self)
        requires
            all_positive(*self),
            total(*self) <= usize::MAX,
        ensures
            self.time * self.position <= usize::MAX,
            self.time * self.position * self.z <= usize::MAX,
            self.time * self.position * self.z * self.channel <= usize::MAX,
            self.time * self.position * self.z * self.channel * self.height <= usize::MAX,
    {
        let a = self.time * self.position;
        let b = a * self.z;
        let c = b * self.channel;
        let e = c * self.height;
        lemma_mul_grows(self.time as int, self.position as int);
        lemma_mul_grows(a, self.z as int);
        lemma_mul_grows(b, self.channel as int);
        lemma_mul_grows(c, self.height as int);
        lemma_mul_grows(e, self.width as int);
    }

    /// The product of the extents, or `None` where it exceeds `usize::MAX`.
    fn checked_total(&self) -> (r: Option<usize>)
        requires
            all_positive(*self),
        ensures
            r == (if total(*self) <= usize::MAX { Some(total(*self) as usize) } else { None::<usize> }),
    {
        let ghost a = self.time * self.position;
        let ghost b = a * self.z;
        let ghost c = b * self.channel;
        let ghost e = c * self.height;
        proof {
            lemma_mul_grows(self.time as int, self.position as int);
            lemma_mul_grows(a, self.z as int);
            lemma_mul_grows(b, self.channel as int);
            lemma_mul_grows(c, self.height as int);
            lemma_mul_grows(e, self.width as int);
        }
        let n1 = match self.time.checked_mul(self.position) {
            Some(v) => v,
            None => { return None; },
        };
        let n2 = match n1.checked_mul(self.z) {
            Some(v) => v,
            None => { return None; },
        };
        let n3 = match n2.checked_mul(self.channel) {
            Some(v) => v,
            None => { return None; },
        };
        let n4 = match n3.checked_mul(self.height) {
            Some(v) => v,
            None => { return None; },
        };
        n4.checked_mul(self.width)
    }

    /// Estimated memory of the samples, four bytes each, in whole MiB,
    /// saturating at `usize::MAX`.
    pub fn memory_mb(&self) -> (r: usize)
        ensures
            r == reported_mib(*self),
    {
        if self.time == 0 || self.position == 0 || self.z == 0 || self.channel == 0
            || self.height == 0 || self.width == 0 {
            assert(total(*self) == 0) by (nonlinear_arith)
                requires
                    self.time == 0 || self.position == 0 || self.z == 0 || self.channel == 0
                        || self.height == 0 || self.width == 0,
                    total(*self) == self.time * self.position * self.z * self.channel * self.height
                        * self.width,
            ;
            return 0;
        }
        match self.checked_total() {
            Some(n) => match n.checked_mul(SAMPLE_BYTES) {
                Some(bytes) => bytes / MIB,
                None => usize::MAX,
            },
            None => {
                proof {
                    lemma_mul_grows(total(*self), 4);
                }
                usize::MAX
            },
        }
    }

    /// Checks that every extent is positive and that the estimated memory,
    /// four bytes per sample in whole MiB, is within the ceiling.
    pub fn validate(&self) -> (r: Result<(), ArrayError>)
        ensures
            r == validation(*self),
    {
        if self.time == 0 || self.position == 0 || self.z == 0 || self.channel == 0
            || self.height == 0 || self.width == 0 {
            return Err(ArrayError::Dimension);
        }
        let memory_mb = self.memory_mb();
        if memory_mb > MAX_MEMORY_MB {
            return Err(ArrayError::Capacity { memory_mb });
        }
        Ok(())
    }

    /// The six extents in axis order.
    pub fn shape(&self) -> (r: [usize; 6])
        ensures
            r@ == shape_seq(*self),
    {
        [self.time, self.position, self.z, self.channel, self.height, self.width]
    }
}

} // verus!

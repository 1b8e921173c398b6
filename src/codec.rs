//! The split persistence format: a metadata record, and a payload of four
//! little-endian bytes per sample in row-major order, with no header.
use vstd::prelude::*;
use crate::array6d::{Array6D, ArrayModel, new_result, same_outcome};
use crate::dims::{Dimensions, total};
use crate::error::ArrayError;

verus! {

/// Byte `j` (0 is the least significant) of `v`.
pub open spec fn le_byte(v: u32, j: int) -> u8 {
    if j == 0 {
        (v & 0xff) as u8
    } else if j == 1 {
        ((v >> 8u32) & 0xff) as u8
    } else if j == 2 {
        ((v >> 16u32) & 0xff) as u8
    } else {
        ((v >> 24u32) & 0xff) as u8
    }
}

/// The word whose little-endian bytes are `b0`, `b1`, `b2`, `b3`.
pub open spec fn le_word(b0: u8, b1: u8, b2: u8, b3: u8) -> u32 {
    (b0 as u32) | ((b1 as u32) << 8u32) | ((b2 as u32) << 16u32) | ((b3 as u32) << 24u32)
}

/// Four little-endian bytes for each sample, in order.
pub open spec fn le_bytes(s: Seq<u32>) -> Seq<u8> {
    Seq::new(4 * s.len(), |k: int| le_byte(s[k / 4], k % 4))
}

/// One sample for each four bytes, read little-endian, in order.
pub open spec fn samples_from_le(b: Seq<u8>) -> Seq<u32> {
    Seq::new(b.len() / 4, |i: int| le_word(b[4 * i], b[4 * i + 1], b[4 * i + 2], b[4 * i + 3]))
}

proof fn lemma_word_of_bytes(v: u32)
    ensures
        le_word(le_byte(v, 0), le_byte(v, 1), le_byte(v, 2), le_byte(v, 3)) == v,
{
    assert(((v & 0xff) as u8) as u32 | (((((v >> 8u32) & 0xff) as u8) as u32) << 8u32) | (((((v
        >> 16u32) & 0xff) as u8) as u32) << 16u32) | (((((v >> 24u32) & 0xff) as u8) as u32) << 24u32)
        == v) by (bit_vector);
}

/// Reading the payload of a sequence of samples gives the samples back.
pub proof fn lemma_payload_round_trip(s: Seq<u32>)
    ensures
        samples_from_le(le_bytes(s)) == s,
{
    let b = le_bytes(s);
    assert forall|i: int| 0 <= i < s.len() implies #[trigger] samples_from_le(b)[i] == s[i] by {
        assert((4 * i) / 4 == i && (4 * i) % 4 == 0);
        assert((4 * i + 1) / 4 == i && (4 * i + 1) % 4 == 1);
        assert((4 * i + 2) / 4 == i && (4 * i + 2) % 4 == 2);
        assert((4 * i + 3) / 4 == i && (4 * i + 3) % 4 == 3);
        lemma_word_of_bytes(s[i]);
    };
    assert(samples_from_le(b) =~= s);
}

/// The payload of `samples`: four little-endian bytes each.
pub fn encode_samples(samples: &[u32]) -> (r: Vec<u8>)
    requires
        samples@.len() * 4 <= usize::MAX,
    ensures
        r@ == le_bytes(samples@),
{
    let n = samples.len();
    let mut out: Vec<u8> = Vec::with_capacity(n * 4);
    let mut i: usize = 0;
    while i < n
        invariant
            n == samples@.len(),
            n * 4 <= usize::MAX,
            0 <= i <= n,
            out@.len() == 4 * i,
            forall|k: int| 0 <= k < 4 * i ==> #[trigger] out@[k] == le_byte(samples@[k / 4], k % 4),
        decreases n - i,
    {
        let v = samples[i];
        out.push((v & 0xff) as u8);
        out.push(((v >> 8u32) & 0xff) as u8);
        out.push(((v >> 16u32) & 0xff) as u8);
        out.push(((v >> 24u32) & 0xff) as u8);
        proof {
            assert forall|k: int| 4 * i <= k < 4 * i + 4 implies #[trigger] out@[k] == le_byte(samples@[k / 4], k % 4) by {
                assert(k / 4 == i);
            };
        }
        i += 1;
    }
    assert(out@ =~= le_bytes(samples@));
    out
}

/// The samples of a payload: one for each four bytes, read little-endian.
pub fn decode_samples(bytes: &[u8]) -> (r: Vec<u32>)
    requires
        bytes@.len() % 4 == 0,
    ensures
        r@ == samples_from_le(bytes@),
{
    let n = bytes.len() / 4;
    let mut out: Vec<u32> = Vec::with_capacity(n);
    let mut i: usize = 0;
    while i < n
        invariant
            n == bytes@.len() / 4,
            bytes@.len() % 4 == 0,
            n * 4 == bytes@.len(),
            bytes@.len() <= usize::MAX,
            0 <= i <= n,
            out@.len() == i,
            forall|j: int| 0 <= j < i ==> #[trigger] out@[j] == samples_from_le(bytes@)[j],
        decreases n - i,
    {
        let k = 4 * i;
        let v = (bytes[k] as u32) | ((bytes[k + 1] as u32) << 8u32) | ((bytes[k + 2] as u32) << 16u32)
            | ((bytes[k + 3] as u32) << 24u32);
        out.push(v);
        i += 1;
    }
    assert(out@ =~= samples_from_le(bytes@));
    out
}

/// Rough size of the metadata record, in bytes, used in size estimates.
pub const METADATA_SIZE_ESTIMATE: usize = 1024;

/// The metadata record of a stored array: everything but the samples, with
/// a format version and a creation stamp.
pub struct ArrayMetadata {
    pub dimensions: Dimensions,
    /// Bit pattern of the pixel size in micrometers (an `f64`).
    pub pixel_size_um: u64,
    /// Bit pattern of the time interval in seconds (an `f64`).
    pub time_interval_s: u64,
    pub channel_names: Vec<String>,
    pub data_type: String,
    pub format_version: String,
    pub created_at: String,
}

/// A metadata record as mathematical values.
pub struct MetadataModel {
    pub dims: Dimensions,
    pub pixel_size: u64,
    pub time_interval: u64,
    pub channel_names: Seq<String>,
    pub data_type: Seq<char>,
    pub format_version: Seq<char>,
    pub created_at: Seq<char>,
}

impl View for ArrayMetadata {
    type V = MetadataModel;

    open spec fn view(&self) -> MetadataModel {
        MetadataModel {
            dims: self.dimensions,
            pixel_size: self.pixel_size_um,
            time_interval: self.time_interval_s,
            channel_names: self.channel_names@,
            data_type: self.data_type@,
            format_version: self.format_version@,
            created_at: self.created_at@,
        }
    }
}

/// The metadata record written for a container.
pub open spec fn metadata_of(m: ArrayModel) -> MetadataModel {
    MetadataModel {
        dims: m.dims,
        pixel_size: m.pixel_size,
        time_interval: m.time_interval,
        channel_names: m.channel_names,
        data_type: m.data_type,
        format_version: "1.0"@,
        created_at: "2024-01-01T00:00:00Z"@,
    }
}

/// Payload length, in bytes, that a shape calls for, saturating at `u64::MAX`.
pub open spec fn expected_payload(d: Dimensions) -> int {
    if total(d) * 4 <= u64::MAX { total(d) * 4 } else { u64::MAX as int }
}

/// The outcome of checking a payload length against a shape.
pub open spec fn payload_check(d: Dimensions, len: int) -> Result<(), ArrayError> {
    if len == total(d) * 4 {
        Ok(())
    } else {
        Err(ArrayError::SizeMismatch { expected: expected_payload(d) as u64, actual: len as u64 })
    }
}

/// What loading a metadata record and a payload gives, as mathematical values.
pub open spec fn decode_result(meta: MetadataModel, payload: Seq<u8>) -> Result<ArrayModel, ArrayError> {
    match payload_check(meta.dims, payload.len() as int) {
        Err(e) => Err(e),
        Ok(_) => new_result(
            samples_from_le(payload),
            meta.dims,
            meta.pixel_size,
            meta.time_interval,
            meta.channel_names,
            meta.data_type,
        ),
    }
}

/// The payload length that `d` calls for, or `None` where it exceeds `u64::MAX`.
fn payload_len(d: &Dimensions) -> (r: Option<u64>)
    ensures
        r == (if total(*d) * 4 <= u64::MAX { Some((total(*d) * 4) as u64) } else { None::<u64> }),
{
    if d.time == 0 || d.position == 0 || d.z == 0 || d.channel == 0 || d.height == 0 || d.width == 0 {
        assert(total(*d) == 0) by (nonlinear_arith)
            requires
                d.time == 0 || d.position == 0 || d.z == 0 || d.channel == 0 || d.height == 0
                    || d.width == 0,
                total(*d) == d.time * d.position * d.z * d.channel * d.height * d.width,
        ;
        return Some(0);
    }
    let ghost p1 = 4 * d.time;
    let ghost p2 = p1 * d.position;
    let ghost p3 = p2 * d.z;
    let ghost p4 = p3 * d.channel;
    let ghost p5 = p4 * d.height;
    let ghost p6 = p5 * d.width;
    proof {
        lemma_grows(p1, d.position as int);
        lemma_grows(p2, d.z as int);
        lemma_grows(p3, d.channel as int);
        lemma_grows(p4, d.height as int);
        lemma_grows(p5, d.width as int);
        assert(p6 == total(*d) * 4) by (nonlinear_arith)
            requires
                p6 == 4 * d.time * d.position * d.z * d.channel * d.height * d.width,
                total(*d) == d.time * d.position * d.z * d.channel * d.height * d.width,
        ;
    }
    let n1 = match 4u64.checked_mul(d.time as u64) {
        Some(v) => v,
        None => { return None; },
    };
    let n2 = match n1.checked_mul(d.position as u64) {
        Some(v) => v,
        None => { return None; },
    };
    let n3 = match n2.checked_mul(d.z as u64) {
        Some(v) => v,
        None => { return None; },
    };
    let n4 = match n3.checked_mul(d.channel as u64) {
        Some(v) => v,
        None => { return None; },
    };
    let n5 = match n4.checked_mul(d.height as u64) {
        Some(v) => v,
        None => { return None; },
    };
    n5.checked_mul(d.width as u64)
}

proof fn lemma_grows(a: int, b: int)
    requires
        a >= 0,
        b >= 1,
    ensures
        a * b >= a,
{
    assert(a * b >= a) by (nonlinear_arith)
        requires
            a >= 0,
            b >= 1,
    ;
}

/// Checks a payload length against the metadata's shape and hands the
/// metadata back where they agree.
pub fn validate_parts(metadata: ArrayMetadata, payload_len_given: u64) -> (r: Result<ArrayMetadata, ArrayError>)
    ensures
        r is Ok <==> payload_check(metadata.dimensions, payload_len_given as int) is Ok,
        r matches Err(e) ==> payload_check(metadata.dimensions, payload_len_given as int) == Err::<(), ArrayError>(e),
        r matches Ok(m) ==> m@ == metadata@,
{
    match payload_len(&metadata.dimensions) {
        Some(expected) => {
            if expected != payload_len_given {
                return Err(ArrayError::SizeMismatch { expected, actual: payload_len_given });
            }
            Ok(metadata)
        },
        None => Err(ArrayError::SizeMismatch { expected: u64::MAX, actual: payload_len_given }),
    }
}

/// Rebuilds a container from its metadata record and its payload. Fails
/// where the payload is not four bytes per sample, and then as
/// `Array6D::new` does.
pub fn decode_array(metadata: ArrayMetadata, payload: &[u8]) -> (r: Result<Array6D, ArrayError>)
    ensures
        same_outcome(r, decode_result(metadata@, payload@)),
{
    let actual = payload.len() as u64;
    match payload_len(&metadata.dimensions) {
        Some(expected) => {
            if expected != actual {
                return Err(ArrayError::SizeMismatch { expected, actual });
            }
        },
        None => {
            return Err(ArrayError::SizeMismatch { expected: u64::MAX, actual });
        },
    }
    let samples = decode_samples(payload);
    Array6D::new(
        samples,
        metadata.dimensions,
        metadata.pixel_size_um,
        metadata.time_interval_s,
        metadata.channel_names,
        metadata.data_type,
    )
}

/// The payload of a container: four little-endian bytes per sample, row-major.
pub fn encode_payload(array: &Array6D) -> (r: Vec<u8>)
    ensures
        r@ == le_bytes(array@.samples),
{
    let data = array.data();
    encode_samples(data)
}

/// Estimated size of both stored parts, in bytes: the payload plus twice
/// the metadata estimate.
pub fn estimate_file_size(array: &Array6D) -> (r: usize)
    ensures
        r == array@.memory() + 2 * METADATA_SIZE_ESTIMATE,
{
    let data_size = array.memory_usage();
    data_size + METADATA_SIZE_ESTIMATE * 2
}

/// A copy of a list of names.
pub(crate) fn clone_names(names: &[String]) -> (r: Vec<String>)
    ensures
        r@ == names@,
{
    let mut out: Vec<String> = Vec::with_capacity(names.len());
    let mut i: usize = 0;
    while i < names.len()
        invariant
            0 <= i <= names@.len(),
            out@ == names@.subrange(0, i as int),
        decreases names@.len() - i,
    {
        out.push(names[i].clone());
        proof {
            assert(out@ =~= names@.subrange(0, i + 1));
        }
        i += 1;
    }
    assert(out@ =~= names@);
    out
}

impl ArrayMetadata {
    /// The metadata record of a container, with format version "1.0".
    pub fn from(array: &Array6D) -> (r: ArrayMetadata)
        ensures
            r@ == metadata_of(array@),
    {
        let channel_names = clone_names(array.channel_names());
        ArrayMetadata {
            dimensions: *array.dimensions(),
            pixel_size_um: array.pixel_size_um(),
            time_interval_s: array.time_interval_s(),
            channel_names,
            data_type: array.data_type().to_owned(),
            format_version: "1.0".to_owned(),
            created_at: "2024-01-01T00:00:00Z".to_owned(),
        }
    }
}

/// Loading what was saved of a container gives the container back: its
/// shape, calibration, channel names, data type and every sample bit.
pub proof fn lemma_save_load_round_trip(m: ArrayModel)
    requires
        m.wf(),
    ensures
        decode_result(metadata_of(m), le_bytes(m.samples)) == Ok::<ArrayModel, ArrayError>(m),
{
    lemma_payload_round_trip(m.samples);
}

} // verus!

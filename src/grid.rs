//! The outside array type that holds the samples, and what this library
//! relies on of it.
use vstd::prelude::*;
use ndarray::Array6;

verus! {

/// A six-axis array of ndarray holding sample bit patterns. Verus refuses a
/// declaration of ndarray's array type (its bound on `RawData`), so it is held
/// here, out of Verus's sight, and reached only through the functions below.
#[verifier::external_body]
pub struct SampleGrid {
    inner: Array6<u32>,
}

#[verifier::external_type_specification]
#[verifier::external_body]
pub struct ExShapeError(ndarray::ShapeError);

/// The samples of a grid, in logical (row-major) order.
pub uninterp spec fn grid_samples(g: SampleGrid) -> Seq<u32>;

/// The six extents of a grid.
pub uninterp spec fn grid_extents(g: SampleGrid) -> Seq<usize>;

/// Whether a grid is stored contiguously in row-major order.
pub uninterp spec fn grid_standard(g: SampleGrid) -> bool;

/// Product of six extents.
pub open spec fn product6(s: Seq<usize>) -> int {
    s[0] * s[1] * s[2] * s[3] * s[4] * s[5]
}

pub open spec fn at_least_one(n: usize) -> int {
    if n == 0 { 1 } else { n as int }
}

/// Product of the non-zero extents among six.
pub open spec fn nonzero_product6(s: Seq<usize>) -> int {
    at_least_one(s[0]) * at_least_one(s[1]) * at_least_one(s[2]) * at_least_one(s[3])
        * at_least_one(s[4]) * at_least_one(s[5])
}

pub open spec fn index_in_bounds6(s: Seq<usize>, i: Seq<usize>) -> bool {
    &&& s.len() == 6
    &&& i.len() == 6
    &&& forall|k: int| 0 <= k < 6 ==> #[trigger] i[k] < s[k]
}

/// Row-major position of index `i` in an array with extents `s`.
pub open spec fn flat6(s: Seq<usize>, i: Seq<usize>) -> int {
    ((((i[0] * s[1] + i[1]) * s[2] + i[2]) * s[3] + i[3]) * s[4] + i[4]) * s[5] + i[5]
}

/// Relies on ndarray's `Array::zeros`: a new array of the given extents in
/// standard layout, every sample zero. It panics only where the product of the
/// non-zero extents overflows `isize`.
#[verifier::external_body]
pub(crate) fn grid_zeros(shape: [usize; 6]) -> (r: SampleGrid)
    requires
        nonzero_product6(shape@) <= isize::MAX,
    ensures
        grid_extents(r) == shape@,
        grid_samples(r) == Seq::new(product6(shape@) as nat, |i: int| 0u32),
        grid_standard(r),
{
    SampleGrid { inner: Array6::zeros(shape) }
}

/// Relies on ndarray's `Array::from_shape_vec`: with default strides it fails
/// exactly where the product of the non-zero extents overflows `isize` or the
/// vector's length differs from the product of the extents; otherwise the
/// array holds the vector's samples in row-major order, in standard layout.
#[verifier::external_body]
pub(crate) fn grid_from_vec(shape: [usize; 6], v: Vec<u32>) -> (r: Result<SampleGrid, ndarray::ShapeError>)
    ensures
        r is Ok <==> (nonzero_product6(shape@) <= isize::MAX && v@.len() == product6(shape@)),
        r matches Ok(a) ==> grid_extents(a) == shape@ && grid_samples(a) == v@ && grid_standard(a),
{
    Array6::from_shape_vec(shape, v).map(|inner| SampleGrid { inner })
}

/// Relies on ndarray's `ArrayBase::dim`: the six extents. Every array of
/// ndarray holds the product of its extents in samples; the product of the
/// non-zero extents never exceeds `isize::MAX` (its constructors check it),
/// and the samples, four bytes each, lie in one allocation, which never
/// exceeds `isize::MAX` bytes.
#[verifier::external_body]
pub(crate) fn grid_shape(a: &SampleGrid) -> (r: [usize; 6])
    ensures
        r@ == grid_extents(*a),
        grid_samples(*a).len() == product6(r@),
        nonzero_product6(r@) <= isize::MAX,
        product6(r@) * 4 <= isize::MAX,
{
    let (t, p, z, c, h, w) = a.inner.dim();
    [t, p, z, c, h, w]
}

/// Relies on ndarray's `ArrayBase::as_slice`: the samples in logical order,
/// present exactly when the array is in standard layout.
#[verifier::external_body]
pub(crate) fn grid_as_slice(a: &SampleGrid) -> (r: Option<&[u32]>)
    ensures
        r is Some <==> grid_standard(*a),
        r matches Some(s) ==> s@ == grid_samples(*a),
{
    a.inner.as_slice()
}

/// Relies on ndarray's `IndexMut` with a six-index: overwrites one sample
/// and leaves the extents and the layout as they were. It panics only on an
/// index out of bounds, which `requires` leaves out.
#[verifier::external_body]
pub(crate) fn grid_set(a: &mut SampleGrid, idx: [usize; 6], v: u32)
    requires
        index_in_bounds6(grid_extents(*old(a)), idx@),
    ensures
        grid_extents(*final(a)) == grid_extents(*old(a)),
        grid_standard(*final(a)) == grid_standard(*old(a)),
        grid_samples(*final(a)) == grid_samples(*old(a)).update(flat6(grid_extents(*old(a)), idx@), v),
    no_unwind
{
    a.inner[idx] = v;
}

} // verus!

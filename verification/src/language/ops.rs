//! The per-operator rules of the analysis.
//!
//! Each function takes the summaries of an operator's children and produces
//! the summary of the operator itself, or the error that the operator
//! reports.  The dispatcher in [`crate::language::analysis`] routes every
//! node of the language to one of these rules.

use vstd::prelude::*;
use vstd::pervasive::VecAdditionalExecFns;
use vstd::std_specs::vec::vec_index;
use crate::language::data::{AccessPatternData, AnalysisError, ComputeType, PadType, cover_view};
use crate::language::range_set::BoolVecRangeSet;
use crate::language::shape::{
    concat_dims,
    copy_dims,
    dims_eq,
    dims_range,
    insert_dim,
    is_permutation,
    prod,
    prods_fit,
    product,
    remove_dim,
    lemma_prod_add,
    lemma_prod_permuted,
};

verus! {

/// A copy of a cover bitmap.
pub fn copy_bits(v: &Vec<bool>) -> (r: Vec<bool>)
    ensures
        r@ == v@,
{
    let r = v.clone();
    proof {
        assert(r@ =~= v@);
    }
    r
}

/// A copy of an access pattern, cover by cover.
pub fn copy_access(a: &AccessPatternData) -> (r: AccessPatternData)
    ensures
        r.shape@ == a.shape@,
        r.item_shape@ == a.item_shape@,
        r.zero_regions@.len() == a.zero_regions@.len(),
        forall|m: int|
            0 <= m < r.zero_regions@.len() ==> #[trigger] cover_view(r.zero_regions@[m])
                == a.zr_at(m),
        forall|axis: int| #[trigger] r.zr_at(axis) == a.zr_at(axis),
{
    let mut zr: Vec<Option<BoolVecRangeSet>> = Vec::new();
    let mut i: usize = 0;
    while i < a.zero_regions.len()
        invariant
            i <= a.zero_regions@.len(),
            zr@.len() == i as int,
            forall|m: int|
                0 <= m < i ==> #[trigger] cover_view(zr@[m]) == cover_view(a.zero_regions@[m]),
        decreases a.zero_regions@.len() - i,
    {
        let entry: &Option<BoolVecRangeSet> = vec_index(&a.zero_regions, i);
        match entry {
            Some(c) => {
                let bits = copy_bits(&c.bits);
                zr.push(Some(BoolVecRangeSet { bits }));
            },
            None => {
                zr.push(None);
            },
        }
        i = i + 1;
    }
    let r = AccessPatternData {
        shape: copy_dims(&a.shape),
        item_shape: copy_dims(&a.item_shape),
        zero_regions: zr,
    };
    r
}

/// What `slice-shape` returns: the suffix of `shape` from `dim` on, or an
/// out-of-range error.
pub open spec fn slice_shape_post(
    shape: Seq<usize>,
    dim: usize,
    r: Result<Vec<usize>, AnalysisError>,
) -> bool {
    &&& dim <= shape.len() ==> (r matches Ok(s) && s@ == shape.subrange(
        dim as int,
        shape.len() as int,
    ))
    &&& dim > shape.len() ==> (r matches Err(e) && e is OutOfRange)
}

/// The suffix of `shape` from index `dim` on.  Fails when `dim` exceeds the
/// rank.
pub fn slice_shape(shape: &Vec<usize>, dim: usize) -> (r: Result<Vec<usize>, AnalysisError>)
    ensures
        slice_shape_post(shape@, dim, r),
{
    if dim > shape.len() {
        return Err(AnalysisError::OutOfRange);
    }
    Ok(dims_range(shape, dim, shape.len()))
}

/// What `shape-insert-axis` returns: the shape with a 1 inserted at `dim`,
/// or an out-of-range error.
pub open spec fn shape_insert_axis_post(
    shape: Seq<usize>,
    dim: usize,
    r: Result<Vec<usize>, AnalysisError>,
) -> bool {
    &&& dim <= shape.len() ==> (r matches Ok(s) && s@ == shape.insert(dim as int, 1usize))
    &&& dim > shape.len() ==> (r matches Err(e) && e is OutOfRange)
}

/// `shape` with a length-1 axis inserted at `dim`.  Fails when `dim` exceeds
/// the rank.
pub fn shape_insert_axis(shape: &Vec<usize>, dim: usize) -> (r: Result<Vec<usize>, AnalysisError>)
    ensures
        shape_insert_axis_post(shape@, dim, r),
{
    if dim > shape.len() {
        return Err(AnalysisError::OutOfRange);
    }
    Ok(insert_dim(shape, dim, 1))
}

/// What `shape-remove-axis` returns: the shape without axis `dim`, or an
/// out-of-range error.
pub open spec fn shape_remove_axis_post(
    shape: Seq<usize>,
    dim: usize,
    r: Result<Vec<usize>, AnalysisError>,
) -> bool {
    &&& dim < shape.len() ==> (r matches Ok(s) && s@ == shape.remove(dim as int))
    &&& dim >= shape.len() ==> (r matches Err(e) && e is OutOfRange)
}

/// `shape` without the axis at `dim`.  Fails when `dim` reaches past the
/// rank.
pub fn shape_remove_axis(shape: &Vec<usize>, dim: usize) -> (r: Result<Vec<usize>, AnalysisError>)
    ensures
        shape_remove_axis_post(shape@, dim, r),
{
    if dim >= shape.len() {
        return Err(AnalysisError::OutOfRange);
    }
    Ok(remove_dim(shape, dim))
}

/// The outer extent that sliding a window of extent `filter` with stride
/// `stride` over an axis of extent `extent` produces.
pub open spec fn window_extent(extent: usize, filter: usize, stride: usize) -> int {
    ((extent - filter + 1) + (stride - 1)) / (stride as int)
}

/// The outer shape of `access-windows`: one window position count per axis.
pub fn access_windows_resulting_shape(
    access_shape: &Vec<usize>,
    filters_shape: &Vec<usize>,
    stride_shape: &Vec<usize>,
) -> (r: Vec<usize>)
    requires
        access_shape@.len() == stride_shape@.len(),
        filters_shape@.len() == stride_shape@.len(),
        forall|d: int|
            0 <= d < access_shape@.len() ==> #[trigger] filters_shape@[d] >= 1
                && stride_shape@[d] >= 1 && access_shape@[d] >= filters_shape@[d]
                && access_shape@[d] - filters_shape@[d] + stride_shape@[d] <= usize::MAX,
    ensures
        r@.len() == access_shape@.len(),
        forall|d: int|
            0 <= d < r@.len() ==> #[trigger] r@[d] == window_extent(
                access_shape@[d],
                filters_shape@[d],
                stride_shape@[d],
            ),
{
    let mut r: Vec<usize> = Vec::new();
    let mut d: usize = 0;
    while d < access_shape.len()
        invariant
            d <= access_shape@.len(),
            access_shape@.len() == stride_shape@.len(),
            filters_shape@.len() == stride_shape@.len(),
            forall|m: int|
                0 <= m < access_shape@.len() ==> #[trigger] filters_shape@[m] >= 1
                    && stride_shape@[m] >= 1 && access_shape@[m] >= filters_shape@[m]
                    && access_shape@[m] - filters_shape@[m] + stride_shape@[m] <= usize::MAX,
            r@.len() == d as int,
            forall|m: int|
                0 <= m < d ==> #[trigger] r@[m] == window_extent(
                    access_shape@[m],
                    filters_shape@[m],
                    stride_shape@[m],
                ),
        decreases access_shape@.len() - d,
    {
        let dim_len = access_shape[d];
        let kernel_dim_len = filters_shape[d];
        let stride = stride_shape[d];
        let num_spots = dim_len - (kernel_dim_len - 1);
        r.push((num_spots + (stride - 1)) / stride);
        d = d + 1;
    }
    r
}

/// What `access` returns: the same flattened dimensions split at `dim`, all
/// zero regions dropped, or an out-of-range error.
pub open spec fn access_post(
    a: AccessPatternData,
    dim: usize,
    r: Result<AccessPatternData, AnalysisError>,
) -> bool {
    &&& dim <= a.dims().len() ==> (r matches Ok(out) && {
        &&& out.shape@ == a.dims().subrange(0, dim as int)
        &&& out.item_shape@ == a.dims().subrange(dim as int, a.dims().len() as int)
        &&& out.no_zero_info()
        &&& out.wf()
        &&& prod(out.dims()) == prod(a.dims())
    })
    &&& dim > a.dims().len() ==> (r matches Err(e) && e is OutOfRange)
}

/// `access a k`: reinterprets the flattened dimensions of `a`, the first `k`
/// as outer axes and the rest as the item.  Zero regions are dropped, since
/// re-splitting invalidates per-axis indices.  Fails when `k` exceeds the
/// total rank.  The physical size is preserved.
pub fn access(a: &AccessPatternData, dim: usize) -> (r: Result<AccessPatternData, AnalysisError>)
    ensures
        access_post(*a, dim, r),
{
    let combined = a.as_vec();
    if dim > combined.len() {
        return Err(AnalysisError::OutOfRange);
    }
    let shape = dims_range(&combined, 0, dim);
    let item_shape = dims_range(&combined, dim, combined.len());
    let out = AccessPatternData { shape, item_shape, zero_regions: Vec::new() };
    proof {
        assert(out.dims() =~= a.dims());
    }
    Ok(out)
}

/// What `access-tensor` returns: all axes outer, no zero information.
pub open spec fn access_tensor_post(shape: Seq<usize>, out: AccessPatternData) -> bool {
    &&& out.shape@ == shape
    &&& out.item_shape@.len() == 0
    &&& out.no_zero_info()
    &&& out.wf()
}

/// `access-tensor t`: wraps a bare tensor shape as an access pattern whose
/// axes are all outer.
pub fn access_tensor(shape: &Vec<usize>) -> (out: AccessPatternData)
    ensures
        access_tensor_post(shape@, out),
{
    AccessPatternData {
        shape: copy_dims(shape),
        item_shape: Vec::new(),
        zero_regions: Vec::new(),
    }
}

/// What `access-shift-right` returns: the split moved one axis left, zero
/// regions dropped, the physical size preserved.
pub open spec fn access_shift_right_post(a: AccessPatternData, out: AccessPatternData) -> bool {
    &&& ({
        let b = if a.shape@.len() == 0 {
            0int
        } else {
            a.shape@.len() - 1
        };
        &&& out.shape@ == a.dims().subrange(0, b)
        &&& out.item_shape@ == a.dims().subrange(b, a.dims().len() as int)
    })
    &&& out.no_zero_info()
    &&& out.wf()
    &&& prod(out.dims()) == prod(a.dims())
}

/// `access-shift-right a`: moves the last outer axis into the item; with no
/// outer axis it is a no-op on the split.  Zero regions are dropped.  The
/// physical size is preserved.
pub fn access_shift_right(a: &AccessPatternData) -> (out: AccessPatternData)
    ensures
        access_shift_right_post(*a, out),
{
    let combined = a.as_vec();
    let b = if a.shape.len() == 0 {
        0
    } else {
        a.shape.len() - 1
    };
    let out = AccessPatternData {
        shape: dims_range(&combined, 0, b),
        item_shape: dims_range(&combined, b, combined.len()),
        zero_regions: Vec::new(),
    };
    proof {
        assert(out.dims() =~= a.dims());
    }
    out
}

/// What `access-flatten` returns: a rank-1 outer and item shape holding the
/// two products, zero regions dropped, the physical size preserved.
pub open spec fn access_flatten_post(a: AccessPatternData, out: AccessPatternData) -> bool {
    &&& out.shape@.len() == 1 && out.shape@[0] == prod(a.shape@)
    &&& out.item_shape@.len() == 1 && out.item_shape@[0] == prod(a.item_shape@)
    &&& out.no_zero_info()
    &&& out.wf()
    &&& prod(out.dims()) == prod(a.dims())
}

/// `access-flatten a`: collapses the outer and item shapes to one axis each,
/// holding their products.  Zero regions are dropped.  The physical size is
/// preserved.
pub fn access_flatten(a: &AccessPatternData) -> (out: AccessPatternData)
    requires
        prods_fit(a.shape@),
        prods_fit(a.item_shape@),
    ensures
        access_flatten_post(*a, out),
{
    let mut shape: Vec<usize> = Vec::new();
    shape.push(product(&a.shape));
    let mut item_shape: Vec<usize> = Vec::new();
    item_shape.push(product(&a.item_shape));
    let out = AccessPatternData { shape, item_shape, zero_regions: Vec::new() };
    proof {
        lemma_prod_add(a.shape@, a.item_shape@);
        let both = out.dims();
        assert(both.drop_last() =~= out.shape@);
        assert(both.last() == out.item_shape@[0]);
        assert(prod(both) == prod(out.shape@) * out.item_shape@[0]);
        assert(out.shape@.drop_last() =~= Seq::<usize>::empty());
        assert(prod(Seq::<usize>::empty()) == 1);
        assert(prod(out.shape@) == prod(out.shape@.drop_last()) * out.shape@.last());
        assert(prod(out.shape@) == 1 * out.shape@[0]);
        assert(prod(out.dims()) == prod(a.dims()));
    }
    out
}

/// What `access-reshape` returns: the dimensions of `target` when the outer
/// and item products agree, a shape mismatch otherwise.
pub open spec fn access_reshape_post(
    a: AccessPatternData,
    target: AccessPatternData,
    r: Result<AccessPatternData, AnalysisError>,
) -> bool {
    &&& (prod(a.shape@) == prod(target.shape@) && prod(a.item_shape@) == prod(target.item_shape@))
        ==> (r matches Ok(out) && {
        &&& out.shape@ == target.shape@
        &&& out.item_shape@ == target.item_shape@
        &&& out.no_zero_info()
        &&& out.wf()
        &&& prod(out.dims()) == prod(a.dims())
    })
    &&& (prod(a.shape@) != prod(target.shape@) || prod(a.item_shape@) != prod(target.item_shape@))
        ==> (r matches Err(e) && e is ShapeMismatch)
}

/// `access-reshape a target`: takes over the dimensions of `target`,
/// provided the outer and item products match; zero regions of both sides
/// are dropped.  Fails with a shape mismatch otherwise.  The physical size
/// is preserved.
pub fn access_reshape(a: &AccessPatternData, target: &AccessPatternData) -> (r: Result<
    AccessPatternData,
    AnalysisError,
>)
    requires
        prods_fit(a.shape@),
        prods_fit(a.item_shape@),
        prods_fit(target.shape@),
        prods_fit(target.item_shape@),
    ensures
        access_reshape_post(*a, *target, r),
{
    if product(&a.shape) != product(&target.shape) {
        return Err(AnalysisError::ShapeMismatch);
    }
    if product(&a.item_shape) != product(&target.item_shape) {
        return Err(AnalysisError::ShapeMismatch);
    }
    let out = AccessPatternData {
        shape: copy_dims(&target.shape),
        item_shape: copy_dims(&target.item_shape),
        zero_regions: Vec::new(),
    };
    proof {
        lemma_prod_add(a.shape@, a.item_shape@);
        lemma_prod_add(target.shape@, target.item_shape@);
    }
    Ok(out)
}

/// What `access-insert-axis` returns: a length-1 axis at the flattened
/// position, zero regions dropped, or an out-of-range error.
pub open spec fn access_insert_axis_post(
    a: AccessPatternData,
    axis: usize,
    r: Result<AccessPatternData, AnalysisError>,
) -> bool {
    &&& axis <= a.dims().len() ==> (r matches Ok(out) && {
        &&& axis <= a.shape@.len() ==> out.shape@ == a.shape@.insert(axis as int, 1usize)
            && out.item_shape@ == a.item_shape@
        &&& axis > a.shape@.len() ==> out.shape@ == a.shape@ && out.item_shape@
            == a.item_shape@.insert(axis - a.shape@.len(), 1usize)
        &&& out.no_zero_info()
        &&& out.wf()
    })
    &&& axis > a.dims().len() ==> (r matches Err(e) && e is OutOfRange)
}

/// `access-insert-axis a k`: inserts a length-1 axis at flattened position
/// `k`, into the outer shape when `k` lies at or before the split and into
/// the item otherwise.  Zero regions are dropped.  Fails when `k` exceeds
/// the total rank.
pub fn access_insert_axis(a: &AccessPatternData, axis: usize) -> (r: Result<
    AccessPatternData,
    AnalysisError,
>)
    ensures
        access_insert_axis_post(*a, axis, r),
{
    if axis > a.shape.len() && axis - a.shape.len() > a.item_shape.len() {
        return Err(AnalysisError::OutOfRange);
    }
    if axis <= a.shape.len() {
        Ok(AccessPatternData {
            shape: insert_dim(&a.shape, axis, 1),
            item_shape: copy_dims(&a.item_shape),
            zero_regions: Vec::new(),
        })
    } else {
        Ok(AccessPatternData {
            shape: copy_dims(&a.shape),
            item_shape: insert_dim(&a.item_shape, axis - a.shape.len(), 1),
            zero_regions: Vec::new(),
        })
    }
}

/// What `access-squeeze` returns: the flattened axis removed when its
/// extent is 1, zero regions dropped; errors otherwise.
pub open spec fn access_squeeze_post(
    a: AccessPatternData,
    axis: usize,
    r: Result<AccessPatternData, AnalysisError>,
) -> bool {
    &&& axis >= a.dims().len() ==> (r matches Err(e) && e is OutOfRange)
    &&& axis < a.dims().len() && a.dims()[axis as int] != 1 ==> (r matches Err(e)
        && e is ShapeMismatch)
    &&& axis < a.dims().len() && a.dims()[axis as int] == 1 ==> (r matches Ok(out) && {
        &&& axis < a.shape@.len() ==> out.shape@ == a.shape@.remove(axis as int) && out.item_shape@
            == a.item_shape@
        &&& axis >= a.shape@.len() ==> out.shape@ == a.shape@ && out.item_shape@
            == a.item_shape@.remove(axis - a.shape@.len())
        &&& out.no_zero_info()
        &&& out.wf()
    })
}

/// `access-squeeze a k`: removes flattened axis `k`, which must have extent
/// 1.  Zero regions are dropped.
pub fn access_squeeze(a: &AccessPatternData, axis: usize) -> (r: Result<
    AccessPatternData,
    AnalysisError,
>)
    ensures
        access_squeeze_post(*a, axis, r),
{
    if axis >= a.shape.len() && axis - a.shape.len() >= a.item_shape.len() {
        return Err(AnalysisError::OutOfRange);
    }
    if axis < a.shape.len() {
        if a.shape[axis] != 1 {
            return Err(AnalysisError::ShapeMismatch);
        }
        Ok(AccessPatternData {
            shape: remove_dim(&a.shape, axis),
            item_shape: copy_dims(&a.item_shape),
            zero_regions: Vec::new(),
        })
    } else {
        if a.item_shape[axis - a.shape.len()] != 1 {
            return Err(AnalysisError::ShapeMismatch);
        }
        Ok(AccessPatternData {
            shape: copy_dims(&a.shape),
            item_shape: remove_dim(&a.item_shape, axis - a.shape.len()),
            zero_regions: Vec::new(),
        })
    }
}

/// Whether `from` broadcasts to `to`: equal ranks, and every extent either
/// matches or is 1 on the `from` side.
pub open spec fn broadcasts_to(from: Seq<usize>, to: Seq<usize>) -> bool {
    from.len() == to.len() && forall|i: int|
        0 <= i < from.len() ==> (#[trigger] from[i] == 1 || from[i] == to[i])
}

/// What `access-broadcast` returns: the target's dimensions split at `a`'s
/// boundary when `a` broadcasts to them, a shape mismatch otherwise.
pub open spec fn access_broadcast_post(
    a: AccessPatternData,
    target: AccessPatternData,
    r: Result<AccessPatternData, AnalysisError>,
) -> bool {
    &&& broadcasts_to(a.dims(), target.dims()) ==> (r matches Ok(out) && {
        &&& out.shape@ == target.dims().subrange(0, a.shape@.len() as int)
        &&& out.item_shape@ == target.dims().subrange(
            a.shape@.len() as int,
            target.dims().len() as int,
        )
        &&& out.no_zero_info()
        &&& out.wf()
    })
    &&& !broadcasts_to(a.dims(), target.dims()) ==> (r matches Err(e) && e is ShapeMismatch)
}

/// `access-broadcast a target`: expands every length-1 extent of `a` to the
/// corresponding extent of `target`; all other extents must already match.
/// The outer/item split of `a` is kept.  Zero regions are dropped.
pub fn access_broadcast(a: &AccessPatternData, target: &AccessPatternData) -> (r: Result<
    AccessPatternData,
    AnalysisError,
>)
    ensures
        access_broadcast_post(*a, *target, r),
{
    let from = a.as_vec();
    let to = target.as_vec();
    if from.len() != to.len() {
        return Err(AnalysisError::ShapeMismatch);
    }
    let mut i: usize = 0;
    while i < from.len()
        invariant
            i <= from@.len(),
            from@.len() == to@.len(),
            from@ == a.dims(),
            to@ == target.dims(),
            forall|m: int| 0 <= m < i ==> (#[trigger] from@[m] == 1 || from@[m] == to@[m]),
        decreases from@.len() - i,
    {
        if from[i] != 1 && from[i] != to[i] {
            return Err(AnalysisError::ShapeMismatch);
        }
        i = i + 1;
    }
    let out = AccessPatternData {
        shape: dims_range(&to, 0, a.shape.len()),
        item_shape: dims_range(&to, a.shape.len(), to.len()),
        zero_regions: Vec::new(),
    };
    Ok(out)
}

/// What `access-pair` returns: the common shape with the item prefixed by
/// 2, or a shape mismatch.
pub open spec fn access_pair_post(
    a0: AccessPatternData,
    a1: AccessPatternData,
    r: Result<AccessPatternData, AnalysisError>,
) -> bool {
    &&& (a0.shape@ == a1.shape@ && a0.item_shape@ == a1.item_shape@) ==> (r matches Ok(out) && {
        &&& out.shape@ == a0.shape@
        &&& out.item_shape@ == a0.item_shape@.insert(0, 2usize)
        &&& out.no_zero_info()
        &&& out.wf()
    })
    &&& (a0.shape@ != a1.shape@ || a0.item_shape@ != a1.item_shape@) ==> (r matches Err(e)
        && e is ShapeMismatch)
}

/// `access-pair a0 a1`: pairs the items of two accesses of identical shape;
/// the item gains a leading axis of extent 2.  Zero regions are dropped.
pub fn access_pair(a0: &AccessPatternData, a1: &AccessPatternData) -> (r: Result<
    AccessPatternData,
    AnalysisError,
>)
    ensures
        access_pair_post(*a0, *a1, r),
{
    if !dims_eq(&a0.shape, &a1.shape) || !dims_eq(&a0.item_shape, &a1.item_shape) {
        return Err(AnalysisError::ShapeMismatch);
    }
    let out = AccessPatternData {
        shape: copy_dims(&a0.shape),
        item_shape: insert_dim(&a0.item_shape, 0, 2),
        zero_regions: Vec::new(),
    };
    Ok(out)
}

/// The dimension list that reads `dims` through the axis list `list`.
pub open spec fn permuted_dims(dims: Seq<usize>, list: Seq<usize>) -> Seq<usize> {
    Seq::new(list.len(), |i: int| dims[list[i] as int])
}

/// What `access-transpose` returns: the dimensions and the covers read
/// through the axis list, or an error when the list is no permutation.
pub open spec fn access_transpose_post(
    a: AccessPatternData,
    list: Seq<usize>,
    r: Result<AccessPatternData, AnalysisError>,
) -> bool {
    &&& list.len() != a.dims().len() ==> (r matches Err(e) && e is ShapeMismatch)
    &&& list.len() == a.dims().len() && (exists|i: int|
        0 <= i < list.len() && #[trigger] list[i] >= a.dims().len()) ==> (r matches Err(e)
        && e is OutOfRange)
    &&& is_permutation(list, a.dims().len() as int) ==> (r matches Ok(out) && {
        &&& out.shape@ == permuted_dims(a.dims(), list).subrange(0, a.shape@.len() as int)
        &&& out.item_shape@ == permuted_dims(a.dims(), list).subrange(
            a.shape@.len() as int,
            list.len() as int,
        )
        &&& forall|axis: int|
            #[trigger] out.zr_at(axis) == (if 0 <= axis < list.len() {
                a.zr_at(list[axis] as int)
            } else {
                None
            })
        &&& out.wf()
        &&& prod(out.dims()) == prod(a.dims())
    })
    &&& !is_permutation(list, a.dims().len() as int) ==> (r matches Err(e) && (e is ShapeMismatch
        || e is OutOfRange))
}

/// `access-transpose a list`: reorders the flattened axes by `list`, which
/// must be a permutation of them; the outer/item split stays at the same
/// position.  This is the one reordering that carries zero regions over, by
/// permuted axis index.  The physical size is preserved.
pub fn access_transpose(a: &AccessPatternData, list: &Vec<usize>) -> (r: Result<
    AccessPatternData,
    AnalysisError,
>)
    requires
        a.wf(),
    ensures
        access_transpose_post(*a, list@, r),
{
    let combined = a.as_vec();
    let n = combined.len();
    if list.len() != n {
        return Err(AnalysisError::ShapeMismatch);
    }
    let mut i: usize = 0;
    while i < n
        invariant
            i <= n,
            n == list@.len(),
            n == a.dims().len(),
            forall|m: int| 0 <= m < i ==> #[trigger] list@[m] < n,
        decreases n - i,
    {
        if list[i] >= n {
            return Err(AnalysisError::OutOfRange);
        }
        i = i + 1;
    }
    let mut i: usize = 0;
    while i < n
        invariant
            i <= n,
            n == list@.len(),
            n == a.dims().len(),
            forall|m: int| 0 <= m < n ==> #[trigger] list@[m] < n,
            forall|m1: int, m2: int| 0 <= m1 < m2 < i ==> list@[m1] != list@[m2],
        decreases n - i,
    {
        let mut j: usize = 0;
        while j < i
            invariant
                j <= i < n,
                n == list@.len(),
                n == a.dims().len(),
                forall|m: int| 0 <= m < n ==> #[trigger] list@[m] < n,
                forall|m: int| 0 <= m < j ==> #[trigger] list@[m] != list@[i as int],
            decreases i - j,
        {
            if list[j] == list[i] {
                return Err(AnalysisError::ShapeMismatch);
            }
            j = j + 1;
        }
        i = i + 1;
    }
    let mut new_dims: Vec<usize> = Vec::new();
    let mut new_zr: Vec<Option<BoolVecRangeSet>> = Vec::new();
    let mut i: usize = 0;
    while i < n
        invariant
            i <= n,
            n == list@.len(),
            n == a.dims().len(),
            combined@ == a.dims(),
            forall|m: int| 0 <= m < n ==> #[trigger] list@[m] < n,
            new_dims@.len() == i as int,
            forall|m: int| 0 <= m < i ==> #[trigger] new_dims@[m] == a.dims()[list@[m] as int],
            new_zr@.len() == i as int,
            forall|m: int|
                0 <= m < i ==> #[trigger] cover_view(new_zr@[m]) == a.zr_at(list@[m] as int),
        decreases n - i,
    {
        let src = list[i];
        new_dims.push(combined[src]);
        if src < a.zero_regions.len() {
            let entry: &Option<BoolVecRangeSet> = vec_index(&a.zero_regions, src);
            match entry {
                Some(c) => {
                    let bits = copy_bits(&c.bits);
                    new_zr.push(Some(BoolVecRangeSet { bits }));
                },
                None => {
                    new_zr.push(None);
                },
            }
        } else {
            new_zr.push(None);
        }
        i = i + 1;
    }
    let s = a.shape.len();
    let out = AccessPatternData {
        shape: dims_range(&new_dims, 0, s),
        item_shape: dims_range(&new_dims, s, n),
        zero_regions: new_zr,
    };
    proof {
        assert(new_dims@ =~= permuted_dims(a.dims(), list@));
        assert(out.dims() =~= new_dims@);
        lemma_prod_permuted(a.dims(), new_dims@, list@);
        assert forall|axis: int|
            (#[trigger] out.zr_at(axis) matches Some(c) ==> c.len() <= out.dims()[axis]) by {
            if 0 <= axis < out.zero_regions@.len() {
                assert(cover_view(out.zero_regions@[axis]) == a.zr_at(list@[axis] as int));
            }
        }
    }
    Ok(out)
}

/// Whether any index of the cover is marked.
pub open spec fn has_true(c: Seq<bool>) -> bool {
    exists|i: int| 0 <= i < c.len() && c[i]
}

/// The position-wise conjunction of two covers, over the positions both
/// know.
pub open spec fn and_covers(c0: Seq<bool>, c1: Seq<bool>) -> Seq<bool> {
    Seq::new(
        if c0.len() <= c1.len() {
            c0.len()
        } else {
            c1.len()
        },
        |i: int| c0[i] && c1[i],
    )
}

/// Whether any position of the cover is marked.
pub fn cover_has_true(c: &Vec<bool>) -> (r: bool)
    ensures
        r == has_true(c@),
{
    let mut i: usize = 0;
    while i < c.len()
        invariant
            i <= c@.len(),
            forall|m: int| 0 <= m < i ==> !c@[m],
        decreases c@.len() - i,
    {
        if c[i] {
            return true;
        }
        i = i + 1;
    }
    false
}

/// The position-wise conjunction of two cover bitmaps.
pub fn and_cover_vec(c0: &Vec<bool>, c1: &Vec<bool>) -> (r: Vec<bool>)
    ensures
        r@ == and_covers(c0@, c1@),
{
    let n = if c0.len() <= c1.len() {
        c0.len()
    } else {
        c1.len()
    };
    let mut r: Vec<bool> = Vec::new();
    let mut i: usize = 0;
    while i < n
        invariant
            i <= n,
            n <= c0@.len() && n <= c1@.len(),
            n == (if c0@.len() <= c1@.len() {
                c0@.len() as int
            } else {
                c1@.len() as int
            }),
            r@.len() == i as int,
            forall|m: int| 0 <= m < i ==> #[trigger] r@[m] == (c0@[m] && c1@[m]),
        decreases n - i,
    {
        r.push(c0[i] && c1[i]);
        i = i + 1;
    }
    proof {
        assert(r@ =~= and_covers(c0@, c1@));
    }
    r
}

/// The cover that `access-cartesian-product` records at `axis`: for each
/// item axis known zero in both operands, the conjunction of the two covers,
/// kept only when it still marks something.
pub open spec fn cart_zr_at(
    a0: AccessPatternData,
    a1: AccessPatternData,
    axis: int,
) -> Option<Seq<bool>> {
    let s0 = a0.shape@.len() as int;
    let s1 = a1.shape@.len() as int;
    let d = axis - (s0 + s1 + 1);
    if 0 <= d < a0.item_shape@.len() {
        match (a0.zr_at(s0 + d), a1.zr_at(s1 + d)) {
            (Some(c0), Some(c1)) => {
                if has_true(and_covers(c0, c1)) {
                    Some(and_covers(c0, c1))
                } else {
                    None
                }
            },
            _ => None,
        }
    } else {
        None
    }
}

/// What `access-cartesian-product` returns: both outer shapes, the item
/// prefixed by 2, and the conjunction covers of the item axes; or a shape
/// mismatch when the items disagree.
pub open spec fn access_cartesian_product_post(
    a0: AccessPatternData,
    a1: AccessPatternData,
    r: Result<AccessPatternData, AnalysisError>,
) -> bool {
    &&& a0.item_shape@ != a1.item_shape@ ==> (r matches Err(e) && e is ShapeMismatch)
    &&& a0.item_shape@ == a1.item_shape@ ==> (r matches Ok(out) && {
        &&& out.shape@ == a0.shape@ + a1.shape@
        &&& out.item_shape@ == a0.item_shape@.insert(0, 2usize)
        &&& forall|axis: int| #[trigger] out.zr_at(axis) == cart_zr_at(a0, a1, axis)
        &&& out.wf()
        &&& prod(out.shape@) * prod(out.item_shape@) == prod(a0.shape@) * prod(a1.shape@) * 2
            * prod(a0.item_shape@)
    })
}

/// `access-cartesian-product a0 a1`: pairs every item of `a0` with every
/// item of `a1`; the items must agree in shape.  The result iterates over
/// both outer shapes and delivers a pair, so the physical size becomes
/// `2 x |a0| x |a1| / |item|`.  An index of an item axis is zero in the
/// product exactly when it is zero in both operands.
pub fn access_cartesian_product(a0: &AccessPatternData, a1: &AccessPatternData) -> (r: Result<
    AccessPatternData,
    AnalysisError,
>)
    requires
        a0.wf(),
        a1.wf(),
    ensures
        access_cartesian_product_post(*a0, *a1, r),
{
    if !dims_eq(&a0.item_shape, &a1.item_shape) {
        return Err(AnalysisError::ShapeMismatch);
    }
    let shape = concat_dims(&a0.shape, &a1.shape);
    let item_shape = insert_dim(&a0.item_shape, 0, 2);
    let all_dims = concat_dims(&shape, &item_shape);
    let total = all_dims.len();
    let s0 = a0.shape.len();
    let s1 = a1.shape.len();
    let base = shape.len();
    let mut zr: Vec<Option<BoolVecRangeSet>> = Vec::new();
    while zr.len() < base + 1
        invariant
            base + 1 <= total,
            zr@.len() <= base + 1,
            forall|m: int| 0 <= m < zr@.len() ==> #[trigger] cover_view(zr@[m]) is None,
        decreases base + 1 - zr.len(),
    {
        zr.push(None);
    }
    let mut d: usize = 0;
    while d < a0.item_shape.len()
        invariant
            d <= a0.item_shape@.len(),
            s0 == a0.shape@.len(),
            s1 == a1.shape@.len(),
            base == s0 + s1,
            total == base + 1 + a0.item_shape@.len(),
            a0.wf(),
            a1.wf(),
            zr@.len() == base + 1 + d,
            forall|m: int| 0 <= m < base + 1 ==> #[trigger] cover_view(zr@[m]) is None,
            forall|m: int|
                base + 1 <= m < base + 1 + d ==> #[trigger] cover_view(zr@[m]) == ({
                    let dd = m - (base + 1);
                    match (a0.zr_at(s0 + dd), a1.zr_at(s1 + dd)) {
                        (Some(c0), Some(c1)) => {
                            if has_true(and_covers(c0, c1)) {
                                Some(and_covers(c0, c1))
                            } else {
                                None
                            }
                        },
                        _ => None,
                    }
                }),
        decreases a0.item_shape@.len() - d,
    {
        let i0 = s0 + d;
        let i1 = s1 + d;
        let mut pushed = false;
        if i0 < a0.zero_regions.len() && i1 < a1.zero_regions.len() {
            let e0: &Option<BoolVecRangeSet> = vec_index(&a0.zero_regions, i0);
            let e1: &Option<BoolVecRangeSet> = vec_index(&a1.zero_regions, i1);
            match (e0, e1) {
                (Some(c0), Some(c1)) => {
                    let bits = and_cover_vec(&c0.bits, &c1.bits);
                    if cover_has_true(&bits) {
                        zr.push(Some(BoolVecRangeSet { bits }));
                    } else {
                        zr.push(None);
                    }
                    pushed = true;
                },
                _ => {},
            }
        }
        if !pushed {
            zr.push(None);
        }
        d = d + 1;
    }
    let out = AccessPatternData { shape, item_shape, zero_regions: zr };
    proof {
        lemma_prod_add(a0.shape@, a1.shape@);
        assert(out.item_shape@ =~= seq![2usize] + a0.item_shape@);
        lemma_prod_add(seq![2usize], a0.item_shape@);
        assert(seq![2usize].drop_last() =~= Seq::<usize>::empty());
        assert(prod(seq![2usize]) == prod(Seq::<usize>::empty()) * 2);
        assert(prod(out.shape@) * prod(out.item_shape@) == (prod(a0.shape@) * prod(a1.shape@)) * (2
            * prod(a0.item_shape@)));
        assert(prod(out.shape@) * prod(out.item_shape@) == prod(a0.shape@) * prod(a1.shape@) * 2
            * prod(a0.item_shape@)) by (nonlinear_arith)
            requires
                prod(out.shape@) * prod(out.item_shape@) == (prod(a0.shape@) * prod(a1.shape@)) * (
                2 * prod(a0.item_shape@)),
        ;
        assert forall|axis: int| #[trigger] out.zr_at(axis) == cart_zr_at(*a0, *a1, axis) by {
            if base + 1 <= axis < out.zero_regions@.len() {
                assert(cover_view(out.zero_regions@[axis]) == cart_zr_at(*a0, *a1, axis));
            }
        }
        assert forall|axis: int|
            (#[trigger] out.zr_at(axis) matches Some(c) ==> c.len() <= out.dims()[axis]) by {
            let dd = axis - (s0 + s1 + 1);
            assert(out.zr_at(axis) == cart_zr_at(*a0, *a1, axis));
            if 0 <= dd < a0.item_shape@.len() {
                match (a0.zr_at(s0 + dd), a1.zr_at(s1 + dd)) {
                    (Some(c0), Some(c1)) => {
                        assert(c0.len() <= a0.dims()[s0 + dd]);
                        assert(a0.dims()[s0 + dd] == a0.item_shape@[dd]);
                        assert(out.dims()[axis] == out.item_shape@[dd + 1]);
                        assert(out.item_shape@[dd + 1] == a0.item_shape@[dd]);
                    },
                    _ => {},
                }
            }
        }
    }
    Ok(out)
}

/// Whether two accesses can be concatenated along `axis`: equal split
/// ranks, and equal extents everywhere but at `axis`.
pub open spec fn concat_ok(a0: AccessPatternData, a1: AccessPatternData, axis: int) -> bool {
    &&& a0.shape@.len() == a1.shape@.len()
    &&& a0.item_shape@.len() == a1.item_shape@.len()
    &&& 0 <= axis < a0.dims().len()
    &&& forall|i: int|
        0 <= i < a0.dims().len() && i != axis ==> #[trigger] a0.dims()[i] == a1.dims()[i]
}

/// What `access-concatenate` returns: the first operand's dimensions with
/// the chosen axis summed, zero regions dropped; or the matching error.
pub open spec fn access_concatenate_post(
    a0: AccessPatternData,
    a1: AccessPatternData,
    axis: usize,
    r: Result<AccessPatternData, AnalysisError>,
) -> bool {
    &&& (a0.shape@.len() != a1.shape@.len() || a0.item_shape@.len() != a1.item_shape@.len()) ==> (
    r matches Err(e) && e is ShapeMismatch)
    &&& (a0.shape@.len() == a1.shape@.len() && a0.item_shape@.len() == a1.item_shape@.len() && axis
        >= a0.dims().len()) ==> (r matches Err(e) && e is OutOfRange)
    &&& (a0.shape@.len() == a1.shape@.len() && a0.item_shape@.len() == a1.item_shape@.len() && axis
        < a0.dims().len() && !concat_ok(a0, a1, axis as int)) ==> (r matches Err(e)
        && e is ShapeMismatch)
    &&& concat_ok(a0, a1, axis as int) ==> (r matches Ok(out) && {
        &&& out.shape@.len() == a0.shape@.len()
        &&& out.dims() == a0.dims().update(
            axis as int,
            (a0.dims()[axis as int] + a1.dims()[axis as int]) as usize,
        )
        &&& out.no_zero_info()
        &&& out.wf()
    })
}

/// `access-concatenate a0 a1 axis`: sums the chosen axis; all other extents
/// and both split ranks must agree.  Zero regions are dropped: merging two
/// covers across the join is not attempted.
pub fn access_concatenate(a0: &AccessPatternData, a1: &AccessPatternData, axis: usize) -> (r:
    Result<AccessPatternData, AnalysisError>)
    requires
        concat_ok(*a0, *a1, axis as int) ==> a0.dims()[axis as int] + a1.dims()[axis as int]
            <= usize::MAX,
    ensures
        access_concatenate_post(*a0, *a1, axis, r),
{
    if a0.shape.len() != a1.shape.len() || a0.item_shape.len() != a1.item_shape.len() {
        return Err(AnalysisError::ShapeMismatch);
    }
    let dims0 = a0.as_vec();
    let dims1 = a1.as_vec();
    let total = dims0.len();
    if axis >= total {
        return Err(AnalysisError::OutOfRange);
    }
    let mut i: usize = 0;
    while i < total
        invariant
            i <= total,
            total == a0.dims().len(),
            dims0@ == a0.dims(),
            dims1@ == a1.dims(),
            a0.dims().len() == a1.dims().len(),
            axis < total,
            forall|m: int| 0 <= m < i && m != axis ==> #[trigger] dims0@[m] == dims1@[m],
        decreases total - i,
    {
        if i != axis && dims0[i] != dims1[i] {
            return Err(AnalysisError::ShapeMismatch);
        }
        i = i + 1;
    }
    let mut new_dims = copy_dims(&dims0);
    new_dims.set(axis, dims0[axis] + dims1[axis]);
    let s = a0.shape.len();
    let out = AccessPatternData {
        shape: dims_range(&new_dims, 0, s),
        item_shape: dims_range(&new_dims, s, total),
        zero_regions: Vec::new(),
    };
    proof {
        assert(out.dims() =~= new_dims@);
    }
    Ok(out)
}

/// The cover restricted to the slice `[lo, hi)` of its axis.
pub open spec fn sliced_cover(c: Seq<bool>, lo: int, hi: int) -> Seq<bool> {
    Seq::new((hi - lo) as nat, |i: int| 0 <= lo + i < c.len() && c[lo + i])
}

/// What `access-slice` returns: the chosen axis cut to `[lo, hi)` with its
/// cover cut the same way, or an out-of-range error.
pub open spec fn access_slice_post(
    a: AccessPatternData,
    axis: usize,
    low: usize,
    high: usize,
    r: Result<AccessPatternData, AnalysisError>,
) -> bool {
    &&& axis >= a.dims().len() ==> (r matches Err(e) && e is OutOfRange)
    &&& axis < a.dims().len() && !(low < high && high <= a.dims()[axis as int]) ==> (r matches Err(
        e,
    ) && e is OutOfRange)
    &&& axis < a.dims().len() && low < high && high <= a.dims()[axis as int] ==> (r matches Ok(out)
        && {
        &&& out.shape@.len() == a.shape@.len()
        &&& out.dims() == a.dims().update(axis as int, (high - low) as usize)
        &&& forall|axis2: int|
            #[trigger] out.zr_at(axis2) == (if axis2 == axis as int {
                match a.zr_at(axis as int) {
                    Some(c) => Some(sliced_cover(c, low as int, high as int)),
                    None => None,
                }
            } else {
                a.zr_at(axis2)
            })
        &&& out.wf()
    })
}

/// `access-slice a axis lo hi`: keeps the half-open index range `[lo, hi)`
/// of the chosen axis, which must be nonempty and lie within the extent.
/// The cover of that axis is cut down to the kept range; other axes keep
/// theirs.
pub fn access_slice(a: &AccessPatternData, axis: usize, low: usize, high: usize) -> (r: Result<
    AccessPatternData,
    AnalysisError,
>)
    requires
        a.wf(),
    ensures
        access_slice_post(*a, axis, low, high, r),
{
    let s = a.shape.len();
    if axis >= s && axis - s >= a.item_shape.len() {
        return Err(AnalysisError::OutOfRange);
    }
    let extent = a.index(axis);
    if !(low < high && high <= extent) {
        return Err(AnalysisError::OutOfRange);
    }
    let mut out = copy_access(a);
    if axis < s {
        out.shape.set(axis, high - low);
    } else {
        out.item_shape.set(axis - s, high - low);
    }
    if axis < out.zero_regions.len() {
        let mut new_bits: Option<Vec<bool>> = None;
        let entry: &Option<BoolVecRangeSet> = vec_index(&out.zero_regions, axis);
        match entry {
            Some(c) => {
                proof {
                    assert(cover_view(out.zero_regions@[axis as int]) == a.zr_at(axis as int));
                    assert(a.zr_at(axis as int) == Some(c.bits@));
                }
                let mut bits: Vec<bool> = Vec::new();
                let mut i: usize = 0;
                while i < high - low
                    invariant
                        i <= high - low,
                        low < high,
                        bits@.len() == i as int,
                        forall|m: int|
                            0 <= m < i ==> #[trigger] bits@[m] == (0 <= low + m < c.bits@.len()
                                && c.bits@[low + m]),
                    decreases high - low - i,
                {
                    bits.push(low + i < c.bits.len() && c.bits[low + i]);
                    i = i + 1;
                }
                proof {
                    assert(bits@ =~= sliced_cover(c.bits@, low as int, high as int));
                }
                new_bits = Some(bits);
            },
            None => {
                proof {
                    assert(cover_view(out.zero_regions@[axis as int]) == a.zr_at(axis as int));
                    assert(a.zr_at(axis as int) is None);
                }
            },
        }
        match new_bits {
            Some(bits) => {
                proof {
                    assert(a.zr_at(axis as int) matches Some(c) && bits@ == sliced_cover(
                        c,
                        low as int,
                        high as int,
                    ));
                }
                out.zero_regions.set(axis, Some(BoolVecRangeSet { bits }));
            },
            None => {},
        }
    } else {
        proof {
            assert(a.zr_at(axis as int) is None);
        }
    }
    proof {
        assert(out.dims() =~= a.dims().update(axis as int, (high - low) as usize));
        assert forall|axis2: int|
            #[trigger] out.zr_at(axis2) == (if axis2 == axis as int {
                match a.zr_at(axis as int) {
                    Some(c) => Some(sliced_cover(c, low as int, high as int)),
                    None => None,
                }
            } else {
                a.zr_at(axis2)
            }) by {
            if axis2 != axis as int && 0 <= axis2 < out.zero_regions@.len() {
                assert(cover_view(out.zero_regions@[axis2]) == a.zr_at(axis2));
            }
        }
        assert forall|axis2: int|
            (#[trigger] out.zr_at(axis2) matches Some(c) ==> c.len() <= out.dims()[axis2]) by {
            if axis2 != axis as int && 0 <= axis2 < out.zero_regions@.len() {
                assert(out.zr_at(axis2) == a.zr_at(axis2));
                assert(out.dims()[axis2] == a.dims()[axis2]);
            }
        }
    }
    Ok(out)
}

/// The cover of an empty option, or the cover stored.
pub open spec fn opt_cover_or_empty(o: Option<Seq<bool>>) -> Seq<bool> {
    match o {
        Some(c) => c,
        None => Seq::<bool>::empty(),
    }
}

/// The cover of an axis of original extent `orig` after `before` zero rows
/// are put in front and `after` behind: the padding is marked zero, the
/// middle keeps what was known.
pub open spec fn padded_cover(c: Seq<bool>, orig: int, before: int, after: int) -> Seq<bool> {
    Seq::new(
        (before + orig + after) as nat,
        |i: int|
            if i < before {
                true
            } else if i < before + orig {
                0 <= i - before < c.len() && c[i - before]
            } else {
                true
            },
    )
}

/// What `access-pad` returns: the chosen axis grown by the padding, the
/// covers as padding demands, or an out-of-range error.
pub open spec fn access_pad_post(
    a: AccessPatternData,
    pad_type: PadType,
    axis: usize,
    pad_before: usize,
    pad_after: usize,
    r: Result<AccessPatternData, AnalysisError>,
) -> bool {
    &&& axis >= a.dims().len() ==> (r matches Err(e) && e is OutOfRange)
    &&& axis < a.dims().len() ==> (r matches Ok(out) && {
        &&& out.shape@.len() == a.shape@.len()
        &&& out.dims() == a.dims().update(
            axis as int,
            (a.dims()[axis as int] + pad_before + pad_after) as usize,
        )
        &&& match pad_type {
            PadType::MinPadding => out.no_zero_info(),
            PadType::ZeroPadding => forall|axis2: int|
                #[trigger] out.zr_at(axis2) == (if axis2 == axis as int {
                    Some(
                        padded_cover(
                            opt_cover_or_empty(a.zr_at(axis as int)),
                            a.dims()[axis as int] as int,
                            pad_before as int,
                            pad_after as int,
                        ),
                    )
                } else {
                    a.zr_at(axis2)
                }),
        }
        &&& out.wf()
    })
}

/// `access-pad a pt axis before after`: grows the chosen axis by `before +
/// after`.  Zero padding records the pad rows as zero and keeps every other
/// cover; min padding drops all zero information, since the pad value is
/// not the additive identity.
pub fn access_pad(
    a: &AccessPatternData,
    pad_type: PadType,
    axis: usize,
    pad_before: usize,
    pad_after: usize,
) -> (r: Result<AccessPatternData, AnalysisError>)
    requires
        a.wf(),
        axis < a.dims().len() ==> a.dims()[axis as int] + pad_before + pad_after <= usize::MAX,
    ensures
        access_pad_post(*a, pad_type, axis, pad_before, pad_after, r),
{
    let s = a.shape.len();
    if axis >= s && axis - s >= a.item_shape.len() {
        return Err(AnalysisError::OutOfRange);
    }
    let orig = a.index(axis);
    let new_extent = orig + pad_before + pad_after;
    let mut out = copy_access(a);
    if axis < s {
        out.shape.set(axis, new_extent);
    } else {
        out.item_shape.set(axis - s, new_extent);
    }
    match pad_type {
        PadType::MinPadding => {
            out.zero_regions = Vec::new();
        },
        PadType::ZeroPadding => {
            let av = a.as_vec();
            let total = av.len();
            let ghost out_shape = out.shape@;
            let ghost out_item = out.item_shape@;
            while out.zero_regions.len() < axis + 1
                invariant
                    axis < total,
                    total == a.dims().len(),
                    out.shape@ == out_shape,
                    out.item_shape@ == out_item,
                    out.zero_regions@.len() >= a.zero_regions@.len(),
                    out.zero_regions@.len() <= (if a.zero_regions@.len() > axis + 1 {
                        a.zero_regions@.len() as int
                    } else {
                        axis + 1
                    }),
                    forall|m: int|
                        0 <= m < out.zero_regions@.len() ==> #[trigger] cover_view(
                            out.zero_regions@[m],
                        ) == a.zr_at(m),
                decreases axis + 1 - out.zero_regions.len(),
            {
                out.zero_regions.push(None);
            }
            let mut bits: Vec<bool> = Vec::new();
            let mut got: bool = false;
            if axis < a.zero_regions.len() {
                let entry: &Option<BoolVecRangeSet> = vec_index(&a.zero_regions, axis);
                match entry {
                    Some(c) => {
                        proof {
                            assert(a.zr_at(axis as int) == Some(c.bits@));
                        }
                        bits = build_padded_bits(&c.bits, orig, pad_before, pad_after);
                        got = true;
                    },
                    None => {
                        proof {
                            assert(a.zr_at(axis as int) is None);
                        }
                    },
                }
            }
            if !got {
                let empty: Vec<bool> = Vec::new();
                bits = build_padded_bits(&empty, orig, pad_before, pad_after);
            }
            proof {
                assert(bits@ == padded_cover(
                    opt_cover_or_empty(a.zr_at(axis as int)),
                    orig as int,
                    pad_before as int,
                    pad_after as int,
                ));
            }
            out.zero_regions.set(axis, Some(BoolVecRangeSet { bits }));
            proof {
                assert forall|axis2: int|
                    #[trigger] out.zr_at(axis2) == (if axis2 == axis as int {
                        Some(
                            padded_cover(
                                opt_cover_or_empty(a.zr_at(axis as int)),
                                a.dims()[axis as int] as int,
                                pad_before as int,
                                pad_after as int,
                            ),
                        )
                    } else {
                        a.zr_at(axis2)
                    }) by {
                    if axis2 != axis as int && 0 <= axis2 < out.zero_regions@.len() {
                        assert(cover_view(out.zero_regions@[axis2]) == a.zr_at(axis2));
                    }
                }
            }
        },
    }
    proof {
        assert(out.dims() =~= a.dims().update(axis as int, new_extent));
        assert forall|axis2: int|
            (#[trigger] out.zr_at(axis2) matches Some(c) ==> c.len() <= out.dims()[axis2]) by {
            if axis2 != axis as int && 0 <= axis2 < out.zero_regions@.len() {
                assert(out.zr_at(axis2) == a.zr_at(axis2));
                assert(out.dims()[axis2] == a.dims()[axis2]);
            }
        }
    }
    Ok(out)
}

/// The padded cover bitmap: `before` marked rows, the original bits, then
/// `after` marked rows.  Bits past the end of the stored cover count as
/// unknown.
fn build_padded_bits(c: &Vec<bool>, orig: usize, pad_before: usize, pad_after: usize) -> (bits:
    Vec<bool>)
    requires
        orig + pad_before + pad_after <= usize::MAX,
    ensures
        bits@ == padded_cover(c@, orig as int, pad_before as int, pad_after as int),
{
    let total = pad_before + orig + pad_after;
    let mut bits: Vec<bool> = Vec::new();
    let mut i: usize = 0;
    while i < total
        invariant
            i <= total,
            total == pad_before + orig + pad_after,
            bits@.len() == i as int,
            forall|m: int|
                0 <= m < i ==> #[trigger] bits@[m] == (if m < pad_before {
                    true
                } else if m < pad_before + orig {
                    0 <= m - pad_before < c@.len() && c@[m - pad_before]
                } else {
                    true
                }),
        decreases total - i,
    {
        if i < pad_before {
            bits.push(true);
        } else if i < pad_before + orig {
            bits.push(i - pad_before < c.len() && c[i - pad_before]);
        } else {
            bits.push(true);
        }
        i = i + 1;
    }
    proof {
        assert(bits@ =~= padded_cover(c@, orig as int, pad_before as int, pad_after as int));
    }
    bits
}

/// Whether `access-windows` accepts its operands: the access delivers
/// scalars, there is one filter and stride extent per axis, and every axis
/// fits its filter.
pub open spec fn windows_ok(
    a: AccessPatternData,
    filters_shape: Seq<usize>,
    stride_shape: Seq<usize>,
) -> bool {
    &&& a.item_shape@.len() == 0
    &&& filters_shape.len() == a.shape@.len()
    &&& stride_shape.len() == a.shape@.len()
    &&& forall|d: int| 0 <= d < a.shape@.len() ==> a.shape@[d] >= #[trigger] filters_shape[d]
}

/// What `access-windows` returns: one window-position count per axis, the
/// filter shape as the item, zero regions dropped; or a shape mismatch.
pub open spec fn access_windows_post(
    a: AccessPatternData,
    filters_shape: Seq<usize>,
    stride_shape: Seq<usize>,
    r: Result<AccessPatternData, AnalysisError>,
) -> bool {
    &&& !windows_ok(a, filters_shape, stride_shape) ==> (r matches Err(e) && e is ShapeMismatch)
    &&& windows_ok(a, filters_shape, stride_shape) ==> (r matches Ok(out) && {
        &&& out.shape@.len() == a.shape@.len()
        &&& forall|d: int|
            0 <= d < out.shape@.len() ==> #[trigger] out.shape@[d] == window_extent(
                a.shape@[d],
                filters_shape[d],
                stride_shape[d],
            )
        &&& out.item_shape@ == filters_shape
        &&& out.no_zero_info()
        &&& out.wf()
    })
}

/// `access-windows a filters stride`: forms the windows a filter slides
/// over.  The access must deliver scalars (empty item shape) and have one
/// filter and stride extent per axis; every axis must fit its filter.  The
/// result iterates over the window positions and delivers one window.
pub fn access_windows(
    a: &AccessPatternData,
    filters_shape: &Vec<usize>,
    stride_shape: &Vec<usize>,
) -> (r: Result<AccessPatternData, AnalysisError>)
    requires
        windows_ok(*a, filters_shape@, stride_shape@) ==> (forall|d: int|
            0 <= d < a.shape@.len() ==> #[trigger] filters_shape@[d] >= 1 && stride_shape@[d] >= 1
                && a.shape@[d] - filters_shape@[d] + stride_shape@[d] <= usize::MAX),
    ensures
        access_windows_post(*a, filters_shape@, stride_shape@, r),
{
    if a.item_shape.len() != 0 {
        return Err(AnalysisError::ShapeMismatch);
    }
    if filters_shape.len() != a.shape.len() || stride_shape.len() != a.shape.len() {
        return Err(AnalysisError::ShapeMismatch);
    }
    let mut d: usize = 0;
    while d < a.shape.len()
        invariant
            d <= a.shape@.len(),
            filters_shape@.len() == a.shape@.len(),
            forall|m: int| 0 <= m < d ==> a.shape@[m] >= #[trigger] filters_shape@[m],
        decreases a.shape@.len() - d,
    {
        if a.shape[d] < filters_shape[d] {
            return Err(AnalysisError::ShapeMismatch);
        }
        d = d + 1;
    }
    let shape = access_windows_resulting_shape(&a.shape, filters_shape, stride_shape);
    Ok(
        AccessPatternData {
            shape,
            item_shape: copy_dims(filters_shape),
            zero_regions: Vec::new(),
        },
    )
}

/// What `compute` returns for each kind: the outer shape is kept, the item
/// becomes what the kind's table says, and zero regions are dropped.
pub open spec fn compute_post(
    compute_type: ComputeType,
    a0: AccessPatternData,
    r: Result<AccessPatternData, AnalysisError>,
) -> bool {
    match compute_type {
        ComputeType::DotProduct => {
            &&& a0.item_shape@.len() >= 1 ==> (r matches Ok(out) && out.shape@ == a0.shape@
                && out.item_shape@.len() == 0 && out.no_zero_info() && out.wf())
            &&& a0.item_shape@.len() == 0 ==> (r matches Err(e) && e is ShapeMismatch)
        },
        ComputeType::ReduceSum | ComputeType::ReduceMax | ComputeType::ReduceMean => r matches Ok(
            out,
        ) && out.shape@ == a0.shape@ && out.item_shape@.len() == 0 && out.no_zero_info()
            && out.wf(),
        ComputeType::ReLU | ComputeType::Sqrt | ComputeType::Negative => r matches Ok(out)
            && out.shape@ == a0.shape@ && out.item_shape@ == a0.item_shape@ && out.no_zero_info()
            && out.wf(),
        ComputeType::Softmax => {
            &&& a0.item_shape@.len() == 1 ==> (r matches Ok(out) && out.shape@ == a0.shape@
                && out.item_shape@ == a0.item_shape@ && out.no_zero_info() && out.wf())
            &&& a0.item_shape@.len() != 1 ==> (r matches Err(e) && e is ShapeMismatch)
        },
        ComputeType::ElementwiseAdd | ComputeType::ElementwiseMul | ComputeType::ElementwiseDiv => {
            &&& a0.item_shape@.len() >= 1 ==> (r matches Ok(out) && out.shape@ == a0.shape@
                && out.item_shape@ == a0.item_shape@.subrange(1, a0.item_shape@.len() as int)
                && out.no_zero_info() && out.wf())
            &&& a0.item_shape@.len() == 0 ==> (r matches Err(e) && e is ShapeMismatch)
        },
    }
}

/// `compute kind a`: computes over every item, leaving the outer shape
/// unchanged.  Reductions drop the item shape, elementwise kinds drop the
/// leading tuple axis, the pointwise kinds keep the item.  Every compute
/// drops zero regions, since it transforms element values.
pub fn compute(compute_type: ComputeType, a0: &AccessPatternData) -> (r: Result<
    AccessPatternData,
    AnalysisError,
>)
    ensures
        compute_post(compute_type, *a0, r),
{
    match compute_type {
        ComputeType::DotProduct => {
            if a0.item_shape.len() < 1 {
                return Err(AnalysisError::ShapeMismatch);
            }
            Ok(
                AccessPatternData {
                    shape: copy_dims(&a0.shape),
                    item_shape: Vec::new(),
                    zero_regions: Vec::new(),
                },
            )
        },
        ComputeType::ReduceSum | ComputeType::ReduceMax | ComputeType::ReduceMean => Ok(
            AccessPatternData {
                shape: copy_dims(&a0.shape),
                item_shape: Vec::new(),
                zero_regions: Vec::new(),
            },
        ),
        ComputeType::ReLU | ComputeType::Sqrt | ComputeType::Negative => Ok(
            AccessPatternData {
                shape: copy_dims(&a0.shape),
                item_shape: copy_dims(&a0.item_shape),
                zero_regions: Vec::new(),
            },
        ),
        ComputeType::Softmax => {
            if a0.item_shape.len() != 1 {
                return Err(AnalysisError::ShapeMismatch);
            }
            Ok(
                AccessPatternData {
                    shape: copy_dims(&a0.shape),
                    item_shape: copy_dims(&a0.item_shape),
                    zero_regions: Vec::new(),
                },
            )
        },
        ComputeType::ElementwiseAdd | ComputeType::ElementwiseMul | ComputeType::ElementwiseDiv => {
            if a0.item_shape.len() < 1 {
                return Err(AnalysisError::ShapeMismatch);
            }
            Ok(
                AccessPatternData {
                    shape: copy_dims(&a0.shape),
                    item_shape: dims_range(&a0.item_shape, 1, a0.item_shape.len()),
                    zero_regions: Vec::new(),
                },
            )
        },
    }
}

/// Whether the operands fit a weight-stationary systolic array of size
/// `rows x cols`: the activation delivers length-`rows` vectors, the weight
/// is a single `rows x cols` matrix.
pub open spec fn systolic_ok(
    rows: usize,
    cols: usize,
    a0: AccessPatternData,
    a1: AccessPatternData,
) -> bool {
    &&& a1.shape@.len() == 0
    &&& a0.shape@.len() <= 1
    &&& a1.item_shape@.len() == 2 && a1.item_shape@[0] == rows && a1.item_shape@[1] == cols
    &&& a0.item_shape@.len() == 1 && a0.item_shape@[0] == rows
}

/// What `systolic-array` returns: one `cols`-wide row per activation, or a
/// shape mismatch.
pub open spec fn systolic_array_post(
    rows: usize,
    cols: usize,
    a0: AccessPatternData,
    a1: AccessPatternData,
    r: Result<AccessPatternData, AnalysisError>,
) -> bool {
    &&& systolic_ok(rows, cols, a0, a1) ==> (r matches Ok(out) && {
        &&& out.shape@ == a0.shape@.push(cols)
        &&& out.item_shape@.len() == 0
        &&& out.no_zero_info()
        &&& out.wf()
    })
    &&& !systolic_ok(rows, cols, a0, a1) ==> (r matches Err(e) && e is ShapeMismatch)
}

/// `systolic-array rows cols a0 a1`: a matrix multiply on a systolic array;
/// the result holds one length-`cols` row per activation.
pub fn systolic_array(
    rows: usize,
    cols: usize,
    a0: &AccessPatternData,
    a1: &AccessPatternData,
) -> (r: Result<AccessPatternData, AnalysisError>)
    ensures
        systolic_array_post(rows, cols, *a0, *a1, r),
{
    if a1.shape.len() != 0 || a0.shape.len() > 1 {
        return Err(AnalysisError::ShapeMismatch);
    }
    if a1.item_shape.len() != 2 || a1.item_shape[0] != rows || a1.item_shape[1] != cols {
        return Err(AnalysisError::ShapeMismatch);
    }
    if a0.item_shape.len() != 1 || a0.item_shape[0] != rows {
        return Err(AnalysisError::ShapeMismatch);
    }
    let mut shape = copy_dims(&a0.shape);
    shape.push(cols);
    Ok(AccessPatternData { shape, item_shape: Vec::new(), zero_regions: Vec::new() })
}

/// Whether the operands fit a blocked systolic array: the activation vector
/// and the weight matrix agree on the shared extent, and the array tiles
/// them exactly.
pub open spec fn systolic_blocking_ok(
    rows: usize,
    cols: usize,
    a0: AccessPatternData,
    a1: AccessPatternData,
) -> bool {
    &&& a1.shape@.len() == 0
    &&& a0.shape@.len() <= 1
    &&& a0.item_shape@.len() == 1
    &&& a1.item_shape@.len() == 2
    &&& a0.item_shape@[0] == a1.item_shape@[0]
    &&& a0.item_shape@[0] as int % rows as int == 0
    &&& a1.item_shape@[1] as int % cols as int == 0
}

/// What `systolic-array-with-blocking` returns: one row of the weight's
/// width per activation, or a shape mismatch.
pub open spec fn systolic_array_with_blocking_post(
    rows: usize,
    cols: usize,
    a0: AccessPatternData,
    a1: AccessPatternData,
    r: Result<AccessPatternData, AnalysisError>,
) -> bool {
    &&& systolic_blocking_ok(rows, cols, a0, a1) ==> (r matches Ok(out) && {
        &&& out.shape@ == a0.shape@.push(a1.item_shape@[1])
        &&& out.item_shape@.len() == 0
        &&& out.no_zero_info()
        &&& out.wf()
    })
    &&& !systolic_blocking_ok(rows, cols, a0, a1) ==> (r matches Err(e) && e is ShapeMismatch)
}

/// `systolic-array-with-blocking rows cols a0 a1`: as `systolic-array`, but
/// the host blocks the multiply itself, so the operand extents need only be
/// multiples of the array size.
pub fn systolic_array_with_blocking(
    rows: usize,
    cols: usize,
    a0: &AccessPatternData,
    a1: &AccessPatternData,
) -> (r: Result<AccessPatternData, AnalysisError>)
    requires
        rows >= 1,
        cols >= 1,
    ensures
        systolic_array_with_blocking_post(rows, cols, *a0, *a1, r),
{
    if a1.shape.len() != 0 || a0.shape.len() > 1 {
        return Err(AnalysisError::ShapeMismatch);
    }
    if a0.item_shape.len() != 1 || a1.item_shape.len() != 2 {
        return Err(AnalysisError::ShapeMismatch);
    }
    if a0.item_shape[0] != a1.item_shape[0] {
        return Err(AnalysisError::ShapeMismatch);
    }
    if a0.item_shape[0] % rows != 0 || a1.item_shape[1] % cols != 0 {
        return Err(AnalysisError::ShapeMismatch);
    }
    let mut shape = copy_dims(&a0.shape);
    shape.push(a1.item_shape[1]);
    Ok(AccessPatternData { shape, item_shape: Vec::new(), zero_regions: Vec::new() })
}

/// What `move-axis` returns: the two extents swapped, or an out-of-range
/// error.
pub open spec fn move_axis_post(
    shape: Seq<usize>,
    src_axis: usize,
    dest_axis: usize,
    r: Result<Vec<usize>, AnalysisError>,
) -> bool {
    &&& (src_axis < shape.len() && dest_axis < shape.len()) ==> (r matches Ok(s) && s@
        == shape.update(dest_axis as int, shape[src_axis as int]).update(
        src_axis as int,
        shape[dest_axis as int],
    ))
    &&& !(src_axis < shape.len() && dest_axis < shape.len()) ==> (r matches Err(e)
        && e is OutOfRange)
}

/// `move-axis t a d` on a bare shape: swaps the extents of axes `a` and
/// `d`.
pub fn move_axis(shape: &Vec<usize>, src_axis: usize, dest_axis: usize) -> (r: Result<
    Vec<usize>,
    AnalysisError,
>)
    ensures
        move_axis_post(shape@, src_axis, dest_axis, r),
{
    if src_axis >= shape.len() || dest_axis >= shape.len() {
        return Err(AnalysisError::OutOfRange);
    }
    let mut s = copy_dims(shape);
    let tmp = shape[dest_axis];
    s.set(dest_axis, shape[src_axis]);
    s.set(src_axis, tmp);
    Ok(s)
}

/// Whether two bare shapes fit the legacy `cartesian-product`: the left one
/// holds one or two axes, both end in vectors of one length.
pub open spec fn legacy_cartesian_ok(s0: Seq<usize>, s1: Seq<usize>) -> bool {
    1 <= s0.len() <= 2 && s1.len() >= 1 && s0.last() == s1.last()
}

/// What the legacy `cartesian-product` returns: the leading axes of both
/// shapes, then `2` and the shared vector length; or a shape mismatch.
pub open spec fn cartesian_product_post(
    s0: Seq<usize>,
    s1: Seq<usize>,
    r: Result<Vec<usize>, AnalysisError>,
) -> bool {
    &&& legacy_cartesian_ok(s0, s1) ==> (r matches Ok(s) && s@ == s0.drop_last() + s1.drop_last()
        + seq![2usize, s0.last()])
    &&& !legacy_cartesian_ok(s0, s1) ==> (r matches Err(e) && e is ShapeMismatch)
}

/// `cartesian-product t0 t1` on bare shapes: pairs the trailing vectors of
/// the two tensors, keeping the leading axes of both.
pub fn cartesian_product(s0: &Vec<usize>, s1: &Vec<usize>) -> (r: Result<
    Vec<usize>,
    AnalysisError,
>)
    ensures
        cartesian_product_post(s0@, s1@, r),
{
    if s0.len() < 1 || s0.len() > 2 || s1.len() < 1 {
        return Err(AnalysisError::ShapeMismatch);
    }
    if s0[s0.len() - 1] != s1[s1.len() - 1] {
        return Err(AnalysisError::ShapeMismatch);
    }
    let left = dims_range(s0, 0, s0.len() - 1);
    let right = dims_range(s1, 0, s1.len() - 1);
    let mut s = concat_dims(&left, &right);
    s.push(2);
    s.push(s0[s0.len() - 1]);
    proof {
        assert(s0@.subrange(0, s0@.len() - 1) =~= s0@.drop_last());
        assert(s1@.subrange(0, s1@.len() - 1) =~= s1@.drop_last());
        assert(s@ =~= s0@.drop_last() + s1@.drop_last() + seq![2usize, s0@.last()]);
    }
    Ok(s)
}

/// What `map-dot-product` returns: the shape without its paired-vector
/// tail, or a shape mismatch.
pub open spec fn map_dot_product_post(shape: Seq<usize>, r: Result<Vec<usize>, AnalysisError>) -> bool {
    &&& (shape.len() >= 3 && shape[shape.len() - 2] == 2) ==> (r matches Ok(s) && s@ == shape.take(
        shape.len() - 2,
    ))
    &&& !(shape.len() >= 3 && shape[shape.len() - 2] == 2) ==> (r matches Err(e)
        && e is ShapeMismatch)
}

/// `map-dot-product t` on a bare shape: a tensor of paired vectors
/// `[...,2,c]` becomes the tensor of their dot products `[...]`.
pub fn map_dot_product(shape: &Vec<usize>) -> (r: Result<Vec<usize>, AnalysisError>)
    ensures
        map_dot_product_post(shape@, r),
{
    if shape.len() < 3 || shape[shape.len() - 2] != 2 {
        return Err(AnalysisError::ShapeMismatch);
    }
    let s = dims_range(shape, 0, shape.len() - 2);
    proof {
        assert(s@ =~= shape@.take(shape@.len() - 2));
    }
    Ok(s)
}

/// What `bsg-systolic-array` returns: the leading axes of the activation
/// and the columns of the weight, or a shape mismatch.
pub open spec fn bsg_systolic_array_post(
    s0: Seq<usize>,
    s1: Seq<usize>,
    r: Result<Vec<usize>, AnalysisError>,
) -> bool {
    &&& ((s0.len() == 1 || s0.len() == 2) && s1.len() == 2) ==> (r matches Ok(s) && s@
        == s0.drop_last() + s1.skip(1))
    &&& !((s0.len() == 1 || s0.len() == 2) && s1.len() == 2) ==> (r matches Err(e)
        && e is ShapeMismatch)
}

/// `bsg-systolic-array rows cols t0 t1` on bare shapes: a matrix multiply;
/// the result keeps the leading axes of `t0` and the columns of `t1`.
pub fn bsg_systolic_array(s0: &Vec<usize>, s1: &Vec<usize>) -> (r: Result<
    Vec<usize>,
    AnalysisError,
>)
    ensures
        bsg_systolic_array_post(s0@, s1@, r),
{
    if !(s0.len() == 1 || s0.len() == 2) || s1.len() != 2 {
        return Err(AnalysisError::ShapeMismatch);
    }
    let left = dims_range(s0, 0, s0.len() - 1);
    let right = dims_range(s1, 1, s1.len());
    let s = concat_dims(&left, &right);
    proof {
        assert(s0@.subrange(0, s0@.len() - 1) =~= s0@.drop_last());
        assert(s1@.subrange(1, s1@.len() as int) =~= s1@.skip(1));
    }
    Ok(s)
}

/// What the legacy `slice` returns: the chosen axis cut to `[lo, hi)`, or
/// an out-of-range error.
pub open spec fn legacy_slice_post(
    shape: Seq<usize>,
    axis: usize,
    low: usize,
    high: usize,
    r: Result<Vec<usize>, AnalysisError>,
) -> bool {
    &&& axis >= shape.len() ==> (r matches Err(e) && e is OutOfRange)
    &&& axis < shape.len() && !(low < shape[axis as int] && high <= shape[axis as int] && low
        <= high) ==> (r matches Err(e) && e is OutOfRange)
    &&& axis < shape.len() && low < shape[axis as int] && high <= shape[axis as int] && low <= high
        ==> (r matches Ok(s) && s@ == shape.update(axis as int, (high - low) as usize))
}

/// `slice t axis lo hi` on a bare shape: the chosen axis keeps the indices
/// of `[lo, hi)`.
pub fn slice(shape: &Vec<usize>, axis: usize, low: usize, high: usize) -> (r: Result<
    Vec<usize>,
    AnalysisError,
>)
    ensures
        legacy_slice_post(shape@, axis, low, high, r),
{
    if axis >= shape.len() {
        return Err(AnalysisError::OutOfRange);
    }
    if !(low < shape[axis] && high <= shape[axis] && low <= high) {
        return Err(AnalysisError::OutOfRange);
    }
    let mut s = copy_dims(shape);
    s.set(axis, high - low);
    Ok(s)
}

/// What the legacy `concatenate` returns: the chosen axis summed, or the
/// matching error.
pub open spec fn concatenate_post(
    s0: Seq<usize>,
    s1: Seq<usize>,
    axis: usize,
    r: Result<Vec<usize>, AnalysisError>,
) -> bool {
    &&& s0.len() != s1.len() ==> (r matches Err(e) && e is ShapeMismatch)
    &&& s0.len() == s1.len() && axis >= s0.len() ==> (r matches Err(e) && e is OutOfRange)
    &&& s0.len() == s1.len() && axis < s0.len() ==> (r matches Ok(s) && s@ == s0.update(
        axis as int,
        (s0[axis as int] + s1[axis as int]) as usize,
    ))
}

/// `concatenate t0 t1 axis` on bare shapes: sums the chosen axis.  Other
/// extents are not inspected.
pub fn concatenate(s0: &Vec<usize>, s1: &Vec<usize>, axis: usize) -> (r: Result<
    Vec<usize>,
    AnalysisError,
>)
    requires
        (s0@.len() == s1@.len() && axis < s0@.len()) ==> s0@[axis as int] + s1@[axis as int]
            <= usize::MAX,
    ensures
        concatenate_post(s0@, s1@, axis, r),
{
    if s0.len() != s1.len() {
        return Err(AnalysisError::ShapeMismatch);
    }
    if axis >= s0.len() {
        return Err(AnalysisError::OutOfRange);
    }
    let mut s = copy_dims(s0);
    s.set(axis, s0[axis] + s1[axis]);
    Ok(s)
}

/// What the legacy `elementwise-add` returns: the common shape, or a shape
/// mismatch.
pub open spec fn elementwise_add_post(
    s0: Seq<usize>,
    s1: Seq<usize>,
    r: Result<Vec<usize>, AnalysisError>,
) -> bool {
    &&& s0 == s1 ==> (r matches Ok(s) && s@ == s0)
    &&& s0 != s1 ==> (r matches Err(e) && e is ShapeMismatch)
}

/// Inserting an axis and removing it again restores the original shape,
/// for every position up to the rank.
pub proof fn lemma_shape_remove_insert_axis(
    s: Seq<usize>,
    k: usize,
    r1: Result<Vec<usize>, AnalysisError>,
    r2: Result<Vec<usize>, AnalysisError>,
)
    requires
        k <= s.len(),
        shape_insert_axis_post(s, k, r1),
        r1 matches Ok(v) ==> shape_remove_axis_post(v@, k, r2),
    ensures
        r1 matches Ok(v) && (r2 matches Ok(w) && w@ == s),
{
    let v = r1->Ok_0;
    crate::language::shape::lemma_remove_insert_axis(s, k as int);
    assert(v@ == s.insert(k as int, 1usize));
}

/// Wrapping a tensor and re-splitting the result at any point leaves the
/// flattened dimensions exactly the tensor's shape.
pub proof fn lemma_access_of_tensor_dims(
    t: Seq<usize>,
    wrapped: AccessPatternData,
    k: usize,
    r: Result<AccessPatternData, AnalysisError>,
)
    requires
        access_tensor_post(t, wrapped),
        access_post(wrapped, k, r),
        k <= t.len(),
    ensures
        r matches Ok(out) && out.dims() == t,
{
    assert(wrapped.dims() =~= t);
    let out = r->Ok_0;
    assert(out.dims() =~= wrapped.dims());
}

/// The identity reordering of `n` axes.
pub open spec fn identity_list(n: nat) -> Seq<usize> {
    Seq::new(n, |i: int| i as usize)
}

/// Transposing by the identity permutation is a no-op: the split shapes and
/// every zero region come back unchanged.
pub proof fn lemma_transpose_identity(
    a: AccessPatternData,
    r: Result<AccessPatternData, AnalysisError>,
)
    requires
        a.wf(),
        a.dims().len() <= usize::MAX,
        access_transpose_post(a, identity_list(a.dims().len()), r),
    ensures
        r matches Ok(out) && out.shape@ == a.shape@ && out.item_shape@ == a.item_shape@ && (forall|
            axis: int,
        | #[trigger] out.zr_at(axis) == a.zr_at(axis)),
{
    let n = a.dims().len();
    let list = identity_list(n);
    assert forall|i: int| 0 <= i < list.len() implies #[trigger] list[i] < n by {
        assert(list[i] == i as usize);
    }
    assert forall|i: int, j: int| 0 <= i < j < list.len() implies list[i] != list[j] by {
        assert(list[i] == i as usize && list[j] == j as usize);
    }
    assert(is_permutation(list, n as int));
    let out = r->Ok_0;
    assert forall|i: int|
        0 <= i < list.len() implies #[trigger] permuted_dims(a.dims(), list)[i] == a.dims()[i] by {
        assert(list[i] == i as usize);
    }
    assert(permuted_dims(a.dims(), list) =~= a.dims());
    assert(out.shape@ =~= a.shape@);
    assert(out.item_shape@ =~= a.item_shape@);
    assert forall|axis: int| #[trigger] out.zr_at(axis) == a.zr_at(axis) by {
        if 0 <= axis < list.len() {
            assert(list[axis] == axis as usize);
        } else {
            assert(a.zr_at(axis) is None);
        }
    }
}

/// `elementwise-add t0 t1` on bare shapes: the operands must agree, and the
/// result has their common shape.
pub fn elementwise_add(s0: &Vec<usize>, s1: &Vec<usize>) -> (r: Result<Vec<usize>, AnalysisError>)
    ensures
        elementwise_add_post(s0@, s1@, r),
{
    if !dims_eq(s0, s1) {
        return Err(AnalysisError::ShapeMismatch);
    }
    Ok(copy_dims(s0))
}

} // verus!

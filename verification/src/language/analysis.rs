//! The operator language and the analysis over it.
//!
//! A node's operands are equivalence-class identifiers into a table of
//! already-computed summaries.  [`MyAnalysis::make`] derives the summary of a
//! node from its children's summaries; [`MyAnalysis::merge`] combines the
//! summaries of two classes that the host engine has unified.

use vstd::prelude::*;
use vstd::std_specs::vec::vec_index;
use crate::language::data::{
    AccessPatternData,
    AnalysisError,
    ComputeType,
    MyAnalysisData,
    MyAnalysisDataLegacyData,
    PadType,
    ShapeData,
    data_wf,
    str_eq,
};
use crate::language::ops;
use crate::language::range_set::BoolVecRangeSet;
use crate::language::ops::{
    access_cartesian_product_post,
    access_broadcast_post,
    access_concatenate_post,
    access_flatten_post,
    access_insert_axis_post,
    access_pad_post,
    access_pair_post,
    access_post,
    access_reshape_post,
    access_shift_right_post,
    access_slice_post,
    access_squeeze_post,
    access_tensor_post,
    access_transpose_post,
    access_windows_post,
    bsg_systolic_array_post,
    cartesian_product_post,
    compute_post,
    concat_ok,
    concatenate_post,
    elementwise_add_post,
    legacy_slice_post,
    map_dot_product_post,
    move_axis_post,
    shape_insert_axis_post,
    shape_remove_axis_post,
    slice_shape_post,
    systolic_array_post,
    systolic_array_with_blocking_post,
    windows_ok,
};
use crate::language::shape::{copy_dims, prods_fit};

verus! {

/// An equivalence-class identifier, handed out by the host engine.
pub type Id = usize;

/// The operator language.  Every operand is the identifier of the class
/// that holds it; `shape` and `list` take any number of integer classes.
#[derive(Debug, Clone)]
pub enum Language {
    /// `(move-axis <tensor> <axis> <dest>)`: swaps two axes of a bare
    /// tensor.
    MoveAxis(Id, Id, Id),
    /// `(cartesian-product <t0> <t1>)` on bare tensors.
    CartesianProduct(Id, Id),
    /// `(map-dot-product <tensor>)` on a bare tensor of paired vectors.
    MapDotProduct(Id),
    /// `(slice <tensor> <axis> <low> <high>)` on a bare tensor.
    Slice(Id, Id, Id, Id),
    /// `(concatenate <t0> <t1> <axis>)` on bare tensors.
    Concatenate(Id, Id, Id),
    /// `(elementwise-add <t0> <t1>)` on bare tensors.
    ElementwiseAdd(Id, Id),
    /// `(bsg-systolic-array <rows> <cols> <t0> <t1>)` on bare tensors.
    BsgSystolicArray(Id, Id, Id, Id),
    /// `(systolic-array <rows> <cols> <access-0> <access-1>)`.
    SystolicArray(Id, Id, Id, Id),
    /// `(systolic-array-with-blocking <rows> <cols> <access-0> <access-1>)`.
    SystolicArrayWithBlocking(Id, Id, Id, Id),
    /// `(access-windows <access> <filters-shape> <stride-shape>)`.
    AccessWindows(Id, Id, Id),
    /// `(shape-of <tensor>)`.
    ShapeOf(Id),
    /// `(slice-shape <shape> <dim>)`.
    SliceShape(Id, Id),
    /// `(shape-insert-axis <shape> <axis>)`.
    ShapeInsertAxis(Id, Id),
    /// `(shape-remove-axis <shape> <axis>)`.
    ShapeRemoveAxis(Id, Id),
    /// `(access <tensor> <dim>)`.
    Access(Id, Id),
    /// `(access-transpose <access> <new-order>)`.
    AccessTranspose(Id, Id),
    /// `(access-cartesian-product <access1> <access2>)`.
    AccessCartesianProduct(Id, Id),
    /// `(compute <compute-type> <access>)`.
    Compute(Id, Id),
    /// `(access-reshape <access> <access-shape>)`.
    AccessReshape(Id, Id),
    /// `(access-flatten <access>)`.
    AccessFlatten(Id),
    /// `(shape <usize>...)`: a shape literal.
    Shape(Vec<Id>),
    /// `(list <usize>...)`: a list literal.
    List(Vec<Id>),
    /// `(access-shape <shape> <item-shape>)`: an access-shape literal.
    AccessShape(Id, Id),
    /// `(access-slice <access> <axis> <low> <high>)`.
    AccessSlice(Id, Id, Id, Id),
    /// `(access-concatenate <a0> <a1> <axis>)`.
    AccessConcatenate(Id, Id, Id),
    /// `(access-pair <a0> <a1>)`.
    AccessPair(Id, Id),
    /// `(access-shift-right <a0>)`.
    AccessShiftRight(Id),
    /// `(access-tensor <t>)`.
    AccessTensor(Id),
    /// `(access-pad <a> <pad-type> <axis> <pad-before> <pad-after>)`.
    AccessPad(Id, Id, Id, Id, Id),
    /// `(access-squeeze <a> <axis>)`.
    AccessSqueeze(Id, Id),
    /// `(access-insert-axis <a> <axis>)`.
    AccessInsertAxis(Id, Id),
    /// `(access-broadcast <a> <shape>)`.
    AccessBroadcast(Id, Id),
    /// `(access-literal <literal>)`.
    AccessLiteral(Id),
    /// `(literal <val>)`.
    Literal(Id),
    /// A non-negative integer literal.
    Usize(usize),
    /// A 64-bit float literal, stored as its bit pattern; NaN is excluded,
    /// as the surface syntax cannot produce it.
    NotNanFloat64(u64),
    /// A pad-type keyword.
    PadType(PadType),
    /// A compute-type keyword.
    ComputeType(ComputeType),
    /// A tensor name, resolved through the environment.
    Symbol(String),
}

/// Whether the bit pattern of a 64-bit float denotes NaN: all exponent bits
/// set and a non-zero mantissa.
pub open spec fn f64_bits_is_nan(bits: u64) -> bool {
    (bits >> 52) & 0x7ff == 0x7ff && (bits & 0xf_ffff_ffff_ffff) != 0
}

/// Whether every operand identifier of `enode` addresses a class of the
/// table.
pub open spec fn ids_valid(enode: Language, len: int) -> bool {
    match enode {
        Language::MoveAxis(a, b, c) => a < len && b < len && c < len,
        Language::CartesianProduct(a, b) => a < len && b < len,
        Language::MapDotProduct(a) => a < len,
        Language::Slice(a, b, c, d) => a < len && b < len && c < len && d < len,
        Language::Concatenate(a, b, c) => a < len && b < len && c < len,
        Language::ElementwiseAdd(a, b) => a < len && b < len,
        Language::BsgSystolicArray(a, b, c, d) => a < len && b < len && c < len && d < len,
        Language::SystolicArray(a, b, c, d) => a < len && b < len && c < len && d < len,
        Language::SystolicArrayWithBlocking(a, b, c, d) => a < len && b < len && c < len && d
            < len,
        Language::AccessWindows(a, b, c) => a < len && b < len && c < len,
        Language::ShapeOf(a) => a < len,
        Language::SliceShape(a, b) => a < len && b < len,
        Language::ShapeInsertAxis(a, b) => a < len && b < len,
        Language::ShapeRemoveAxis(a, b) => a < len && b < len,
        Language::Access(a, b) => a < len && b < len,
        Language::AccessTranspose(a, b) => a < len && b < len,
        Language::AccessCartesianProduct(a, b) => a < len && b < len,
        Language::Compute(a, b) => a < len && b < len,
        Language::AccessReshape(a, b) => a < len && b < len,
        Language::AccessFlatten(a) => a < len,
        Language::Shape(ids) => forall|i: int| 0 <= i < ids@.len() ==> #[trigger] ids@[i] < len,
        Language::List(ids) => forall|i: int| 0 <= i < ids@.len() ==> #[trigger] ids@[i] < len,
        Language::AccessShape(a, b) => a < len && b < len,
        Language::AccessSlice(a, b, c, d) => a < len && b < len && c < len && d < len,
        Language::AccessConcatenate(a, b, c) => a < len && b < len && c < len,
        Language::AccessPair(a, b) => a < len && b < len,
        Language::AccessShiftRight(a) => a < len,
        Language::AccessTensor(a) => a < len,
        Language::AccessPad(a, b, c, d, e) => a < len && b < len && c < len && d < len && e < len,
        Language::AccessSqueeze(a, b) => a < len && b < len,
        Language::AccessInsertAxis(a, b) => a < len && b < len,
        Language::AccessBroadcast(a, b) => a < len && b < len,
        Language::AccessLiteral(a) => a < len,
        Language::Literal(a) => a < len,
        Language::Usize(_) => true,
        Language::NotNanFloat64(_) => true,
        Language::PadType(_) => true,
        Language::ComputeType(_) => true,
        Language::Symbol(_) => true,
    }
}

/// The integer a class holds, if its summary is an integer.
pub open spec fn usize_of(d: MyAnalysisData) -> Option<usize> {
    match d {
        MyAnalysisData::Legacy(l) => l.usize_value,
        _ => None,
    }
}

/// The bare tensor shape a class holds, if its summary is a legacy shape.
pub open spec fn legacy_shape_of(d: MyAnalysisData) -> Option<Vec<usize>> {
    match d {
        MyAnalysisData::Legacy(l) => l.shape,
        _ => None,
    }
}

/// The shape value a class holds, if its summary is a shape value.
pub open spec fn shape_value_of(d: MyAnalysisData) -> Option<Vec<usize>> {
    match d {
        MyAnalysisData::Shape(sd) => Some(sd.shape),
        _ => None,
    }
}

/// The access pattern a class holds, if any.
pub open spec fn access_of(d: MyAnalysisData) -> Option<AccessPatternData> {
    match d {
        MyAnalysisData::AccessPattern(a) => Some(a),
        _ => None,
    }
}

/// The integer list a class holds, if any.
pub open spec fn list_of(d: MyAnalysisData) -> Option<Vec<usize>> {
    match d {
        MyAnalysisData::List(l) => Some(l),
        _ => None,
    }
}

/// The compute type a class holds, if any.
pub open spec fn compute_type_of_data(d: MyAnalysisData) -> Option<ComputeType> {
    match d {
        MyAnalysisData::ComputeType(t) => Some(t),
        _ => None,
    }
}

/// The pad type a class holds, if any.
pub open spec fn pad_type_of_data(d: MyAnalysisData) -> Option<PadType> {
    match d {
        MyAnalysisData::PadType(t) => Some(t),
        _ => None,
    }
}

/// The literal bit pattern a class holds, if any.
pub open spec fn literal_of(d: MyAnalysisData) -> Option<u64> {
    match d {
        MyAnalysisData::Literal(b) => Some(b),
        _ => None,
    }
}

/// The shape of a built-in test tensor name, if the name is one.
pub open spec fn builtin_shape(name: Seq<char>) -> Option<Seq<usize>> {
    if name == "in"@ {
        Some(seq![1usize, 784])
    } else if name == "w1"@ {
        Some(seq![784usize, 512])
    } else if name == "w2"@ {
        Some(seq![512usize, 512])
    } else if name == "w3"@ {
        Some(seq![512usize, 10])
    } else if name == "single-matrix-multiply-input-a"@ {
        Some(seq![32usize, 32])
    } else if name == "single-matrix-multiply-input-b"@ {
        Some(seq![32usize, 32])
    } else if name == "v-32"@ {
        Some(seq![32usize])
    } else if name == "t-32-32"@ {
        Some(seq![32usize, 32])
    } else if name == "t-32-64"@ {
        Some(seq![32usize, 64])
    } else if name == "t-64-128"@ {
        Some(seq![64usize, 128])
    } else if name == "t-128-16"@ {
        Some(seq![128usize, 16])
    } else if name == "t-3-32-32"@ {
        Some(seq![3usize, 32, 32])
    } else if name == "t-8-3-3-3"@ {
        Some(seq![8usize, 3, 3, 3])
    } else if name == "t-1024-2-256"@ {
        Some(seq![1024usize, 2, 256])
    } else if name == "t-1-2-3-4"@ {
        Some(seq![1usize, 2, 3, 4])
    } else {
        None
    }
}

/// The first shape the environment binds to `name`, if any.
pub open spec fn env_shape(env: Seq<(String, Vec<usize>)>, name: Seq<char>) -> Option<Seq<usize>>
    decreases env.len(),
{
    if env.len() == 0 {
        None
    } else if env[0].0@ == name {
        Some(env[0].1@)
    } else {
        env_shape(env.skip(1), name)
    }
}

/// Skipping entries that do not bind `name` leaves the lookup unchanged.
proof fn lemma_env_shape_skip(env: Seq<(String, Vec<usize>)>, name: Seq<char>, i: int)
    requires
        0 <= i <= env.len(),
        forall|m: int| 0 <= m < i ==> (#[trigger] env[m]).0@ != name,
    ensures
        env_shape(env, name) == env_shape(env.skip(i), name),
    decreases i,
{
    if i > 0 {
        assert(env[0].0@ != name);
        lemma_env_shape_skip(env.skip(1), name, i - 1);
        assert(env.skip(1).skip(i - 1) =~= env.skip(i));
    } else {
        assert(env.skip(0) =~= env);
    }
}

/// The shape of the leaf `name`: the built-in test table first, then the
/// externally supplied environment.
pub open spec fn symbol_shape(env: Seq<(String, Vec<usize>)>, name: Seq<char>) -> Option<
    Seq<usize>,
> {
    match builtin_shape(name) {
        Some(s) => Some(s),
        None => env_shape(env, name),
    }
}

/// A dimension list of one extent.
fn dims1(a: usize) -> (r: Vec<usize>)
    ensures
        r@ == seq![a],
{
    let mut r: Vec<usize> = Vec::new();
    r.push(a);
    proof {
        assert(r@ =~= seq![a]);
    }
    r
}

/// A dimension list of two extents.
fn dims2(a: usize, b: usize) -> (r: Vec<usize>)
    ensures
        r@ == seq![a, b],
{
    let mut r = dims1(a);
    r.push(b);
    proof {
        assert(r@ =~= seq![a, b]);
    }
    r
}

/// A dimension list of three extents.
fn dims3(a: usize, b: usize, c: usize) -> (r: Vec<usize>)
    ensures
        r@ == seq![a, b, c],
{
    let mut r = dims2(a, b);
    r.push(c);
    proof {
        assert(r@ =~= seq![a, b, c]);
    }
    r
}

/// A dimension list of four extents.
fn dims4(a: usize, b: usize, c: usize, d: usize) -> (r: Vec<usize>)
    ensures
        r@ == seq![a, b, c, d],
{
    let mut r = dims3(a, b, c);
    r.push(d);
    proof {
        assert(r@ =~= seq![a, b, c, d]);
    }
    r
}

/// The analysis: its only state is the externally supplied map from tensor
/// names to shapes, consulted for leaf symbols.
#[derive(Debug)]
pub struct MyAnalysis {
    pub name_to_shape: Vec<(String, Vec<usize>)>,
}

impl Default for MyAnalysis {
    /// An analysis with an empty environment.
    fn default() -> (result: Self)
        ensures
            result.name_to_shape@.len() == 0,
    {
        MyAnalysis { name_to_shape: Vec::new() }
    }
}

impl MyAnalysis {
    /// Resolves a leaf name to its shape: the built-in test table first,
    /// then the environment; an unknown name is reported with the name.
    pub fn lookup_shape(&self, name: &String) -> (r: Result<Vec<usize>, AnalysisError>)
        ensures
            match symbol_shape(self.name_to_shape@, name@) {
                Some(s) => r matches Ok(v) && v@ == s,
                None => r matches Err(e) && (e matches AnalysisError::UnknownSymbol(n) && n@
                    == name@),
            },
    {
        let n = name.as_str();
        if str_eq(n, "in") {
            return Ok(dims2(1, 784));
        }
        if str_eq(n, "w1") {
            return Ok(dims2(784, 512));
        }
        if str_eq(n, "w2") {
            return Ok(dims2(512, 512));
        }
        if str_eq(n, "w3") {
            return Ok(dims2(512, 10));
        }
        if str_eq(n, "single-matrix-multiply-input-a") {
            return Ok(dims2(32, 32));
        }
        if str_eq(n, "single-matrix-multiply-input-b") {
            return Ok(dims2(32, 32));
        }
        if str_eq(n, "v-32") {
            return Ok(dims1(32));
        }
        if str_eq(n, "t-32-32") {
            return Ok(dims2(32, 32));
        }
        if str_eq(n, "t-32-64") {
            return Ok(dims2(32, 64));
        }
        if str_eq(n, "t-64-128") {
            return Ok(dims2(64, 128));
        }
        if str_eq(n, "t-128-16") {
            return Ok(dims2(128, 16));
        }
        if str_eq(n, "t-3-32-32") {
            return Ok(dims3(3, 32, 32));
        }
        if str_eq(n, "t-8-3-3-3") {
            return Ok(dims4(8, 3, 3, 3));
        }
        if str_eq(n, "t-1024-2-256") {
            return Ok(dims3(1024, 2, 256));
        }
        if str_eq(n, "t-1-2-3-4") {
            return Ok(dims4(1, 2, 3, 4));
        }
        let mut i: usize = 0;
        while i < self.name_to_shape.len()
            invariant
                i <= self.name_to_shape@.len(),
                n@ == name@,
                builtin_shape(name@) is None,
                forall|m: int|
                    0 <= m < i ==> (#[trigger] self.name_to_shape@[m]).0@ != name@,
            decreases self.name_to_shape@.len() - i,
        {
            let pair: &(String, Vec<usize>) = vec_index(&self.name_to_shape, i);
            if str_eq(pair.0.as_str(), n) {
                proof {
                    lemma_env_shape_skip(self.name_to_shape@, name@, i as int);
                    assert(self.name_to_shape@.skip(i as int)[0] == self.name_to_shape@[i as int]);
                }
                return Ok(copy_dims(&pair.1));
            }
            i = i + 1;
        }
        proof {
            lemma_env_shape_skip(self.name_to_shape@, name@, i as int);
        }
        Err(AnalysisError::UnknownSymbol(n.to_owned()))
    }

    /// The integer held by class `id`; requesting another variant is the
    /// wrong-kind error.
    pub fn get_usize(id: Id, egraph: &Vec<MyAnalysisData>) -> (r: Result<usize, AnalysisError>)
        requires
            id < egraph@.len(),
        ensures
            match usize_of(egraph@[id as int]) {
                Some(u) => r matches Ok(x) && x == u,
                None => r matches Err(e) && e is WrongKind,
            },
    {
        match vec_index(egraph, id) {
            MyAnalysisData::Legacy(l) => match &l.usize_value {
                Some(u) => Ok(*u),
                None => Err(AnalysisError::WrongKind),
            },
            _ => Err(AnalysisError::WrongKind),
        }
    }

    /// The bare tensor shape held by class `id`, as a copy.
    pub fn get_shape(id: Id, egraph: &Vec<MyAnalysisData>) -> (r: Result<Vec<usize>, AnalysisError>)
        requires
            id < egraph@.len(),
        ensures
            match legacy_shape_of(egraph@[id as int]) {
                Some(v) => r matches Ok(x) && x@ == v@,
                None => r matches Err(e) && e is WrongKind,
            },
    {
        match vec_index(egraph, id) {
            MyAnalysisData::Legacy(l) => match &l.shape {
                Some(v) => Ok(copy_dims(v)),
                None => Err(AnalysisError::WrongKind),
            },
            _ => Err(AnalysisError::WrongKind),
        }
    }

    /// The shape value held by class `id`, as a copy.
    pub fn get_shape_of_value(id: Id, egraph: &Vec<MyAnalysisData>) -> (r: Result<
        Vec<usize>,
        AnalysisError,
    >)
        requires
            id < egraph@.len(),
        ensures
            match shape_value_of(egraph@[id as int]) {
                Some(v) => r matches Ok(x) && x@ == v@,
                None => r matches Err(e) && e is WrongKind,
            },
    {
        match vec_index(egraph, id) {
            MyAnalysisData::Shape(sd) => Ok(copy_dims(&sd.shape)),
            _ => Err(AnalysisError::WrongKind),
        }
    }
}

/// The access pattern held by class `id`, borrowed.
fn get_access_ref<'a>(egraph: &'a Vec<MyAnalysisData>, id: Id) -> (r: Result<
    &'a AccessPatternData,
    AnalysisError,
>)
    requires
        id < egraph@.len(),
    ensures
        match access_of(egraph@[id as int]) {
            Some(a) => r matches Ok(x) && *x == a,
            None => r matches Err(e) && e is WrongKind,
        },
{
    match vec_index(egraph, id) {
        MyAnalysisData::AccessPattern(a) => Ok(a),
        _ => Err(AnalysisError::WrongKind),
    }
}

/// The shape value held by class `id`, borrowed.
fn get_shape_value_ref<'a>(egraph: &'a Vec<MyAnalysisData>, id: Id) -> (r: Result<
    &'a Vec<usize>,
    AnalysisError,
>)
    requires
        id < egraph@.len(),
    ensures
        match shape_value_of(egraph@[id as int]) {
            Some(v) => r matches Ok(x) && *x == v,
            None => r matches Err(e) && e is WrongKind,
        },
{
    match vec_index(egraph, id) {
        MyAnalysisData::Shape(sd) => Ok(&sd.shape),
        _ => Err(AnalysisError::WrongKind),
    }
}

/// The bare tensor shape held by class `id`, borrowed.
fn get_legacy_shape_ref<'a>(egraph: &'a Vec<MyAnalysisData>, id: Id) -> (r: Result<
    &'a Vec<usize>,
    AnalysisError,
>)
    requires
        id < egraph@.len(),
    ensures
        match legacy_shape_of(egraph@[id as int]) {
            Some(v) => r matches Ok(x) && *x == v,
            None => r matches Err(e) && e is WrongKind,
        },
{
    match vec_index(egraph, id) {
        MyAnalysisData::Legacy(l) => match &l.shape {
            Some(v) => Ok(v),
            None => Err(AnalysisError::WrongKind),
        },
        _ => Err(AnalysisError::WrongKind),
    }
}

/// The integer list held by class `id`, borrowed.
fn get_list_ref<'a>(egraph: &'a Vec<MyAnalysisData>, id: Id) -> (r: Result<
    &'a Vec<usize>,
    AnalysisError,
>)
    requires
        id < egraph@.len(),
    ensures
        match list_of(egraph@[id as int]) {
            Some(v) => r matches Ok(x) && *x == v,
            None => r matches Err(e) && e is WrongKind,
        },
{
    match vec_index(egraph, id) {
        MyAnalysisData::List(l) => Ok(l),
        _ => Err(AnalysisError::WrongKind),
    }
}

/// The compute type held by class `id`.
fn get_compute_type(egraph: &Vec<MyAnalysisData>, id: Id) -> (r: Result<
    ComputeType,
    AnalysisError,
>)
    requires
        id < egraph@.len(),
    ensures
        match compute_type_of_data(egraph@[id as int]) {
            Some(t) => r matches Ok(x) && x == t,
            None => r matches Err(e) && e is WrongKind,
        },
{
    match vec_index(egraph, id) {
        MyAnalysisData::ComputeType(t) => Ok(*t),
        _ => Err(AnalysisError::WrongKind),
    }
}

/// The pad type held by class `id`.
fn get_pad_type(egraph: &Vec<MyAnalysisData>, id: Id) -> (r: Result<PadType, AnalysisError>)
    requires
        id < egraph@.len(),
    ensures
        match pad_type_of_data(egraph@[id as int]) {
            Some(t) => r matches Ok(x) && x == t,
            None => r matches Err(e) && e is WrongKind,
        },
{
    match vec_index(egraph, id) {
        MyAnalysisData::PadType(t) => Ok(*t),
        _ => Err(AnalysisError::WrongKind),
    }
}

/// The literal bit pattern held by class `id`.
fn get_literal_bits(egraph: &Vec<MyAnalysisData>, id: Id) -> (r: Result<u64, AnalysisError>)
    requires
        id < egraph@.len(),
    ensures
        match literal_of(egraph@[id as int]) {
            Some(b) => r matches Ok(x) && x == b,
            None => r matches Err(e) && e is WrongKind,
        },
{
    match vec_index(egraph, id) {
        MyAnalysisData::Literal(b) => Ok(*b),
        _ => Err(AnalysisError::WrongKind),
    }
}

/// The wrong-kind failure.
pub open spec fn wrong_kind(r: Result<MyAnalysisData, AnalysisError>) -> bool {
    r matches Err(e) && e is WrongKind
}

/// The summary is an access pattern satisfying `f`, or the failure `f`
/// allows.
pub open spec fn wraps_access(
    r: Result<MyAnalysisData, AnalysisError>,
    f: spec_fn(Result<AccessPatternData, AnalysisError>) -> bool,
) -> bool {
    match r {
        Ok(d) => d matches MyAnalysisData::AccessPattern(out) && f(Ok(out)),
        Err(e) => f(Err(e)),
    }
}

/// The summary is a legacy shape satisfying `f`, or the failure `f` allows.
pub open spec fn wraps_legacy_shape(
    r: Result<MyAnalysisData, AnalysisError>,
    f: spec_fn(Result<Vec<usize>, AnalysisError>) -> bool,
) -> bool {
    match r {
        Ok(d) => d matches MyAnalysisData::Legacy(l) && l.usize_value is None && (l.shape matches
            Some(v) && f(Ok(v))),
        Err(e) => f(Err(e)),
    }
}

/// The summary is a shape value satisfying `f`, or the failure `f` allows.
pub open spec fn wraps_shape_value(
    r: Result<MyAnalysisData, AnalysisError>,
    f: spec_fn(Result<Vec<usize>, AnalysisError>) -> bool,
) -> bool {
    match r {
        Ok(d) => d matches MyAnalysisData::Shape(sd) && f(Ok(sd.shape)),
        Err(e) => f(Err(e)),
    }
}

/// The machine-limit side conditions of `make`, per operator: products and
/// sums that the result must represent have to fit in a machine word, the
/// blocked systolic array needs a non-trivial tile, and a float leaf is not
/// NaN.  A condition applies only where the children have the kinds the
/// operator reads.
pub open spec fn make_extra_requires(egraph: Seq<MyAnalysisData>, enode: Language) -> bool {
    match enode {
        Language::AccessFlatten(a) => match access_of(egraph[a as int]) {
            Some(ap) => prods_fit(ap.shape@) && prods_fit(ap.item_shape@),
            None => true,
        },
        Language::AccessReshape(a, t) => match (
            access_of(egraph[a as int]),
            access_of(egraph[t as int]),
        ) {
            (Some(ap), Some(tp)) => prods_fit(ap.shape@) && prods_fit(ap.item_shape@) && prods_fit(
                tp.shape@,
            ) && prods_fit(tp.item_shape@),
            _ => true,
        },
        Language::AccessPad(a, _pt, ax, b, aft) => match (
            access_of(egraph[a as int]),
            usize_of(egraph[ax as int]),
            usize_of(egraph[b as int]),
            usize_of(egraph[aft as int]),
        ) {
            (Some(ap), Some(axis), Some(before), Some(after)) => axis < ap.dims().len()
                ==> ap.dims()[axis as int] + before + after <= usize::MAX,
            _ => true,
        },
        Language::AccessConcatenate(a0, a1, ax) => match (
            access_of(egraph[a0 as int]),
            access_of(egraph[a1 as int]),
            usize_of(egraph[ax as int]),
        ) {
            (Some(x0), Some(x1), Some(axis)) => concat_ok(x0, x1, axis as int)
                ==> x0.dims()[axis as int] + x1.dims()[axis as int] <= usize::MAX,
            _ => true,
        },
        Language::Concatenate(t0, t1, ax) => match (
            legacy_shape_of(egraph[t0 as int]),
            legacy_shape_of(egraph[t1 as int]),
            usize_of(egraph[ax as int]),
        ) {
            (Some(s0), Some(s1), Some(axis)) => (s0@.len() == s1@.len() && axis < s0@.len())
                ==> s0@[axis as int] + s1@[axis as int] <= usize::MAX,
            _ => true,
        },
        Language::AccessWindows(a, f, s) => match (
            access_of(egraph[a as int]),
            shape_value_of(egraph[f as int]),
            shape_value_of(egraph[s as int]),
        ) {
            (Some(ap), Some(fs), Some(ss)) => windows_ok(ap, fs@, ss@) ==> (forall|d: int|
                0 <= d < ap.shape@.len() ==> #[trigger] fs@[d] >= 1 && ss@[d] >= 1 && ap.shape@[d]
                    - fs@[d] + ss@[d] <= usize::MAX),
            _ => true,
        },
        Language::SystolicArrayWithBlocking(rw, cl, _a0, _a1) => match (
            usize_of(egraph[rw as int]),
            usize_of(egraph[cl as int]),
        ) {
            (Some(rows), Some(cols)) => rows >= 1 && cols >= 1,
            _ => true,
        },
        Language::NotNanFloat64(bits) => !f64_bits_is_nan(bits),
        _ => true,
    }
}

/// What `make` returns for every node: for each operator, the children are
/// read at the kinds the operator expects (anything else is the wrong-kind
/// failure), and the summary or error is exactly what the operator's rule
/// says.
pub open spec fn make_post(
    analysis: MyAnalysis,
    egraph: Seq<MyAnalysisData>,
    enode: Language,
    r: Result<MyAnalysisData, AnalysisError>,
) -> bool {
    match enode {
        Language::MoveAxis(t, s, d) => match (
            legacy_shape_of(egraph[t as int]),
            usize_of(egraph[s as int]),
            usize_of(egraph[d as int]),
        ) {
            (Some(sh), Some(src), Some(dst)) => wraps_legacy_shape(
                r,
                |rr: Result<Vec<usize>, AnalysisError>| move_axis_post(sh@, src, dst, rr),
            ),
            _ => wrong_kind(r),
        },
        Language::CartesianProduct(t0, t1) => match (
            legacy_shape_of(egraph[t0 as int]),
            legacy_shape_of(egraph[t1 as int]),
        ) {
            (Some(s0), Some(s1)) => wraps_legacy_shape(
                r,
                |rr: Result<Vec<usize>, AnalysisError>| cartesian_product_post(s0@, s1@, rr),
            ),
            _ => wrong_kind(r),
        },
        Language::MapDotProduct(t) => match legacy_shape_of(egraph[t as int]) {
            Some(sh) => wraps_legacy_shape(
                r,
                |rr: Result<Vec<usize>, AnalysisError>| map_dot_product_post(sh@, rr),
            ),
            None => wrong_kind(r),
        },
        Language::Slice(t, ax, lo, hi) => match (
            legacy_shape_of(egraph[t as int]),
            usize_of(egraph[ax as int]),
            usize_of(egraph[lo as int]),
            usize_of(egraph[hi as int]),
        ) {
            (Some(sh), Some(axis), Some(low), Some(high)) => wraps_legacy_shape(
                r,
                |rr: Result<Vec<usize>, AnalysisError>| legacy_slice_post(sh@, axis, low, high, rr),
            ),
            _ => wrong_kind(r),
        },
        Language::Concatenate(t0, t1, ax) => match (
            legacy_shape_of(egraph[t0 as int]),
            legacy_shape_of(egraph[t1 as int]),
            usize_of(egraph[ax as int]),
        ) {
            (Some(s0), Some(s1), Some(axis)) => wraps_legacy_shape(
                r,
                |rr: Result<Vec<usize>, AnalysisError>| concatenate_post(s0@, s1@, axis, rr),
            ),
            _ => wrong_kind(r),
        },
        Language::ElementwiseAdd(t0, t1) => match (
            legacy_shape_of(egraph[t0 as int]),
            legacy_shape_of(egraph[t1 as int]),
        ) {
            (Some(s0), Some(s1)) => wraps_legacy_shape(
                r,
                |rr: Result<Vec<usize>, AnalysisError>| elementwise_add_post(s0@, s1@, rr),
            ),
            _ => wrong_kind(r),
        },
        Language::BsgSystolicArray(rw, cl, t0, t1) => match (
            usize_of(egraph[rw as int]),
            usize_of(egraph[cl as int]),
            legacy_shape_of(egraph[t0 as int]),
            legacy_shape_of(egraph[t1 as int]),
        ) {
            (Some(_rows), Some(_cols), Some(s0), Some(s1)) => wraps_legacy_shape(
                r,
                |rr: Result<Vec<usize>, AnalysisError>| bsg_systolic_array_post(s0@, s1@, rr),
            ),
            _ => wrong_kind(r),
        },
        Language::SystolicArray(rw, cl, a0, a1) => match (
            usize_of(egraph[rw as int]),
            usize_of(egraph[cl as int]),
            access_of(egraph[a0 as int]),
            access_of(egraph[a1 as int]),
        ) {
            (Some(rows), Some(cols), Some(x0), Some(x1)) => wraps_access(
                r,
                |rr: Result<AccessPatternData, AnalysisError>| systolic_array_post(
                    rows,
                    cols,
                    x0,
                    x1,
                    rr,
                ),
            ),
            _ => wrong_kind(r),
        },
        Language::SystolicArrayWithBlocking(rw, cl, a0, a1) => match (
            usize_of(egraph[rw as int]),
            usize_of(egraph[cl as int]),
            access_of(egraph[a0 as int]),
            access_of(egraph[a1 as int]),
        ) {
            (Some(rows), Some(cols), Some(x0), Some(x1)) => wraps_access(
                r,
                |rr: Result<AccessPatternData, AnalysisError>| systolic_array_with_blocking_post(
                    rows,
                    cols,
                    x0,
                    x1,
                    rr,
                ),
            ),
            _ => wrong_kind(r),
        },
        Language::AccessWindows(a, f, s) => match (
            access_of(egraph[a as int]),
            shape_value_of(egraph[f as int]),
            shape_value_of(egraph[s as int]),
        ) {
            (Some(ap), Some(fs), Some(ss)) => wraps_access(
                r,
                |rr: Result<AccessPatternData, AnalysisError>| access_windows_post(
                    ap,
                    fs@,
                    ss@,
                    rr,
                ),
            ),
            _ => wrong_kind(r),
        },
        Language::ShapeOf(t) => match legacy_shape_of(egraph[t as int]) {
            Some(v) => r matches Ok(d) && (d matches MyAnalysisData::Shape(sd) && sd.shape@ == v@),
            None => wrong_kind(r),
        },
        Language::SliceShape(s, dim) => match (
            shape_value_of(egraph[s as int]),
            usize_of(egraph[dim as int]),
        ) {
            (Some(v), Some(d)) => wraps_shape_value(
                r,
                |rr: Result<Vec<usize>, AnalysisError>| slice_shape_post(v@, d, rr),
            ),
            _ => wrong_kind(r),
        },
        Language::ShapeInsertAxis(s, dim) => match (
            shape_value_of(egraph[s as int]),
            usize_of(egraph[dim as int]),
        ) {
            (Some(v), Some(d)) => wraps_shape_value(
                r,
                |rr: Result<Vec<usize>, AnalysisError>| shape_insert_axis_post(v@, d, rr),
            ),
            _ => wrong_kind(r),
        },
        Language::ShapeRemoveAxis(s, dim) => match (
            shape_value_of(egraph[s as int]),
            usize_of(egraph[dim as int]),
        ) {
            (Some(v), Some(d)) => wraps_shape_value(
                r,
                |rr: Result<Vec<usize>, AnalysisError>| shape_remove_axis_post(v@, d, rr),
            ),
            _ => wrong_kind(r),
        },
        Language::Access(a, dim) => match (
            access_of(egraph[a as int]),
            usize_of(egraph[dim as int]),
        ) {
            (Some(ap), Some(d)) => wraps_access(
                r,
                |rr: Result<AccessPatternData, AnalysisError>| access_post(ap, d, rr),
            ),
            _ => wrong_kind(r),
        },
        Language::AccessTranspose(a, l) => match (
            access_of(egraph[a as int]),
            list_of(egraph[l as int]),
        ) {
            (Some(ap), Some(ls)) => wraps_access(
                r,
                |rr: Result<AccessPatternData, AnalysisError>| access_transpose_post(ap, ls@, rr),
            ),
            _ => wrong_kind(r),
        },
        Language::AccessCartesianProduct(a0, a1) => match (
            access_of(egraph[a0 as int]),
            access_of(egraph[a1 as int]),
        ) {
            (Some(x0), Some(x1)) => wraps_access(
                r,
                |rr: Result<AccessPatternData, AnalysisError>| access_cartesian_product_post(
                    x0,
                    x1,
                    rr,
                ),
            ),
            _ => wrong_kind(r),
        },
        Language::Compute(ct, a) => match (
            compute_type_of_data(egraph[ct as int]),
            access_of(egraph[a as int]),
        ) {
            (Some(t), Some(ap)) => wraps_access(
                r,
                |rr: Result<AccessPatternData, AnalysisError>| compute_post(t, ap, rr),
            ),
            _ => wrong_kind(r),
        },
        Language::AccessReshape(a, t) => match (
            access_of(egraph[a as int]),
            access_of(egraph[t as int]),
        ) {
            (Some(ap), Some(tp)) => wraps_access(
                r,
                |rr: Result<AccessPatternData, AnalysisError>| access_reshape_post(ap, tp, rr),
            ),
            _ => wrong_kind(r),
        },
        Language::AccessFlatten(a) => match access_of(egraph[a as int]) {
            Some(ap) => r matches Ok(d) && (d matches MyAnalysisData::AccessPattern(out)
                && access_flatten_post(ap, out)),
            None => wrong_kind(r),
        },
        Language::Shape(ids) => {
            if forall|i: int|
                0 <= i < ids@.len() ==> usize_of(#[trigger] egraph[ids@[i] as int]) is Some {
                r matches Ok(d) && (d matches MyAnalysisData::Shape(sd) && sd.shape@.len()
                    == ids@.len() && forall|i: int|
                    0 <= i < ids@.len() ==> #[trigger] sd.shape@[i] == usize_of(
                        egraph[ids@[i] as int],
                    )->Some_0)
            } else {
                wrong_kind(r)
            }
        },
        Language::List(ids) => {
            if forall|i: int|
                0 <= i < ids@.len() ==> usize_of(#[trigger] egraph[ids@[i] as int]) is Some {
                r matches Ok(d) && (d matches MyAnalysisData::List(l) && l@.len() == ids@.len()
                    && forall|i: int|
                    0 <= i < ids@.len() ==> #[trigger] l@[i] == usize_of(
                        egraph[ids@[i] as int],
                    )->Some_0)
            } else {
                wrong_kind(r)
            }
        },
        Language::AccessShape(s, i) => match (
            shape_value_of(egraph[s as int]),
            shape_value_of(egraph[i as int]),
        ) {
            (Some(sv), Some(iv)) => r matches Ok(d) && (d matches MyAnalysisData::AccessPattern(
                out,
            ) && out.shape@ == sv@ && out.item_shape@ == iv@ && out.no_zero_info() && out.wf()),
            _ => wrong_kind(r),
        },
        Language::AccessSlice(a, ax, lo, hi) => match (
            access_of(egraph[a as int]),
            usize_of(egraph[ax as int]),
            usize_of(egraph[lo as int]),
            usize_of(egraph[hi as int]),
        ) {
            (Some(ap), Some(axis), Some(low), Some(high)) => wraps_access(
                r,
                |rr: Result<AccessPatternData, AnalysisError>| access_slice_post(
                    ap,
                    axis,
                    low,
                    high,
                    rr,
                ),
            ),
            _ => wrong_kind(r),
        },
        Language::AccessConcatenate(a0, a1, ax) => match (
            access_of(egraph[a0 as int]),
            access_of(egraph[a1 as int]),
            usize_of(egraph[ax as int]),
        ) {
            (Some(x0), Some(x1), Some(axis)) => wraps_access(
                r,
                |rr: Result<AccessPatternData, AnalysisError>| access_concatenate_post(
                    x0,
                    x1,
                    axis,
                    rr,
                ),
            ),
            _ => wrong_kind(r),
        },
        Language::AccessPair(a0, a1) => match (
            access_of(egraph[a0 as int]),
            access_of(egraph[a1 as int]),
        ) {
            (Some(x0), Some(x1)) => wraps_access(
                r,
                |rr: Result<AccessPatternData, AnalysisError>| access_pair_post(x0, x1, rr),
            ),
            _ => wrong_kind(r),
        },
        Language::AccessShiftRight(a) => match access_of(egraph[a as int]) {
            Some(ap) => r matches Ok(d) && (d matches MyAnalysisData::AccessPattern(out)
                && access_shift_right_post(ap, out)),
            None => wrong_kind(r),
        },
        Language::AccessTensor(t) => match legacy_shape_of(egraph[t as int]) {
            Some(v) => r matches Ok(d) && (d matches MyAnalysisData::AccessPattern(out)
                && access_tensor_post(v@, out)),
            None => wrong_kind(r),
        },
        Language::AccessPad(a, pt, ax, b, aft) => match (
            access_of(egraph[a as int]),
            pad_type_of_data(egraph[pt as int]),
            usize_of(egraph[ax as int]),
            usize_of(egraph[b as int]),
            usize_of(egraph[aft as int]),
        ) {
            (Some(ap), Some(p), Some(axis), Some(before), Some(after)) => wraps_access(
                r,
                |rr: Result<AccessPatternData, AnalysisError>| access_pad_post(
                    ap,
                    p,
                    axis,
                    before,
                    after,
                    rr,
                ),
            ),
            _ => wrong_kind(r),
        },
        Language::AccessSqueeze(a, ax) => match (
            access_of(egraph[a as int]),
            usize_of(egraph[ax as int]),
        ) {
            (Some(ap), Some(axis)) => wraps_access(
                r,
                |rr: Result<AccessPatternData, AnalysisError>| access_squeeze_post(ap, axis, rr),
            ),
            _ => wrong_kind(r),
        },
        Language::AccessInsertAxis(a, ax) => match (
            access_of(egraph[a as int]),
            usize_of(egraph[ax as int]),
        ) {
            (Some(ap), Some(axis)) => wraps_access(
                r,
                |rr: Result<AccessPatternData, AnalysisError>| access_insert_axis_post(
                    ap,
                    axis,
                    rr,
                ),
            ),
            _ => wrong_kind(r),
        },
        Language::AccessBroadcast(a, t) => match (
            access_of(egraph[a as int]),
            access_of(egraph[t as int]),
        ) {
            (Some(ap), Some(tp)) => wraps_access(
                r,
                |rr: Result<AccessPatternData, AnalysisError>| access_broadcast_post(ap, tp, rr),
            ),
            _ => wrong_kind(r),
        },
        Language::AccessLiteral(l) => match literal_of(egraph[l as int]) {
            Some(_bits) => r matches Ok(d) && (d matches MyAnalysisData::AccessPattern(out)
                && out.shape@.len() == 0 && out.item_shape@.len() == 0 && out.no_zero_info()
                && out.wf()),
            None => wrong_kind(r),
        },
        Language::Literal(l) => match literal_of(egraph[l as int]) {
            Some(bits) => r matches Ok(d) && (d matches MyAnalysisData::Literal(b) && b == bits),
            None => wrong_kind(r),
        },
        Language::Usize(u) => r matches Ok(d) && (d matches MyAnalysisData::Legacy(l)
            && l.shape is None && l.usize_value == Some(u)),
        Language::NotNanFloat64(bits) => r matches Ok(d) && (d matches MyAnalysisData::Literal(b)
            && b == bits),
        Language::PadType(p) => r matches Ok(d) && (d matches MyAnalysisData::PadType(q) && q
            == p),
        Language::ComputeType(c) => r matches Ok(d) && (d matches MyAnalysisData::ComputeType(q)
            && q == c),
        Language::Symbol(name) => match symbol_shape(analysis.name_to_shape@, name@) {
            Some(s) => r matches Ok(d) && (d matches MyAnalysisData::Legacy(l)
                && l.usize_value is None && (l.shape matches Some(v) && v@ == s)),
            None => r matches Err(e) && (e matches AnalysisError::UnknownSymbol(n) && n@
                == name@),
        },
    }
}

/// The integers held by the classes of `ids`, or the wrong-kind failure if
/// one of them holds something else.
fn collect_usizes(egraph: &Vec<MyAnalysisData>, ids: &Vec<Id>) -> (r: Result<
    Vec<usize>,
    AnalysisError,
>)
    requires
        forall|i: int| 0 <= i < ids@.len() ==> #[trigger] ids@[i] < egraph@.len(),
    ensures
        (forall|i: int|
            0 <= i < ids@.len() ==> usize_of(#[trigger] egraph@[ids@[i] as int]) is Some) ==> (
        r matches Ok(v) && v@.len() == ids@.len() && forall|i: int|
            0 <= i < ids@.len() ==> #[trigger] v@[i] == usize_of(
                egraph@[ids@[i] as int],
            )->Some_0),
        !(forall|i: int|
            0 <= i < ids@.len() ==> usize_of(#[trigger] egraph@[ids@[i] as int]) is Some) ==> (
        r matches Err(e) && e is WrongKind),
{
    let mut vals: Vec<usize> = Vec::new();
    let mut i: usize = 0;
    while i < ids.len()
        invariant
            i <= ids@.len(),
            forall|m: int| 0 <= m < ids@.len() ==> #[trigger] ids@[m] < egraph@.len(),
            vals@.len() == i as int,
            forall|m: int|
                0 <= m < i ==> usize_of(#[trigger] egraph@[ids@[m] as int]) is Some,
            forall|m: int|
                0 <= m < i ==> #[trigger] vals@[m] == usize_of(egraph@[ids@[m] as int])->Some_0,
        decreases ids@.len() - i,
    {
        match MyAnalysis::get_usize(ids[i], egraph) {
            Ok(u) => {
                vals.push(u);
            },
            Err(e) => {
                return Err(e);
            },
        }
        i = i + 1;
    }
    Ok(vals)
}

impl MyAnalysis {
    /// The summary of `enode`, derived from its children's summaries.
    ///
    /// Every identifier of `enode` must address a class of the table, and
    /// the stored summaries must be well formed; the conditions of
    /// [`make_extra_requires`] keep the derived extents representable.  The
    /// result is exactly what [`make_post`] states for the node, and a
    /// successful summary is well formed in turn: every recorded cover fits
    /// its axis.
    pub fn make(&self, egraph: &Vec<MyAnalysisData>, enode: &Language) -> (r: Result<
        MyAnalysisData,
        AnalysisError,
    >)
        requires
            ids_valid(*enode, egraph@.len() as int),
            forall|i: int| 0 <= i < egraph@.len() ==> data_wf(#[trigger] egraph@[i]),
            make_extra_requires(egraph@, *enode),
        ensures
            make_post(*self, egraph@, *enode, r),
            r matches Ok(d) ==> data_wf(d),
    {
        match enode {
            Language::MoveAxis(t, s, d) => {
                let sh = match get_legacy_shape_ref(egraph, *t) {
                    Ok(v) => v,
                    Err(e) => {
                        return Err(e);
                    },
                };
                let src = match Self::get_usize(*s, egraph) {
                    Ok(u) => u,
                    Err(e) => {
                        return Err(e);
                    },
                };
                let dst = match Self::get_usize(*d, egraph) {
                    Ok(u) => u,
                    Err(e) => {
                        return Err(e);
                    },
                };
                match ops::move_axis(sh, src, dst) {
                    Ok(v) => Ok(
                        MyAnalysisData::Legacy(
                            MyAnalysisDataLegacyData { shape: Some(v), usize_value: None },
                        ),
                    ),
                    Err(e) => Err(e),
                }
            },
            Language::CartesianProduct(t0, t1) => {
                let s0 = match get_legacy_shape_ref(egraph, *t0) {
                    Ok(v) => v,
                    Err(e) => {
                        return Err(e);
                    },
                };
                let s1 = match get_legacy_shape_ref(egraph, *t1) {
                    Ok(v) => v,
                    Err(e) => {
                        return Err(e);
                    },
                };
                match ops::cartesian_product(s0, s1) {
                    Ok(v) => Ok(
                        MyAnalysisData::Legacy(
                            MyAnalysisDataLegacyData { shape: Some(v), usize_value: None },
                        ),
                    ),
                    Err(e) => Err(e),
                }
            },
            Language::MapDotProduct(t) => {
                let sh = match get_legacy_shape_ref(egraph, *t) {
                    Ok(v) => v,
                    Err(e) => {
                        return Err(e);
                    },
                };
                match ops::map_dot_product(sh) {
                    Ok(v) => Ok(
                        MyAnalysisData::Legacy(
                            MyAnalysisDataLegacyData { shape: Some(v), usize_value: None },
                        ),
                    ),
                    Err(e) => Err(e),
                }
            },
            Language::Slice(t, ax, lo, hi) => {
                let sh = match get_legacy_shape_ref(egraph, *t) {
                    Ok(v) => v,
                    Err(e) => {
                        return Err(e);
                    },
                };
                let axis = match Self::get_usize(*ax, egraph) {
                    Ok(u) => u,
                    Err(e) => {
                        return Err(e);
                    },
                };
                let low = match Self::get_usize(*lo, egraph) {
                    Ok(u) => u,
                    Err(e) => {
                        return Err(e);
                    },
                };
                let high = match Self::get_usize(*hi, egraph) {
                    Ok(u) => u,
                    Err(e) => {
                        return Err(e);
                    },
                };
                match ops::slice(sh, axis, low, high) {
                    Ok(v) => Ok(
                        MyAnalysisData::Legacy(
                            MyAnalysisDataLegacyData { shape: Some(v), usize_value: None },
                        ),
                    ),
                    Err(e) => Err(e),
                }
            },
            Language::Concatenate(t0, t1, ax) => {
                let s0 = match get_legacy_shape_ref(egraph, *t0) {
                    Ok(v) => v,
                    Err(e) => {
                        return Err(e);
                    },
                };
                let s1 = match get_legacy_shape_ref(egraph, *t1) {
                    Ok(v) => v,
                    Err(e) => {
                        return Err(e);
                    },
                };
                let axis = match Self::get_usize(*ax, egraph) {
                    Ok(u) => u,
                    Err(e) => {
                        return Err(e);
                    },
                };
                match ops::concatenate(s0, s1, axis) {
                    Ok(v) => Ok(
                        MyAnalysisData::Legacy(
                            MyAnalysisDataLegacyData { shape: Some(v), usize_value: None },
                        ),
                    ),
                    Err(e) => Err(e),
                }
            },
            Language::ElementwiseAdd(t0, t1) => {
                let s0 = match get_legacy_shape_ref(egraph, *t0) {
                    Ok(v) => v,
                    Err(e) => {
                        return Err(e);
                    },
                };
                let s1 = match get_legacy_shape_ref(egraph, *t1) {
                    Ok(v) => v,
                    Err(e) => {
                        return Err(e);
                    },
                };
                match ops::elementwise_add(s0, s1) {
                    Ok(v) => Ok(
                        MyAnalysisData::Legacy(
                            MyAnalysisDataLegacyData { shape: Some(v), usize_value: None },
                        ),
                    ),
                    Err(e) => Err(e),
                }
            },
            Language::BsgSystolicArray(rw, cl, t0, t1) => {
                let _rows = match Self::get_usize(*rw, egraph) {
                    Ok(u) => u,
                    Err(e) => {
                        return Err(e);
                    },
                };
                let _cols = match Self::get_usize(*cl, egraph) {
                    Ok(u) => u,
                    Err(e) => {
                        return Err(e);
                    },
                };
                let s0 = match get_legacy_shape_ref(egraph, *t0) {
                    Ok(v) => v,
                    Err(e) => {
                        return Err(e);
                    },
                };
                let s1 = match get_legacy_shape_ref(egraph, *t1) {
                    Ok(v) => v,
                    Err(e) => {
                        return Err(e);
                    },
                };
                match ops::bsg_systolic_array(s0, s1) {
                    Ok(v) => Ok(
                        MyAnalysisData::Legacy(
                            MyAnalysisDataLegacyData { shape: Some(v), usize_value: None },
                        ),
                    ),
                    Err(e) => Err(e),
                }
            },
            Language::SystolicArray(rw, cl, a0, a1) => {
                let rows = match Self::get_usize(*rw, egraph) {
                    Ok(u) => u,
                    Err(e) => {
                        return Err(e);
                    },
                };
                let cols = match Self::get_usize(*cl, egraph) {
                    Ok(u) => u,
                    Err(e) => {
                        return Err(e);
                    },
                };
                let x0 = match get_access_ref(egraph, *a0) {
                    Ok(a) => a,
                    Err(e) => {
                        return Err(e);
                    },
                };
                let x1 = match get_access_ref(egraph, *a1) {
                    Ok(a) => a,
                    Err(e) => {
                        return Err(e);
                    },
                };
                match ops::systolic_array(rows, cols, x0, x1) {
                    Ok(out) => Ok(MyAnalysisData::AccessPattern(out)),
                    Err(e) => Err(e),
                }
            },
            Language::SystolicArrayWithBlocking(rw, cl, a0, a1) => {
                let rows = match Self::get_usize(*rw, egraph) {
                    Ok(u) => u,
                    Err(e) => {
                        return Err(e);
                    },
                };
                let cols = match Self::get_usize(*cl, egraph) {
                    Ok(u) => u,
                    Err(e) => {
                        return Err(e);
                    },
                };
                let x0 = match get_access_ref(egraph, *a0) {
                    Ok(a) => a,
                    Err(e) => {
                        return Err(e);
                    },
                };
                let x1 = match get_access_ref(egraph, *a1) {
                    Ok(a) => a,
                    Err(e) => {
                        return Err(e);
                    },
                };
                match ops::systolic_array_with_blocking(rows, cols, x0, x1) {
                    Ok(out) => Ok(MyAnalysisData::AccessPattern(out)),
                    Err(e) => Err(e),
                }
            },
            Language::AccessWindows(a, f, s) => {
                let ap = match get_access_ref(egraph, *a) {
                    Ok(x) => x,
                    Err(e) => {
                        return Err(e);
                    },
                };
                let fs = match get_shape_value_ref(egraph, *f) {
                    Ok(v) => v,
                    Err(e) => {
                        return Err(e);
                    },
                };
                let ss = match get_shape_value_ref(egraph, *s) {
                    Ok(v) => v,
                    Err(e) => {
                        return Err(e);
                    },
                };
                match ops::access_windows(ap, fs, ss) {
                    Ok(out) => Ok(MyAnalysisData::AccessPattern(out)),
                    Err(e) => Err(e),
                }
            },
            Language::ShapeOf(t) => {
                let sh = match get_legacy_shape_ref(egraph, *t) {
                    Ok(v) => v,
                    Err(e) => {
                        return Err(e);
                    },
                };
                Ok(MyAnalysisData::Shape(ShapeData { shape: copy_dims(sh) }))
            },
            Language::SliceShape(s, dim) => {
                let sh = match get_shape_value_ref(egraph, *s) {
                    Ok(v) => v,
                    Err(e) => {
                        return Err(e);
                    },
                };
                let d = match Self::get_usize(*dim, egraph) {
                    Ok(u) => u,
                    Err(e) => {
                        return Err(e);
                    },
                };
                match ops::slice_shape(sh, d) {
                    Ok(v) => Ok(MyAnalysisData::Shape(ShapeData { shape: v })),
                    Err(e) => Err(e),
                }
            },
            Language::ShapeInsertAxis(s, dim) => {
                let sh = match get_shape_value_ref(egraph, *s) {
                    Ok(v) => v,
                    Err(e) => {
                        return Err(e);
                    },
                };
                let d = match Self::get_usize(*dim, egraph) {
                    Ok(u) => u,
                    Err(e) => {
                        return Err(e);
                    },
                };
                match ops::shape_insert_axis(sh, d) {
                    Ok(v) => Ok(MyAnalysisData::Shape(ShapeData { shape: v })),
                    Err(e) => Err(e),
                }
            },
            Language::ShapeRemoveAxis(s, dim) => {
                let sh = match get_shape_value_ref(egraph, *s) {
                    Ok(v) => v,
                    Err(e) => {
                        return Err(e);
                    },
                };
                let d = match Self::get_usize(*dim, egraph) {
                    Ok(u) => u,
                    Err(e) => {
                        return Err(e);
                    },
                };
                match ops::shape_remove_axis(sh, d) {
                    Ok(v) => Ok(MyAnalysisData::Shape(ShapeData { shape: v })),
                    Err(e) => Err(e),
                }
            },
            Language::Access(a, dim) => {
                let ap = match get_access_ref(egraph, *a) {
                    Ok(x) => x,
                    Err(e) => {
                        return Err(e);
                    },
                };
                let d = match Self::get_usize(*dim, egraph) {
                    Ok(u) => u,
                    Err(e) => {
                        return Err(e);
                    },
                };
                match ops::access(ap, d) {
                    Ok(out) => Ok(MyAnalysisData::AccessPattern(out)),
                    Err(e) => Err(e),
                }
            },
            Language::AccessTranspose(a, l) => {
                let ap = match get_access_ref(egraph, *a) {
                    Ok(x) => x,
                    Err(e) => {
                        return Err(e);
                    },
                };
                let ls = match get_list_ref(egraph, *l) {
                    Ok(v) => v,
                    Err(e) => {
                        return Err(e);
                    },
                };
                match ops::access_transpose(ap, ls) {
                    Ok(out) => Ok(MyAnalysisData::AccessPattern(out)),
                    Err(e) => Err(e),
                }
            },
            Language::AccessCartesianProduct(a0, a1) => {
                let x0 = match get_access_ref(egraph, *a0) {
                    Ok(a) => a,
                    Err(e) => {
                        return Err(e);
                    },
                };
                let x1 = match get_access_ref(egraph, *a1) {
                    Ok(a) => a,
                    Err(e) => {
                        return Err(e);
                    },
                };
                match ops::access_cartesian_product(x0, x1) {
                    Ok(out) => Ok(MyAnalysisData::AccessPattern(out)),
                    Err(e) => Err(e),
                }
            },
            Language::Compute(ct, a) => {
                let t = match get_compute_type(egraph, *ct) {
                    Ok(t) => t,
                    Err(e) => {
                        return Err(e);
                    },
                };
                let ap = match get_access_ref(egraph, *a) {
                    Ok(x) => x,
                    Err(e) => {
                        return Err(e);
                    },
                };
                match ops::compute(t, ap) {
                    Ok(out) => Ok(MyAnalysisData::AccessPattern(out)),
                    Err(e) => Err(e),
                }
            },
            Language::AccessReshape(a, t) => {
                let ap = match get_access_ref(egraph, *a) {
                    Ok(x) => x,
                    Err(e) => {
                        return Err(e);
                    },
                };
                let tp = match get_access_ref(egraph, *t) {
                    Ok(x) => x,
                    Err(e) => {
                        return Err(e);
                    },
                };
                match ops::access_reshape(ap, tp) {
                    Ok(out) => Ok(MyAnalysisData::AccessPattern(out)),
                    Err(e) => Err(e),
                }
            },
            Language::AccessFlatten(a) => {
                let ap = match get_access_ref(egraph, *a) {
                    Ok(x) => x,
                    Err(e) => {
                        return Err(e);
                    },
                };
                Ok(MyAnalysisData::AccessPattern(ops::access_flatten(ap)))
            },
            Language::Shape(ids) => {
                match collect_usizes(egraph, ids) {
                    Ok(v) => Ok(MyAnalysisData::Shape(ShapeData { shape: v })),
                    Err(e) => Err(e),
                }
            },
            Language::List(ids) => {
                match collect_usizes(egraph, ids) {
                    Ok(v) => Ok(MyAnalysisData::List(v)),
                    Err(e) => Err(e),
                }
            },
            Language::AccessShape(s, i) => {
                let sv = match get_shape_value_ref(egraph, *s) {
                    Ok(v) => v,
                    Err(e) => {
                        return Err(e);
                    },
                };
                let iv = match get_shape_value_ref(egraph, *i) {
                    Ok(v) => v,
                    Err(e) => {
                        return Err(e);
                    },
                };
                Ok(
                    MyAnalysisData::AccessPattern(
                        AccessPatternData {
                            shape: copy_dims(sv),
                            item_shape: copy_dims(iv),
                            zero_regions: Vec::new(),
                        },
                    ),
                )
            },
            Language::AccessSlice(a, ax, lo, hi) => {
                let ap = match get_access_ref(egraph, *a) {
                    Ok(x) => x,
                    Err(e) => {
                        return Err(e);
                    },
                };
                let axis = match Self::get_usize(*ax, egraph) {
                    Ok(u) => u,
                    Err(e) => {
                        return Err(e);
                    },
                };
                let low = match Self::get_usize(*lo, egraph) {
                    Ok(u) => u,
                    Err(e) => {
                        return Err(e);
                    },
                };
                let high = match Self::get_usize(*hi, egraph) {
                    Ok(u) => u,
                    Err(e) => {
                        return Err(e);
                    },
                };
                match ops::access_slice(ap, axis, low, high) {
                    Ok(out) => Ok(MyAnalysisData::AccessPattern(out)),
                    Err(e) => Err(e),
                }
            },
            Language::AccessConcatenate(a0, a1, ax) => {
                let x0 = match get_access_ref(egraph, *a0) {
                    Ok(a) => a,
                    Err(e) => {
                        return Err(e);
                    },
                };
                let x1 = match get_access_ref(egraph, *a1) {
                    Ok(a) => a,
                    Err(e) => {
                        return Err(e);
                    },
                };
                let axis = match Self::get_usize(*ax, egraph) {
                    Ok(u) => u,
                    Err(e) => {
                        return Err(e);
                    },
                };
                match ops::access_concatenate(x0, x1, axis) {
                    Ok(out) => Ok(MyAnalysisData::AccessPattern(out)),
                    Err(e) => Err(e),
                }
            },
            Language::AccessPair(a0, a1) => {
                let x0 = match get_access_ref(egraph, *a0) {
                    Ok(a) => a,
                    Err(e) => {
                        return Err(e);
                    },
                };
                let x1 = match get_access_ref(egraph, *a1) {
                    Ok(a) => a,
                    Err(e) => {
                        return Err(e);
                    },
                };
                match ops::access_pair(x0, x1) {
                    Ok(out) => Ok(MyAnalysisData::AccessPattern(out)),
                    Err(e) => Err(e),
                }
            },
            Language::AccessShiftRight(a) => {
                let ap = match get_access_ref(egraph, *a) {
                    Ok(x) => x,
                    Err(e) => {
                        return Err(e);
                    },
                };
                Ok(MyAnalysisData::AccessPattern(ops::access_shift_right(ap)))
            },
            Language::AccessTensor(t) => {
                let sh = match get_legacy_shape_ref(egraph, *t) {
                    Ok(v) => v,
                    Err(e) => {
                        return Err(e);
                    },
                };
                Ok(MyAnalysisData::AccessPattern(ops::access_tensor(sh)))
            },
            Language::AccessPad(a, pt, ax, b, aft) => {
                let ap = match get_access_ref(egraph, *a) {
                    Ok(x) => x,
                    Err(e) => {
                        return Err(e);
                    },
                };
                let p = match get_pad_type(egraph, *pt) {
                    Ok(p) => p,
                    Err(e) => {
                        return Err(e);
                    },
                };
                let axis = match Self::get_usize(*ax, egraph) {
                    Ok(u) => u,
                    Err(e) => {
                        return Err(e);
                    },
                };
                let before = match Self::get_usize(*b, egraph) {
                    Ok(u) => u,
                    Err(e) => {
                        return Err(e);
                    },
                };
                let after = match Self::get_usize(*aft, egraph) {
                    Ok(u) => u,
                    Err(e) => {
                        return Err(e);
                    },
                };
                match ops::access_pad(ap, p, axis, before, after) {
                    Ok(out) => Ok(MyAnalysisData::AccessPattern(out)),
                    Err(e) => Err(e),
                }
            },
            Language::AccessSqueeze(a, ax) => {
                let ap = match get_access_ref(egraph, *a) {
                    Ok(x) => x,
                    Err(e) => {
                        return Err(e);
                    },
                };
                let axis = match Self::get_usize(*ax, egraph) {
                    Ok(u) => u,
                    Err(e) => {
                        return Err(e);
                    },
                };
                match ops::access_squeeze(ap, axis) {
                    Ok(out) => Ok(MyAnalysisData::AccessPattern(out)),
                    Err(e) => Err(e),
                }
            },
            Language::AccessInsertAxis(a, ax) => {
                let ap = match get_access_ref(egraph, *a) {
                    Ok(x) => x,
                    Err(e) => {
                        return Err(e);
                    },
                };
                let axis = match Self::get_usize(*ax, egraph) {
                    Ok(u) => u,
                    Err(e) => {
                        return Err(e);
                    },
                };
                match ops::access_insert_axis(ap, axis) {
                    Ok(out) => Ok(MyAnalysisData::AccessPattern(out)),
                    Err(e) => Err(e),
                }
            },
            Language::AccessBroadcast(a, t) => {
                let ap = match get_access_ref(egraph, *a) {
                    Ok(x) => x,
                    Err(e) => {
                        return Err(e);
                    },
                };
                let tp = match get_access_ref(egraph, *t) {
                    Ok(x) => x,
                    Err(e) => {
                        return Err(e);
                    },
                };
                match ops::access_broadcast(ap, tp) {
                    Ok(out) => Ok(MyAnalysisData::AccessPattern(out)),
                    Err(e) => Err(e),
                }
            },
            Language::AccessLiteral(l) => {
                let _bits = match get_literal_bits(egraph, *l) {
                    Ok(b) => b,
                    Err(e) => {
                        return Err(e);
                    },
                };
                Ok(
                    MyAnalysisData::AccessPattern(
                        AccessPatternData {
                            shape: Vec::new(),
                            item_shape: Vec::new(),
                            zero_regions: Vec::new(),
                        },
                    ),
                )
            },
            Language::Literal(l) => {
                match get_literal_bits(egraph, *l) {
                    Ok(b) => Ok(MyAnalysisData::Literal(b)),
                    Err(e) => Err(e),
                }
            },
            Language::Usize(u) => Ok(
                MyAnalysisData::Legacy(
                    MyAnalysisDataLegacyData { shape: None, usize_value: Some(*u) },
                ),
            ),
            Language::NotNanFloat64(bits) => Ok(MyAnalysisData::Literal(*bits)),
            Language::PadType(p) => Ok(MyAnalysisData::PadType(*p)),
            Language::ComputeType(c) => Ok(MyAnalysisData::ComputeType(*c)),
            Language::Symbol(name) => {
                match self.lookup_shape(name) {
                    Ok(v) => Ok(
                        MyAnalysisData::Legacy(
                            MyAnalysisDataLegacyData { shape: Some(v), usize_value: None },
                        ),
                    ),
                    Err(e) => Err(e),
                }
            },
        }
    }
}

/// Whether the cover marks index `i` as zero.  An absent cover marks
/// nothing.
pub open spec fn cover_marks(o: Option<Seq<bool>>, i: int) -> bool {
    match o {
        Some(c) => 0 <= i < c.len() && c[i],
        None => false,
    }
}

/// The bitwise-implication order on covers: everything `a` marks, `b` marks
/// too.
pub open spec fn cover_leq(a: Option<Seq<bool>>, b: Option<Seq<bool>>) -> bool {
    forall|i: int| #[trigger] cover_marks(a, i) ==> cover_marks(b, i)
}

/// The position-wise disjunction of two covers, the shorter one extended
/// with `false`.
pub open spec fn or_longest(t: Seq<bool>, f: Seq<bool>) -> Seq<bool> {
    Seq::new(
        if t.len() >= f.len() {
            t.len()
        } else {
            f.len()
        },
        |i: int| (0 <= i < t.len() && t[i]) || (0 <= i < f.len() && f[i]),
    )
}

/// Whether the incoming cover `f` marks an index the present cover `t` does
/// not: only then does a merge change anything.
pub open spec fn cover_needs_merge(t: Seq<bool>, f: Seq<bool>) -> bool {
    exists|i: int| 0 <= i < f.len() && #[trigger] f[i] && !(i < t.len() && t[i])
}

/// The cover an axis holds after a merge: an incoming cover that marks
/// nothing is skipped; otherwise it is adopted where the axis had none, and
/// joined position-wise where it had one and the incoming cover adds
/// information.
pub open spec fn merged_cover(to: Option<Seq<bool>>, from: Option<Seq<bool>>) -> Option<
    Seq<bool>,
> {
    match from {
        None => to,
        Some(f) => if !ops::has_true(f) {
            to
        } else {
            match to {
                None => Some(f),
                Some(t) => if cover_needs_merge(t, f) {
                    Some(or_longest(t, f))
                } else {
                    Some(t)
                },
            }
        },
    }
}

/// Whether merging `from` into `to` changes the axis.
pub open spec fn merge_changed_at(to: Option<Seq<bool>>, from: Option<Seq<bool>>) -> bool {
    match from {
        None => false,
        Some(f) => ops::has_true(f) && (match to {
            None => true,
            Some(t) => cover_needs_merge(t, f),
        }),
    }
}

/// Whether two summaries are of the same variant.
pub open spec fn same_variant(a: MyAnalysisData, b: MyAnalysisData) -> bool {
    match (a, b) {
        (MyAnalysisData::Literal(_), MyAnalysisData::Literal(_)) => true,
        (MyAnalysisData::Legacy(_), MyAnalysisData::Legacy(_)) => true,
        (MyAnalysisData::AccessPattern(_), MyAnalysisData::AccessPattern(_)) => true,
        (MyAnalysisData::Shape(_), MyAnalysisData::Shape(_)) => true,
        (MyAnalysisData::ComputeType(_), MyAnalysisData::ComputeType(_)) => true,
        (MyAnalysisData::PadType(_), MyAnalysisData::PadType(_)) => true,
        (MyAnalysisData::List(_), MyAnalysisData::List(_)) => true,
        _ => false,
    }
}

/// What `merge` does, given the old target, the incoming summary, the new
/// target, and the reported result.  Two access patterns must agree on
/// their shapes; then every axis takes the join of its covers, and `true`
/// comes back exactly when some axis strictly gained information.  Other
/// summaries must be equal; the target never changes for them.
pub open spec fn merge_post(
    to0: MyAnalysisData,
    from: MyAnalysisData,
    to1: MyAnalysisData,
    r: Result<bool, AnalysisError>,
) -> bool {
    match (to0, from) {
        (MyAnalysisData::AccessPattern(t), MyAnalysisData::AccessPattern(f)) => {
            if t.shape@ == f.shape@ && t.item_shape@ == f.item_shape@ {
                &&& r matches Ok(changed) && changed == (exists|axis: int|
                    merge_changed_at(t.zr_at(axis), #[trigger] f.zr_at(axis)))
                &&& to1 matches MyAnalysisData::AccessPattern(nt) && nt.shape@ == t.shape@
                    && nt.item_shape@ == t.item_shape@ && (forall|axis: int|
                    #[trigger] nt.zr_at(axis) == merged_cover(t.zr_at(axis), f.zr_at(axis)))
                    && nt.wf()
            } else {
                r matches Err(e) && e is ShapeMismatch && to1 == to0
            }
        },
        (a, b) => {
            if !same_variant(a, b) {
                r matches Err(e) && e is WrongKind && to1 == to0
            } else if crate::language::data::data_equal(a, b) {
                r matches Ok(ch) && ch == false && to1 == to0
            } else {
                r matches Err(e) && e is ShapeMismatch && to1 == to0
            }
        },
    }
}

/// Whether the incoming cover bitmap adds a marked index to the present
/// one.
fn cover_needs_merge_vec(t: &Vec<bool>, f: &Vec<bool>) -> (r: bool)
    ensures
        r == cover_needs_merge(t@, f@),
{
    let mut i: usize = 0;
    while i < f.len()
        invariant
            i <= f@.len(),
            forall|m: int| 0 <= m < i ==> !(#[trigger] f@[m] && !(m < t@.len() && t@[m])),
        decreases f@.len() - i,
    {
        if f[i] && !(i < t.len() && t[i]) {
            return true;
        }
        i = i + 1;
    }
    false
}

/// The position-wise disjunction of two cover bitmaps.
fn or_longest_vec(t: &Vec<bool>, f: &Vec<bool>) -> (r: Vec<bool>)
    ensures
        r@ == or_longest(t@, f@),
{
    let n = if t.len() >= f.len() {
        t.len()
    } else {
        f.len()
    };
    let mut r: Vec<bool> = Vec::new();
    let mut i: usize = 0;
    while i < n
        invariant
            i <= n,
            n == (if t@.len() >= f@.len() {
                t@.len() as int
            } else {
                f@.len() as int
            }),
            r@.len() == i as int,
            forall|m: int|
                0 <= m < i ==> #[trigger] r@[m] == ((m < t@.len() && t@[m]) || (m < f@.len()
                    && f@[m])),
        decreases n - i,
    {
        r.push((i < t.len() && t[i]) || (i < f.len() && f[i]));
        i = i + 1;
    }
    proof {
        assert(r@ =~= or_longest(t@, f@));
    }
    r
}

/// Merges the zero regions of `f` into a copy of `t`; the shapes must
/// already agree.  Returns the merged pattern and whether it differs from
/// `t`.
fn merge_access(t: &AccessPatternData, f: &AccessPatternData) -> (res: (AccessPatternData, bool))
    requires
        t.wf(),
        f.wf(),
        t.shape@ == f.shape@,
        t.item_shape@ == f.item_shape@,
    ensures
        res.0.shape@ == t.shape@,
        res.0.item_shape@ == t.item_shape@,
        forall|axis: int|
            #[trigger] res.0.zr_at(axis) == merged_cover(t.zr_at(axis), f.zr_at(axis)),
        res.1 == (exists|axis: int|
            merge_changed_at(t.zr_at(axis), #[trigger] f.zr_at(axis))),
        res.0.wf(),
{
    let mut nt = ops::copy_access(t);
    proof {
        assert forall|ax: int| #[trigger] nt.zr_at(ax) == t.zr_at(ax) by {
            if 0 <= ax < nt.zero_regions@.len() {
                assert(crate::language::data::cover_view(nt.zero_regions@[ax]) == t.zr_at(ax));
            }
        }
    }
    while nt.zero_regions.len() < f.zero_regions.len()
        invariant
            nt.shape@ == t.shape@,
            nt.item_shape@ == t.item_shape@,
            nt.zero_regions@.len() >= t.zero_regions@.len(),
            nt.zero_regions@.len() <= (if t.zero_regions@.len() >= f.zero_regions@.len() {
                t.zero_regions@.len() as int
            } else {
                f.zero_regions@.len() as int
            }),
            forall|ax: int| #[trigger] nt.zr_at(ax) == t.zr_at(ax),
        decreases f.zero_regions@.len() - nt.zero_regions.len(),
    {
        let ghost pre = nt;
        nt.zero_regions.push(None);
        proof {
            assert forall|ax: int| #[trigger] nt.zr_at(ax) == t.zr_at(ax) by {
                if ax == nt.zero_regions@.len() - 1 {
                    assert(nt.zr_at(ax) is None);
                    assert(t.zr_at(ax) is None);
                } else {
                    assert(nt.zr_at(ax) == pre.zr_at(ax));
                }
            }
        }
    }
    let mut changed = false;
    let mut axis: usize = 0;
    while axis < f.zero_regions.len()
        invariant
            axis <= f.zero_regions@.len(),
            t.wf(),
            f.wf(),
            t.shape@ == f.shape@,
            t.item_shape@ == f.item_shape@,
            nt.shape@ == t.shape@,
            nt.item_shape@ == t.item_shape@,
            f.zero_regions@.len() <= nt.zero_regions@.len(),
            nt.zero_regions@.len() >= t.zero_regions@.len(),
            nt.zero_regions@.len() <= (if t.zero_regions@.len() >= f.zero_regions@.len() {
                t.zero_regions@.len() as int
            } else {
                f.zero_regions@.len() as int
            }),
            forall|ax: int|
                0 <= ax < axis ==> #[trigger] nt.zr_at(ax) == merged_cover(
                    t.zr_at(ax),
                    f.zr_at(ax),
                ),
            forall|ax: int| ax >= axis ==> #[trigger] nt.zr_at(ax) == t.zr_at(ax),
            forall|ax: int| ax < 0 ==> #[trigger] nt.zr_at(ax) == t.zr_at(ax),
            changed == (exists|ax: int|
                0 <= ax < axis && merge_changed_at(t.zr_at(ax), #[trigger] f.zr_at(ax))),
        decreases f.zero_regions@.len() - axis,
    {
        let ghost t_cover = t.zr_at(axis as int);
        let ghost f_cover = f.zr_at(axis as int);
        let ghost pre = nt;
        let fe: &Option<BoolVecRangeSet> = vec_index(&f.zero_regions, axis);
        let mut adopt = false;
        let mut or_bits: Option<Vec<bool>> = None;
        match fe {
            Some(fc) => {
                proof {
                    assert(f_cover == Some(fc.bits@));
                }
                if ops::cover_has_true(&fc.bits) {
                    proof {
                        assert(nt.zr_at(axis as int) == t.zr_at(axis as int));
                    }
                    let te: &Option<BoolVecRangeSet> = vec_index(&nt.zero_regions, axis);
                    match te {
                        Some(tc) => {
                            proof {
                                assert(t_cover == Some(tc.bits@));
                            }
                            if cover_needs_merge_vec(&tc.bits, &fc.bits) {
                                or_bits = Some(or_longest_vec(&tc.bits, &fc.bits));
                            }
                        },
                        None => {
                            proof {
                                assert(t_cover is None);
                            }
                            adopt = true;
                        },
                    }
                }
            },
            None => {
                proof {
                    assert(f_cover is None);
                }
            },
        }
        if adopt {
            match fe {
                Some(fc) => {
                    nt.zero_regions.set(axis, Some(BoolVecRangeSet { bits: ops::copy_bits(
                        &fc.bits,
                    ) }));
                    changed = true;
                },
                None => {},
            }
        } else {
            match or_bits {
                Some(bits) => {
                    nt.zero_regions.set(axis, Some(BoolVecRangeSet { bits }));
                    changed = true;
                },
                None => {},
            }
        }
        axis = axis + 1;
        proof {
            assert(nt.zr_at(axis - 1) == merged_cover(t_cover, f_cover));
            assert forall|ax: int|
                0 <= ax < axis implies #[trigger] nt.zr_at(ax) == merged_cover(
                t.zr_at(ax),
                f.zr_at(ax),
            ) by {
                if ax < axis - 1 {
                    assert(nt.zr_at(ax) == pre.zr_at(ax));
                }
            }
            assert forall|ax: int| ax >= axis implies #[trigger] nt.zr_at(ax) == t.zr_at(ax) by {
                assert(nt.zr_at(ax) == pre.zr_at(ax));
            }
        }
    }
    proof {
        assert forall|ax: int|
            #[trigger] nt.zr_at(ax) == merged_cover(t.zr_at(ax), f.zr_at(ax)) by {
            if !(0 <= ax < f.zero_regions@.len()) {
                assert(f.zr_at(ax) is None);
            }
        }
        assert forall|ax: int|
            (#[trigger] nt.zr_at(ax) matches Some(c) ==> c.len() <= nt.dims()[ax]) by {
            if 0 <= ax < nt.zero_regions@.len() {
                assert(nt.zr_at(ax) == merged_cover(t.zr_at(ax), f.zr_at(ax)));
                assert(t.zr_at(ax) matches Some(tc) ==> tc.len() <= t.dims()[ax]);
                assert(f.zr_at(ax) matches Some(fc) ==> fc.len() <= f.dims()[ax]);
                assert(t.dims() == f.dims());
                assert(nt.dims() == t.dims());
            }
        }
    }
    (nt, changed)
}

impl MyAnalysis {
    /// Combines two summaries the host engine has decreed equal.
    ///
    /// Both must be well formed.  For two access patterns of equal shape the
    /// zero regions are joined axis by axis and the result says whether the
    /// target gained information; returning `true` forces the host to
    /// rebuild, so it comes back only on a strict gain.  Any other pair must
    /// be equal already; the target is left untouched on every failure.
    pub fn merge(&self, to: &mut MyAnalysisData, from: &MyAnalysisData) -> (r: Result<
        bool,
        AnalysisError,
    >)
        requires
            data_wf(*old(to)),
            data_wf(*from),
        ensures
            merge_post(*old(to), *from, *final(to), r),
            data_wf(*final(to)),
    {
        match (&*to, from) {
            (MyAnalysisData::AccessPattern(t), MyAnalysisData::AccessPattern(f)) => {
                if !crate::language::shape::dims_eq(&t.shape, &f.shape)
                    || !crate::language::shape::dims_eq(&t.item_shape, &f.item_shape) {
                    return Err(AnalysisError::ShapeMismatch);
                }
                let res = merge_access(t, f);
                *to = MyAnalysisData::AccessPattern(res.0);
                Ok(res.1)
            },
            _ => {
                if !same_variant_exec(to, from) {
                    return Err(AnalysisError::WrongKind);
                }
                if data_eq(to, from) {
                    Ok(false)
                } else {
                    Err(AnalysisError::ShapeMismatch)
                }
            },
        }
    }
}

/// Whether two summaries are of the same variant.
fn same_variant_exec(a: &MyAnalysisData, b: &MyAnalysisData) -> (r: bool)
    ensures
        r == same_variant(*a, *b),
{
    match (a, b) {
        (MyAnalysisData::Literal(_), MyAnalysisData::Literal(_)) => true,
        (MyAnalysisData::Legacy(_), MyAnalysisData::Legacy(_)) => true,
        (MyAnalysisData::AccessPattern(_), MyAnalysisData::AccessPattern(_)) => true,
        (MyAnalysisData::Shape(_), MyAnalysisData::Shape(_)) => true,
        (MyAnalysisData::ComputeType(_), MyAnalysisData::ComputeType(_)) => true,
        (MyAnalysisData::PadType(_), MyAnalysisData::PadType(_)) => true,
        (MyAnalysisData::List(_), MyAnalysisData::List(_)) => true,
        _ => false,
    }
}

/// Whether two zero-region tables record the same cover for every axis.
fn zero_regions_eq(
    x: &Vec<Option<BoolVecRangeSet>>,
    y: &Vec<Option<BoolVecRangeSet>>,
) -> (r: bool)
    ensures
        r == (forall|axis: int|
            #[trigger] crate::language::data::zr_entry(x@, axis)
                == crate::language::data::zr_entry(y@, axis)),
{
    let n = if x.len() >= y.len() {
        x.len()
    } else {
        y.len()
    };
    let mut i: usize = 0;
    while i < n
        invariant
            i <= n,
            n == (if x@.len() >= y@.len() {
                x@.len() as int
            } else {
                y@.len() as int
            }),
            forall|axis: int|
                0 <= axis < i ==> #[trigger] crate::language::data::zr_entry(x@, axis)
                    == crate::language::data::zr_entry(y@, axis),
        decreases n - i,
    {
        let differs: bool;
        if i < x.len() && i < y.len() {
            match (vec_index(x, i), vec_index(y, i)) {
                (Some(cx), Some(cy)) => {
                    differs = !bits_eq(&cx.bits, &cy.bits);
                },
                (None, None) => {
                    differs = false;
                },
                _ => {
                    differs = true;
                },
            }
        } else if i < x.len() {
            match vec_index(x, i) {
                Some(_) => {
                    differs = true;
                },
                None => {
                    differs = false;
                },
            }
        } else {
            match vec_index(y, i) {
                Some(_) => {
                    differs = true;
                },
                None => {
                    differs = false;
                },
            }
        }
        if differs {
            proof {
                assert(crate::language::data::zr_entry(x@, i as int)
                    != crate::language::data::zr_entry(y@, i as int));
            }
            return false;
        }
        i = i + 1;
    }
    proof {
        assert forall|axis: int|
            #[trigger] crate::language::data::zr_entry(x@, axis)
                == crate::language::data::zr_entry(y@, axis) by {
            if !(0 <= axis < n) {
                assert(crate::language::data::zr_entry(x@, axis) is None);
                assert(crate::language::data::zr_entry(y@, axis) is None);
            }
        }
    }
    true
}

/// Whether two cover bitmaps are equal.
fn bits_eq(a: &Vec<bool>, b: &Vec<bool>) -> (r: bool)
    ensures
        r == (a@ == b@),
{
    if a.len() != b.len() {
        return false;
    }
    let mut i: usize = 0;
    while i < a.len()
        invariant
            i <= a@.len(),
            a@.len() == b@.len(),
            forall|m: int| 0 <= m < i ==> a@[m] == b@[m],
        decreases a@.len() - i,
    {
        if a[i] != b[i] {
            return false;
        }
        i = i + 1;
    }
    proof {
        assert(a@ =~= b@);
    }
    true
}

/// A merge never loses information, gains exactly when the incoming cover
/// marks an index the present one does not, and reaches a fixpoint after
/// one step: merged covers form the join in the bitwise-implication
/// lattice.
pub proof fn lemma_merge_cover_lattice(to: Option<Seq<bool>>, from: Option<Seq<bool>>)
    ensures
        cover_leq(to, merged_cover(to, from)),
        cover_leq(from, merged_cover(to, from)),
        merge_changed_at(to, from) <==> !cover_leq(from, to),
        !merge_changed_at(merged_cover(to, from), from),
{
    let m = merged_cover(to, from);
    assert forall|i: int| #[trigger] cover_marks(to, i) implies cover_marks(m, i) by {}
    assert forall|i: int| #[trigger] cover_marks(from, i) implies cover_marks(m, i) by {
        match from {
            Some(f) => {
                assert(ops::has_true(f));
            },
            None => {},
        }
    }
    match from {
        None => {},
        Some(f) => {
            if ops::has_true(f) {
                let w = choose|i: int| 0 <= i < f.len() && f[i];
                match to {
                    None => {
                        assert(cover_marks(from, w) && !cover_marks(to, w));
                    },
                    Some(t) => {
                        if cover_needs_merge(t, f) {
                            let i = choose|i: int|
                                0 <= i < f.len() && #[trigger] f[i] && !(i < t.len() && t[i]);
                            assert(cover_marks(from, i) && !cover_marks(to, i));
                        } else {
                            assert forall|i: int| #[trigger] cover_marks(from, i) implies
                                cover_marks(to, i) by {
                                assert(!(0 <= i < f.len() && f[i] && !(i < t.len() && t[i])));
                            }
                        }
                    },
                }
            } else {
                assert forall|i: int| #[trigger] cover_marks(from, i) implies cover_marks(
                    to,
                    i,
                ) by {
                    assert(!(0 <= i < f.len() && f[i]));
                }
            }
            if merge_changed_at(m, from) {
                match m {
                    Some(mt) => {
                        assert(cover_needs_merge(mt, f));
                        let i = choose|i: int|
                            0 <= i < f.len() && #[trigger] f[i] && !(i < mt.len() && mt[i]);
                        assert(cover_marks(from, i));
                        assert(!cover_marks(m, i));
                        assert(cover_marks(m, i));
                    },
                    None => {
                        assert(false);
                    },
                }
            }
        },
    }
}

/// Merging the same summary a second time reports no change: the first
/// merge already reached the join.
pub proof fn lemma_merge_fixpoint(
    t: AccessPatternData,
    f: AccessPatternData,
    nt: AccessPatternData,
)
    requires
        forall|axis: int|
            #[trigger] nt.zr_at(axis) == merged_cover(t.zr_at(axis), f.zr_at(axis)),
    ensures
        !(exists|axis: int| merge_changed_at(nt.zr_at(axis), #[trigger] f.zr_at(axis))),
{
    assert forall|axis: int|
        !merge_changed_at(nt.zr_at(axis), #[trigger] f.zr_at(axis)) by {
        assert(nt.zr_at(axis) == merged_cover(t.zr_at(axis), f.zr_at(axis)));
        lemma_merge_cover_lattice(t.zr_at(axis), f.zr_at(axis));
    }
}

/// Whether two summaries are equal by contents.
pub fn data_eq(a: &MyAnalysisData, b: &MyAnalysisData) -> (r: bool)
    ensures
        r == crate::language::data::data_equal(*a, *b),
{
    match (a, b) {
        (MyAnalysisData::Literal(x), MyAnalysisData::Literal(y)) => *x == *y,
        (MyAnalysisData::Legacy(x), MyAnalysisData::Legacy(y)) => {
            let sh_eq = match (&x.shape, &y.shape) {
                (Some(u), Some(v)) => crate::language::shape::dims_eq(u, v),
                (None, None) => true,
                _ => false,
            };
            let uv_eq = match (&x.usize_value, &y.usize_value) {
                (Some(u), Some(v)) => *u == *v,
                (None, None) => true,
                _ => false,
            };
            sh_eq && uv_eq
        },
        (MyAnalysisData::AccessPattern(x), MyAnalysisData::AccessPattern(y)) => {
            let req = crate::language::shape::dims_eq(&x.shape, &y.shape)
                && crate::language::shape::dims_eq(&x.item_shape, &y.item_shape)
                && zero_regions_eq(&x.zero_regions, &y.zero_regions);
            proof {
                if forall|axis: int|
                    #[trigger] crate::language::data::zr_entry(x.zero_regions@, axis)
                        == crate::language::data::zr_entry(y.zero_regions@, axis) {
                    assert forall|axis: int| #[trigger] x.zr_at(axis) == y.zr_at(axis) by {
                        assert(crate::language::data::zr_entry(x.zero_regions@, axis)
                            == crate::language::data::zr_entry(y.zero_regions@, axis));
                    }
                }
                if forall|axis: int| #[trigger] x.zr_at(axis) == y.zr_at(axis) {
                    assert forall|axis: int|
                        #[trigger] crate::language::data::zr_entry(x.zero_regions@, axis)
                            == crate::language::data::zr_entry(y.zero_regions@, axis) by {
                        assert(x.zr_at(axis) == y.zr_at(axis));
                    }
                }
            }
            req
        },
        (MyAnalysisData::Shape(x), MyAnalysisData::Shape(y)) => crate::language::shape::dims_eq(
            &x.shape,
            &y.shape,
        ),
        (MyAnalysisData::ComputeType(x), MyAnalysisData::ComputeType(y)) => *x == *y,
        (MyAnalysisData::PadType(x), MyAnalysisData::PadType(y)) => *x == *y,
        (MyAnalysisData::List(x), MyAnalysisData::List(y)) => crate::language::shape::dims_eq(
            x,
            y,
        ),
        _ => false,
    }
}

} // verus!

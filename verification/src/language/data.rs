//! The summary data attached to every equivalence class, and the scalar
//! enums of the operator language.

use vstd::prelude::*;
use crate::language::range_set::BoolVecRangeSet;

verus! {

/// Compares two string slices by contents.  The comparison goes through
/// owned strings, whose equality is specified against their character
/// sequences.
pub fn str_eq(a: &str, b: &str) -> (r: bool)
    ensures
        r == (a@ == b@),
{
    let sa: String = a.to_owned();
    let sb: String = b.to_owned();
    sa == sb
}

/// The computation applied to each item of an access pattern.
#[derive(Debug, Clone, Copy, PartialEq, Eq, Hash, Structural)]
pub enum ComputeType {
    DotProduct,
    ReduceSum,
    ReLU,
    Sqrt,
    Negative,
    /// Expects an item shape of `a x b1 x .. x bn`; adds the `a` tensors of
    /// shape `b1 x .. x bn` elementwise.
    ElementwiseAdd,
    /// As `ElementwiseAdd`, with multiplication.
    ElementwiseMul,
    /// As `ElementwiseAdd`, with division.
    ElementwiseDiv,
    /// Takes the max across all elements in each item.
    ReduceMax,
    /// Computes softmax; only defined for items of rank 1.
    Softmax,
    /// Reduces each item to the mean of its elements.
    ReduceMean,
}

/// The compute type spelled by `s`, if any.
pub open spec fn compute_type_of(s: Seq<char>) -> Option<ComputeType> {
    if s == "dot-product"@ {
        Some(ComputeType::DotProduct)
    } else if s == "reduce-sum"@ {
        Some(ComputeType::ReduceSum)
    } else if s == "reduce-max"@ {
        Some(ComputeType::ReduceMax)
    } else if s == "relu"@ {
        Some(ComputeType::ReLU)
    } else if s == "sqrt"@ {
        Some(ComputeType::Sqrt)
    } else if s == "negative"@ {
        Some(ComputeType::Negative)
    } else if s == "elementwise-add"@ {
        Some(ComputeType::ElementwiseAdd)
    } else if s == "elementwise-mul"@ {
        Some(ComputeType::ElementwiseMul)
    } else if s == "elementwise-div"@ {
        Some(ComputeType::ElementwiseDiv)
    } else if s == "softmax"@ {
        Some(ComputeType::Softmax)
    } else if s == "reduce-mean"@ {
        Some(ComputeType::ReduceMean)
    } else {
        None
    }
}

impl ComputeType {
    /// Parses the canonical spelling of a compute type.
    pub fn from_str(input: &str) -> (r: Result<ComputeType, ()>)
        ensures
            r == match compute_type_of(input@) {
                Some(t) => Ok::<ComputeType, ()>(t),
                None => Err::<ComputeType, ()>(()),
            },
    {
        if str_eq(input, "dot-product") {
            Ok(ComputeType::DotProduct)
        } else if str_eq(input, "reduce-sum") {
            Ok(ComputeType::ReduceSum)
        } else if str_eq(input, "reduce-max") {
            Ok(ComputeType::ReduceMax)
        } else if str_eq(input, "relu") {
            Ok(ComputeType::ReLU)
        } else if str_eq(input, "sqrt") {
            Ok(ComputeType::Sqrt)
        } else if str_eq(input, "negative") {
            Ok(ComputeType::Negative)
        } else if str_eq(input, "elementwise-add") {
            Ok(ComputeType::ElementwiseAdd)
        } else if str_eq(input, "elementwise-mul") {
            Ok(ComputeType::ElementwiseMul)
        } else if str_eq(input, "elementwise-div") {
            Ok(ComputeType::ElementwiseDiv)
        } else if str_eq(input, "softmax") {
            Ok(ComputeType::Softmax)
        } else if str_eq(input, "reduce-mean") {
            Ok(ComputeType::ReduceMean)
        } else {
            Err(())
        }
    }

    /// The canonical spelling, as used by the surface syntax.
    pub fn to_str(&self) -> (r: &'static str)
        ensures
            match *self {
                ComputeType::DotProduct => r@ == "dot-product"@,
                ComputeType::ReduceSum => r@ == "reduce-sum"@,
                ComputeType::ReduceMax => r@ == "reduce-max"@,
                ComputeType::ReLU => r@ == "relu"@,
                ComputeType::Sqrt => r@ == "sqrt"@,
                ComputeType::Negative => r@ == "negative"@,
                ComputeType::ElementwiseAdd => r@ == "elementwise-add"@,
                ComputeType::ElementwiseMul => r@ == "elementwise-mul"@,
                ComputeType::ElementwiseDiv => r@ == "elementwise-div"@,
                ComputeType::Softmax => r@ == "softmax"@,
                ComputeType::ReduceMean => r@ == "reduce-mean"@,
            },
    {
        match self {
            ComputeType::DotProduct => "dot-product",
            ComputeType::ReduceSum => "reduce-sum",
            ComputeType::ReduceMax => "reduce-max",
            ComputeType::ReLU => "relu",
            ComputeType::Sqrt => "sqrt",
            ComputeType::Negative => "negative",
            ComputeType::ElementwiseAdd => "elementwise-add",
            ComputeType::ElementwiseMul => "elementwise-mul",
            ComputeType::ElementwiseDiv => "elementwise-div",
            ComputeType::Softmax => "softmax",
            ComputeType::ReduceMean => "reduce-mean",
        }
    }
}

/// Specifies how to pick the values a tensor is padded with.
#[derive(Debug, Clone, Copy, PartialEq, Eq, Hash, Structural)]
pub enum PadType {
    /// Pad with zeroes.
    ZeroPadding,
    /// Pad with the minimum representable number.
    MinPadding,
}

/// The pad type spelled by `s`, if any.
pub open spec fn pad_type_of(s: Seq<char>) -> Option<PadType> {
    if s == "zero-padding"@ {
        Some(PadType::ZeroPadding)
    } else if s == "min-padding"@ {
        Some(PadType::MinPadding)
    } else {
        None
    }
}

impl PadType {
    /// Parses the canonical spelling of a pad type.
    pub fn from_str(input: &str) -> (r: Result<PadType, ()>)
        ensures
            r == match pad_type_of(input@) {
                Some(t) => Ok::<PadType, ()>(t),
                None => Err::<PadType, ()>(()),
            },
    {
        if str_eq(input, "zero-padding") {
            Ok(PadType::ZeroPadding)
        } else if str_eq(input, "min-padding") {
            Ok(PadType::MinPadding)
        } else {
            Err(())
        }
    }

    /// The canonical spelling, as used by the surface syntax.
    pub fn to_str(&self) -> (r: &'static str)
        ensures
            match *self {
                PadType::ZeroPadding => r@ == "zero-padding"@,
                PadType::MinPadding => r@ == "min-padding"@,
            },
    {
        match self {
            PadType::ZeroPadding => "zero-padding",
            PadType::MinPadding => "min-padding",
        }
    }
}

/// The failure kinds of the analysis.  All of them mark programmer errors in
/// the program being analysed; the analysis reports them instead of guessing.
#[derive(Debug, Clone, PartialEq, Eq)]
pub enum AnalysisError {
    /// Operands violate a precondition on shapes, ranks or extents.
    ShapeMismatch,
    /// A dimension argument exceeds the rank, or an index exceeds an extent.
    OutOfRange,
    /// A child class produced a summary of a variant the operator does not
    /// accept.
    WrongKind,
    /// A leaf name that is neither built in nor in the environment.
    UnknownSymbol(String),
}

/// The summary of a class whose value is a bare shape.
#[derive(Debug, Clone)]
pub struct ShapeData {
    pub shape: Vec<usize>,
}

/// The summary attached by operators that predate access patterns: a shape,
/// an integer, or both absent.
#[derive(Debug, Clone)]
pub struct MyAnalysisDataLegacyData {
    pub shape: Option<Vec<usize>>,
    pub usize_value: Option<usize>,
}

/// An access pattern: the central datum of the analysis.
///
/// `shape` holds the outer axes the pattern iterates over and `item_shape`
/// the shape of the item produced at each position.  `zero_regions` maps a
/// flattened axis index (`0..shape.len()` addresses `shape`, the rest
/// `item_shape`) to the cover of indices proven zero along that axis; a
/// missing entry means no information.
#[derive(Debug, Clone)]
pub struct AccessPatternData {
    pub shape: Vec<usize>,
    pub item_shape: Vec<usize>,
    pub zero_regions: Vec<Option<BoolVecRangeSet>>,
}

/// The bitmap held by one optional cover entry.
pub open spec fn cover_view(o: Option<BoolVecRangeSet>) -> Option<Seq<bool>> {
    match o {
        Some(c) => Some(c.bits@),
        None => None,
    }
}

/// The cover a zero-region table records for `axis`, if any.
pub open spec fn zr_entry(s: Seq<Option<BoolVecRangeSet>>, axis: int) -> Option<Seq<bool>> {
    if 0 <= axis < s.len() {
        cover_view(s[axis])
    } else {
        None
    }
}

impl AccessPatternData {
    /// The flattened dimension list: outer axes followed by item axes.
    pub open spec fn dims(&self) -> Seq<usize> {
        self.shape@ + self.item_shape@
    }

    /// The cover recorded for `axis`, if any.
    pub open spec fn zr_at(&self, axis: int) -> Option<Seq<bool>> {
        zr_entry(self.zero_regions@, axis)
    }

    /// Whether no axis carries zero-region information.
    pub open spec fn no_zero_info(&self) -> bool {
        forall|axis: int| #[trigger] self.zr_at(axis) is None
    }

    /// Every recorded cover fits within the extent of its axis, and no entry
    /// addresses an axis past the rank.
    pub open spec fn wf(&self) -> bool {
        &&& self.zero_regions@.len() <= self.dims().len()
        &&& forall|axis: int|
            #[trigger] self.zr_at(axis) matches Some(c) ==> c.len() <= self.dims()[axis]
    }

    /// The access pattern dimensions as one vector.
    pub fn as_vec(&self) -> (r: Vec<usize>)
        ensures
            r@ == self.dims(),
    {
        let mut r: Vec<usize> = Vec::new();
        let mut i: usize = 0;
        while i < self.shape.len()
            invariant
                i <= self.shape@.len(),
                r@ == self.shape@.take(i as int),
            decreases self.shape@.len() - i,
        {
            r.push(self.shape[i]);
            i = i + 1;
            proof {
                assert(r@ =~= self.shape@.take(i as int));
            }
        }
        let mut j: usize = 0;
        while j < self.item_shape.len()
            invariant
                j <= self.item_shape@.len(),
                r@ == self.shape@ + self.item_shape@.take(j as int),
            decreases self.item_shape@.len() - j,
        {
            r.push(self.item_shape[j]);
            j = j + 1;
            proof {
                assert(r@ =~= self.shape@ + self.item_shape@.take(j as int));
            }
        }
        proof {
            assert(r@ =~= self.dims());
        }
        r
    }

    /// The extent of flattened axis `index`.
    pub fn index(&self, index: usize) -> (r: usize)
        requires
            index < self.dims().len(),
        ensures
            r == self.dims()[index as int],
    {
        if index < self.shape.len() {
            self.shape[index]
        } else {
            self.item_shape[index - self.shape.len()]
        }
    }
}

/// The value the analysis stores per equivalence class.
#[derive(Debug, Clone)]
pub enum MyAnalysisData {
    /// A rank-0 constant, stored as the bit pattern of its 64-bit float
    /// value; the host keeps the float itself.
    Literal(u64),
    Legacy(MyAnalysisDataLegacyData),
    AccessPattern(AccessPatternData),
    Shape(ShapeData),
    ComputeType(ComputeType),
    PadType(PadType),
    List(Vec<usize>),
}

/// Well-formedness of a summary: access patterns carry sound cover lengths.
pub open spec fn data_wf(d: MyAnalysisData) -> bool {
    match d {
        MyAnalysisData::AccessPattern(a) => a.wf(),
        _ => true,
    }
}

/// Equality of two optional shapes, by contents.
pub open spec fn opt_dims_equal(a: Option<Vec<usize>>, b: Option<Vec<usize>>) -> bool {
    match (a, b) {
        (Some(x), Some(y)) => x@ == y@,
        (None, None) => true,
        _ => false,
    }
}

/// Equality of two summaries, by contents.
pub open spec fn data_equal(a: MyAnalysisData, b: MyAnalysisData) -> bool {
    match (a, b) {
        (MyAnalysisData::Literal(x), MyAnalysisData::Literal(y)) => x == y,
        (MyAnalysisData::Legacy(x), MyAnalysisData::Legacy(y)) => opt_dims_equal(x.shape, y.shape)
            && x.usize_value == y.usize_value,
        (MyAnalysisData::AccessPattern(x), MyAnalysisData::AccessPattern(y)) => {
            &&& x.shape@ == y.shape@
            &&& x.item_shape@ == y.item_shape@
            &&& forall|axis: int| #[trigger] x.zr_at(axis) == y.zr_at(axis)
        },
        (MyAnalysisData::Shape(x), MyAnalysisData::Shape(y)) => x.shape@ == y.shape@,
        (MyAnalysisData::ComputeType(x), MyAnalysisData::ComputeType(y)) => x == y,
        (MyAnalysisData::PadType(x), MyAnalysisData::PadType(y)) => x == y,
        (MyAnalysisData::List(x), MyAnalysisData::List(y)) => x@ == y@,
        _ => false,
    }
}

} // verus!

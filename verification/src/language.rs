//! The operator language and its analysis.

pub mod analysis;
pub mod data;
pub mod ops;
pub mod range_set;
pub mod shape;

pub use analysis::Id;
pub use analysis::Language;
pub use analysis::MyAnalysis;

pub use data::AccessPatternData;
pub use data::AnalysisError;
pub use data::ComputeType;
pub use data::MyAnalysisData;
pub use data::MyAnalysisDataLegacyData;
pub use data::PadType;
pub use data::ShapeData;
pub use range_set::BoolVecRangeSet;
pub use range_set::RangeHashSet;
pub use range_set::RangeInsertStrategy;
pub use range_set::RangeSet;
pub use range_set::RangeSet2;

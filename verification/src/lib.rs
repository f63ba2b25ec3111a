//! A tensor-program intermediate representation together with its
//! shape-and-metadata analysis.
//!
//! The IR is a closed set of operators whose operands are equivalence-class
//! identifiers.  For every node the analysis derives a summary: the shape of
//! the value it produces, the outer/item split of an access pattern, and the
//! per-axis regions that are provably zero.  A host rewrite engine owns the
//! classes; it calls [`language::MyAnalysis::make`] to summarise a node from
//! its children's summaries and [`language::MyAnalysis::merge`] when it
//! unifies two classes.

pub mod language;

//! Reports over the knowledge graph.
pub mod coverage;
pub mod format;
pub mod matrix;

pub use coverage::{CoverageReport, IncompleteItem, TypeCoverage};
pub use matrix::{MatrixRow, MatrixTarget, TraceabilityMatrix};

//! Comparing states of the knowledge graph.
pub mod options;
pub mod service;

pub use options::DiffOptions;
pub use service::{DiffError, DiffResult, DiffService};

//! Queries over the knowledge graph.
pub mod traceability;

pub use crate::graph::LookupResult;
pub use traceability::{
    check_parent_exists, find_similar_ids, get_children, get_parents, lookup_item_or_suggest,
    MissingParentError, QueryEngine,
};

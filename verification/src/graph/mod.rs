//! Knowledge graph operations: storing items and their relationships,
//! building graphs, traversing them and comparing two of them.
pub mod digraph;
pub mod knowledge_graph;

pub use knowledge_graph::{KnowledgeGraph, LookupResult};
pub mod builder;

pub use builder::{resolve_cross_repository_refs, GraphBuilder, KnowledgeGraphBuilder};
pub mod traversal;

pub use traversal::{
    traverse_downstream, traverse_upstream, TraversalDirection, TraversalNode, TraversalOptions,
    TraversalResult,
};
pub mod diff;

pub use diff::{DiffStats, FieldChange, GraphDiff, ItemDiff, ItemModification, RelationshipDiff};
pub mod stats;

pub use stats::GraphStats;

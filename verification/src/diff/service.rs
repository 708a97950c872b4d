//! Comparing two states of the knowledge graph.
use vstd::prelude::*;

use super::options::DiffOptions;
use crate::graph::builder::items_edges;
use crate::graph::diff::GraphDiff;
use crate::graph::{KnowledgeGraph, KnowledgeGraphBuilder};
use crate::model::Item;

verus! {

/// Errors of a diff.
pub enum DiffError {
    /// A repository could not be parsed.
    ParseError { path: String, reason: String },
    /// A graph could not be built.
    GraphBuildError(String),
    /// Comparing Git references is not available.
    GitRefNotSupported,
    /// Reading failed.
    Io(String),
}

/// Result of a diff.
pub struct DiffResult {
    /// The differences.
    pub diff: GraphDiff,
    /// First reference.
    pub ref1: String,
    /// Second reference.
    pub ref2: String,
    /// Whether both references were really compared (not the current
    /// state against itself).
    pub is_full_comparison: bool,
}

impl DiffResult {
    /// Returns true if nothing changed.
    pub fn is_empty(&self) -> (r: bool)
        ensures
            r == (self.diff.added_items@.len() == 0 && self.diff.removed_items@.len() == 0
                && self.diff.modified_items@.len() == 0 && self.diff.added_relationships@.len() == 0
                && self.diff.removed_relationships@.len() == 0),
    {
        self.diff.is_empty()
    }
}

/// The diff service.
pub struct DiffService;

impl DiffService {
    /// Creates a new diff service.
    pub fn new() -> (r: DiffService) {
        DiffService
    }

    /// Compares two graphs directly, as a full comparison of the two
    /// references.
    pub fn diff_graphs(&self, old_graph: &KnowledgeGraph, new_graph: &KnowledgeGraph, ref1: &str, ref2: &str) -> (r: DiffResult)
        requires
            old_graph.wf(),
            new_graph.wf(),
        ensures
            r.ref1@ == ref1@,
            r.ref2@ == ref2@,
            r.is_full_comparison,
            crate::graph::diff::diff_of(r.diff, *old_graph, *new_graph),
    {
        let diff = GraphDiff::compute(old_graph, new_graph);
        DiffResult { diff, ref1: ref1.to_owned(), ref2: ref2.to_owned(), is_full_comparison: true }
    }

    /// Compares the current state with itself, when the references cannot
    /// be read: both sides are the graph of the parsed items, so the diff
    /// is empty, and the result is marked as not a full comparison.
    pub fn diff_current(&self, items: Vec<Item>, opts: &DiffOptions) -> (r: Result<DiffResult, DiffError>)
        requires
            items@.len() <= u32::MAX,
            items_edges(items@, false).len() < u32::MAX,
        ensures
            r matches Ok(res) && res.ref1@ == opts.ref1@ && res.ref2@ == opts.ref2@ && !res.is_full_comparison
                && res.diff.added_items@.len() == 0 && res.diff.removed_items@.len() == 0
                && res.diff.modified_items@.len() == 0 && res.diff.added_relationships@.len() == 0
                && res.diff.removed_relationships@.len() == 0,
    {
        let graph = match KnowledgeGraphBuilder::new().add_items(items).build() {
            Ok(g) => g,
            Err(_) => vstd::pervasive::unreached(),
        };
        let diff = GraphDiff::compute(&graph, &graph);
        proof {
            crate::graph::diff::lemma_diff_self_empty(graph);
        }
        Ok(DiffResult { diff, ref1: opts.ref1.clone(), ref2: opts.ref2.clone(), is_full_comparison: false })
    }
}

} // verus!

//! Statistics about a knowledge graph.
use vstd::prelude::*;

use super::knowledge_graph::{type_counts, KnowledgeGraph};
use crate::model::item::all_types;
use crate::model::ItemType;

verus! {

/// Statistics about a knowledge graph.
#[derive(Debug, Clone, Default)]
pub struct GraphStats {
    /// Total number of items in the graph.
    pub item_count: usize,
    /// Total number of relationships in the graph.
    pub relationship_count: usize,
    /// For each item type present, its number of items, in hierarchy order.
    pub items_by_type: Vec<(ItemType, usize)>,
}

impl GraphStats {
    /// Collects statistics from a knowledge graph.
    pub fn from_graph(graph: &KnowledgeGraph) -> (r: GraphStats)
        requires
            graph.wf(),
        ensures
            r.item_count == graph.nodes().len(),
            r.relationship_count == graph.edges().len(),
            r.items_by_type@.len() == type_counts(graph.nodes(), all_types()).len(),
            forall|k: int|
                0 <= k < r.items_by_type@.len() ==> r.items_by_type@[k].0 == type_counts(
                    graph.nodes(),
                    all_types(),
                )[k].0 && r.items_by_type@[k].1 == type_counts(graph.nodes(), all_types())[k].1,
    {
        GraphStats {
            item_count: graph.item_count(),
            relationship_count: graph.relationship_count(),
            items_by_type: graph.count_by_type(),
        }
    }

    /// The number of items of the given type (0 when none).
    pub fn count_of(&self, item_type: ItemType) -> (r: usize)
        ensures
            (exists|k: int| 0 <= k < self.items_by_type@.len() && self.items_by_type@[k].0 == item_type)
                ==> exists|k: int|
                0 <= k < self.items_by_type@.len() && self.items_by_type@[k].0 == item_type
                    && self.items_by_type@[k].1 == r,
            (forall|k: int| 0 <= k < self.items_by_type@.len() ==> self.items_by_type@[k].0 != item_type)
                ==> r == 0,
    {
        let mut i: usize = 0;
        while i < self.items_by_type.len()
            invariant
                i <= self.items_by_type.len(),
                forall|k: int| 0 <= k < i ==> self.items_by_type@[k].0 != item_type,
            decreases self.items_by_type.len() - i,
        {
            if self.items_by_type[i].0 == item_type {
                return self.items_by_type[i].1;
            }
            i += 1;
        }
        0
    }
}

} // verus!

//! Item lookup and traceability queries over a knowledge graph.
use vstd::prelude::*;

use crate::error::EditError;
use crate::graph::knowledge_graph::{find_last, similar_ids, KnowledgeGraph, LookupResult, Scored};
use crate::graph::traversal::{max_depth_of, node_views, walk, TraversalDirection};
use crate::graph::{traverse_downstream, traverse_upstream, TraversalOptions, TraversalResult};
use crate::model::item::{required_parent, type_display};
use crate::model::{Item, ItemId, ItemType};
use crate::text::{chars_to_string, extend_str, str_chars, str_views};

verus! {

/// A query engine over one knowledge graph.
pub struct QueryEngine<'a> {
    graph: &'a KnowledgeGraph,
}

impl<'a> QueryEngine<'a> {
    /// The graph queried.
    pub closed spec fn graph_of(&self) -> &'a KnowledgeGraph {
        self.graph
    }

    /// Creates a query engine for the graph.
    pub fn new(graph: &'a KnowledgeGraph) -> (r: QueryEngine<'a>)
        ensures
            r.graph_of() == graph,
    {
        QueryEngine { graph }
    }

    /// Looks up an item by ID; when it is missing, suggests up to five
    /// similar IDs.
    pub fn lookup(&self, id: &str) -> (r: LookupResult<'a>)
        ensures
            match find_last(self.graph_of().nodes(), id@) {
                Some(i) => r == LookupResult::Found(&self.graph_of().nodes()[i]),
                None => r matches LookupResult::NotFound { suggestions } && suggestions@.len()
                    == similar_ids(self.graph_of().nodes(), id@, 5).len() && forall|k: int|
                    0 <= k < suggestions@.len() ==> (#[trigger] suggestions@[k])@ == similar_ids(
                        self.graph_of().nodes(),
                        id@,
                        5,
                    )[k].0,
            },
    {
        self.graph.lookup(id)
    }

    /// Traces upstream from an item.
    pub fn trace_upstream(&self, id: &ItemId, options: &TraversalOptions) -> (r: Option<TraversalResult>)
        requires
            self.graph_of().wf(),
        ensures
            match find_last(self.graph_of().nodes(), id@) {
                None => r is None,
                Some(s) => r matches Some(res) && res.origin@ == id@ && node_views(res.items@)
                    == walk(
                    self.graph_of().nodes(),
                    self.graph_of().edges(),
                    TraversalDirection::Upstream,
                    options.max_depth,
                    options.type_filter@,
                    s as usize,
                    0,
                    None,
                    None,
                    Seq::new(self.graph_of().nodes().len(), |i: int| false),
                ) && res.max_depth == max_depth_of(node_views(res.items@)),
            },
    {
        traverse_upstream(self.graph, id, options)
    }

    /// Traces downstream from an item.
    pub fn trace_downstream(&self, id: &ItemId, options: &TraversalOptions) -> (r: Option<TraversalResult>)
        requires
            self.graph_of().wf(),
        ensures
            match find_last(self.graph_of().nodes(), id@) {
                None => r is None,
                Some(s) => r matches Some(res) && res.origin@ == id@ && node_views(res.items@)
                    == walk(
                    self.graph_of().nodes(),
                    self.graph_of().edges(),
                    TraversalDirection::Downstream,
                    options.max_depth,
                    options.type_filter@,
                    s as usize,
                    0,
                    None,
                    None,
                    Seq::new(self.graph_of().nodes().len(), |i: int| false),
                ) && res.max_depth == max_depth_of(node_views(res.items@)),
            },
    {
        traverse_downstream(self.graph, id, options)
    }

    /// Gets an item by ID.
    pub fn get(&self, id: &ItemId) -> (r: Option<&'a Item>)
        ensures
            match find_last(self.graph_of().nodes(), id@) {
                Some(i) => r == Some(&self.graph_of().nodes()[i]),
                None => r is None,
            },
    {
        self.graph.get(id)
    }

    /// Returns all items of a type, in graph order.
    pub fn items_by_type(&self, item_type: ItemType) -> (r: Vec<&'a Item>)
        ensures
            r@.len() == crate::graph::knowledge_graph::type_positions(
                self.graph_of().nodes(),
                item_type,
                self.graph_of().nodes().len() as int,
            ).len(),
            forall|k: int|
                0 <= k < r@.len() ==> *r@[k] == self.graph_of().nodes()[crate::graph::knowledge_graph::type_positions(
                    self.graph_of().nodes(),
                    item_type,
                    self.graph_of().nodes().len() as int,
                )[k]],
    {
        self.graph.items_by_type(item_type)
    }

    /// Returns the graph queried.
    pub fn graph(&self) -> (r: &'a KnowledgeGraph)
        ensures
            r == self.graph_of(),
    {
        self.graph
    }
}

/// Returns the direct parents of an item.
pub fn get_parents<'a>(graph: &'a KnowledgeGraph, id: &ItemId) -> (r: Vec<&'a Item>)
    requires
        graph.wf(),
    ensures
        match find_last(graph.nodes(), id@) {
            Some(i) => {
                let ends = crate::graph::knowledge_graph::upstream_ends(
                    crate::graph::digraph::incident(graph.edges(), i as usize, true),
                    true,
                );
                &&& r@.len() == ends.len()
                &&& forall|k: int| 0 <= k < r@.len() ==> *r@[k] == graph.nodes()[ends[k]]
            },
            None => r@.len() == 0,
        },
{
    graph.parents(id)
}

/// Returns the direct children of an item.
pub fn get_children<'a>(graph: &'a KnowledgeGraph, id: &ItemId) -> (r: Vec<&'a Item>)
    requires
        graph.wf(),
    ensures
        match find_last(graph.nodes(), id@) {
            Some(i) => {
                let ends = crate::graph::knowledge_graph::upstream_ends(
                    crate::graph::digraph::incident(graph.edges(), i as usize, false),
                    false,
                );
                &&& r@.len() == ends.len()
                &&& forall|k: int| 0 <= k < r@.len() ==> *r@[k] == graph.nodes()[ends[k]]
            },
            None => r@.len() == 0,
        },
{
    graph.children(id)
}

/// Finds up to `max_suggestions` IDs similar to `query`, closest first.
pub fn find_similar_ids(graph: &KnowledgeGraph, query: &str, max_suggestions: usize) -> (r: Vec<String>)
    ensures
        str_views(r@) == similar_ids(graph.nodes(), query@, max_suggestions as nat).map_values(
            |s: Scored| s.0,
        ),
{
    let r = graph.find_similar_ids(query, max_suggestions);
    assert(str_views(r@) =~= similar_ids(graph.nodes(), query@, max_suggestions as nat).map_values(
        |s: Scored| s.0,
    ));
    r
}

/// Looks up an item by ID; a missing item gives `ItemNotFound` with up to
/// three similar IDs.
pub fn lookup_item_or_suggest<'a>(graph: &'a KnowledgeGraph, id: &str) -> (r: Result<&'a Item, EditError>)
    ensures
        match find_last(graph.nodes(), id@) {
            Some(i) => r == Ok::<&Item, EditError>(&graph.nodes()[i]),
            None => r matches Err(EditError::ItemNotFound { id: e, suggestions }) && e@ == id@
                && str_views(suggestions@) == similar_ids(graph.nodes(), id@, 3).map_values(
                |s: Scored| s.0,
            ),
        },
{
    let item_id = ItemId::new_unchecked(id);
    match graph.get(&item_id) {
        Some(item) => Ok(item),
        None => {
            let suggestions = find_similar_ids(graph, id, 3);
            Err(EditError::ItemNotFound { id: id.to_owned(), suggestions })
        },
    }
}

/// The error of creating an item whose parent type has no items.
pub struct MissingParentError {
    /// The item type being created.
    pub item_type: String,
    /// The required parent type.
    pub parent_type: String,
}

impl MissingParentError {
    /// The message of the error.
    pub fn message(&self) -> (r: String)
        ensures
            r@ == "Cannot create "@ + self.item_type@ + ": no "@ + self.parent_type@
                + " items exist. Create a "@ + self.parent_type@ + " first."@,
    {
        let mut out = str_chars("Cannot create ");
        extend_str(&mut out, self.item_type.as_str());
        extend_str(&mut out, ": no ");
        extend_str(&mut out, self.parent_type.as_str());
        extend_str(&mut out, " items exist. Create a ");
        extend_str(&mut out, self.parent_type.as_str());
        extend_str(&mut out, " first.");
        chars_to_string(&out)
    }
}

/// Checks that items of the parent type required by `item_type` exist.
/// Types without a required parent, and a missing graph, always pass.
pub fn check_parent_exists(item_type: ItemType, graph: Option<&KnowledgeGraph>) -> (r: Result<(), MissingParentError>)
    ensures
        match (required_parent(item_type), graph) {
            (Some(p), Some(g)) => {
                &&& r is Ok <==> exists|i: int|
                    0 <= i < g.nodes().len() && (#[trigger] g.nodes()[i]).item_type == p
                &&& r is Err ==> (r matches Err(e) && e.item_type@ == type_display(item_type)
                    && e.parent_type@ == type_display(p))
            },
            _ => r is Ok,
        },
{
    let parent_type = match item_type.required_parent_type() {
        Some(p) => p,
        None => return Ok(()),
    };
    let g = match graph {
        Some(g) => g,
        None => return Ok(()),
    };
    let items = g.items();
    let mut i: usize = 0;
    while i < items.len()
        invariant
            items@ == g.nodes(),
            graph == Some(g),
            required_parent(item_type) == Some(parent_type),
            i <= items.len(),
            forall|j: int| 0 <= j < i ==> items@[j].item_type != parent_type,
        decreases items.len() - i,
    {
        if items[i].item_type == parent_type {
            assert(g.nodes()[i as int].item_type == parent_type);
            return Ok(());
        }
        i += 1;
    }
    Err(
        MissingParentError {
            item_type: item_type.display_name().to_owned(),
            parent_type: parent_type.display_name().to_owned(),
        },
    )
}

} // verus!

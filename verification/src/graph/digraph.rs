//! The directed graph that stores relationships between items, kept in a
//! `petgraph` graph whose node `i` stands for the `i`-th item.
use petgraph::graph::{DiGraph, NodeIndex};
use petgraph::visit::EdgeRef;
use petgraph::Direction;
use vstd::prelude::*;

use crate::model::RelationshipType;

verus! {

/// `petgraph::graph::Graph`, declared so that the knowledge graph can hold one.
#[verifier::external_type_specification]
#[verifier::external_body]
#[verifier::reject_recursive_types(N)]
#[verifier::reject_recursive_types(E)]
#[verifier::reject_recursive_types(Ty)]
#[verifier::reject_recursive_types(Ix)]
pub struct ExGraph<N, E, Ty, Ix>(petgraph::graph::Graph<N, E, Ty, Ix>);

/// `petgraph::Directed`, the edge kind of the relationship graph.
#[verifier::external_type_specification]
#[verifier::external_body]
pub struct ExDirected(petgraph::Directed);

/// An edge: source node, target node and relationship.
pub type GraphEdge = (usize, usize, RelationshipType);

/// The edges of a relationship graph, in the order they were added.
pub uninterp spec fn graph_edges(g: DiGraph<(), RelationshipType>) -> Seq<GraphEdge>;

/// The number of nodes of a relationship graph.
pub uninterp spec fn graph_node_count(g: DiGraph<(), RelationshipType>) -> nat;

/// The edges leaving (`outgoing`) or entering node `n`, most recently added
/// first.
pub open spec fn incident(edges: Seq<GraphEdge>, n: usize, outgoing: bool) -> Seq<GraphEdge>
    decreases edges.len(),
{
    if edges.len() == 0 {
        seq![]
    } else {
        let e = edges.last();
        let rest = incident(edges.drop_last(), n, outgoing);
        if (outgoing && e.0 == n) || (!outgoing && e.1 == n) {
            seq![e] + rest
        } else {
            rest
        }
    }
}

/// Every edge of `incident(edges, n, outgoing)` is an edge of `edges` that
/// touches `n` on the chosen side.
pub proof fn lemma_incident_edges(edges: Seq<GraphEdge>, n: usize, outgoing: bool)
    ensures
        forall|k: int|
            0 <= k < incident(edges, n, outgoing).len() ==> {
                &&& edges.contains(#[trigger] incident(edges, n, outgoing)[k])
                &&& outgoing ==> incident(edges, n, outgoing)[k].0 == n
                &&& !outgoing ==> incident(edges, n, outgoing)[k].1 == n
            },
    decreases edges.len(),
{
    if edges.len() > 0 {
        let rest = incident(edges.drop_last(), n, outgoing);
        lemma_incident_edges(edges.drop_last(), n, outgoing);
        assert forall|k: int| 0 <= k < incident(edges, n, outgoing).len() implies edges.contains(
            #[trigger] incident(edges, n, outgoing)[k],
        ) by {
            let e = edges.last();
            if (outgoing && e.0 == n) || (!outgoing && e.1 == n) {
                if k == 0 {
                    assert(edges[edges.len() - 1] == e);
                } else {
                    assert(incident(edges, n, outgoing)[k] == rest[k - 1]);
                    let j = choose|j: int| 0 <= j < edges.drop_last().len() && edges.drop_last()[j] == rest[k - 1];
                    assert(edges[j] == rest[k - 1]);
                }
            } else {
                let j = choose|j: int| 0 <= j < edges.drop_last().len() && edges.drop_last()[j] == rest[k];
                assert(edges[j] == rest[k]);
            }
        }
    }
}

/// Creates an empty graph with `DiGraph::new`.
#[verifier::external_body]
pub(crate) fn graph_new() -> (g: DiGraph<(), RelationshipType>)
    ensures
        graph_node_count(g) == 0,
        graph_edges(g) == Seq::<GraphEdge>::empty(),
{
    DiGraph::new()
}

/// `Graph::add_node`: appends a node and returns its index. The graph
/// panics when its `u32` indices are exhausted, so the count stays below
/// `u32::MAX`.
#[verifier::external_body]
pub(crate) fn graph_add_node(g: &mut DiGraph<(), RelationshipType>) -> (r: usize)
    requires
        graph_node_count(*old(g)) < u32::MAX,
    ensures
        r == graph_node_count(*old(g)),
        graph_node_count(*final(g)) == graph_node_count(*old(g)) + 1,
        graph_edges(*final(g)) == graph_edges(*old(g)),
{
    g.add_node(()).index()
}

/// `Graph::add_edge`: appends an edge from `a` to `b`. It panics when a node
/// is missing or the `u32` edge indices are exhausted.
#[verifier::external_body]
pub(crate) fn graph_add_edge(
    g: &mut DiGraph<(), RelationshipType>,
    a: usize,
    b: usize,
    rel: RelationshipType,
)
    requires
        a < graph_node_count(*old(g)),
        b < graph_node_count(*old(g)),
        graph_edges(*old(g)).len() < u32::MAX,
    ensures
        graph_node_count(*final(g)) == graph_node_count(*old(g)),
        graph_edges(*final(g)) == graph_edges(*old(g)).push((a, b, rel)),
{
    g.add_edge(NodeIndex::new(a), NodeIndex::new(b), rel);
}

/// `Graph::node_count`.
#[verifier::external_body]
pub(crate) fn graph_count_nodes(g: &DiGraph<(), RelationshipType>) -> (r: usize)
    ensures
        r == graph_node_count(*g),
{
    g.node_count()
}

/// `Graph::edge_count`.
#[verifier::external_body]
pub(crate) fn graph_count_edges(g: &DiGraph<(), RelationshipType>) -> (r: usize)
    ensures
        r == graph_edges(*g).len(),
{
    g.edge_count()
}

/// `Graph::edges_directed`: the edges leaving (`outgoing`) or entering node
/// `n`; petgraph documents that a directed graph lists them most recently
/// added first. The node index is a `u32`, so `n` must fit in one.
#[verifier::external_body]
pub(crate) fn graph_edges_directed(g: &DiGraph<(), RelationshipType>, n: usize, outgoing: bool) -> (r: Vec<GraphEdge>)
    requires
        n <= u32::MAX,
    ensures
        r@ == incident(graph_edges(*g), n, outgoing),
{
    let dir = if outgoing { Direction::Outgoing } else { Direction::Incoming };
    g.edges_directed(NodeIndex::new(n), dir).map(|e| (e.source().index(), e.target().index(), *e.weight())).collect()
}

/// `Graph::edge_references`: all edges in the order they were added.
#[verifier::external_body]
pub(crate) fn graph_edge_list(g: &DiGraph<(), RelationshipType>) -> (r: Vec<GraphEdge>)
    ensures
        r@ == graph_edges(*g),
{
    g.edge_references().map(|e| (e.source().index(), e.target().index(), *e.weight())).collect()
}

} // verus!

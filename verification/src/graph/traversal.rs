//! Graph traversal for upstream and downstream queries: a depth-first walk
//! that reports one occurrence of an item per path leading to it.
use vstd::prelude::*;

use super::digraph::{incident, lemma_incident_edges, GraphEdge};
use super::knowledge_graph::{find_last, lemma_find_last, KnowledgeGraph};
use crate::model::relationship::{direction_of, inverse_of, lemma_inverse_direction};
use crate::model::{Item, ItemId, ItemType, RelationDirection, RelationshipType};

verus! {

/// A node in the traversal result.
pub struct TraversalNode {
    /// The item at this node.
    pub item_id: ItemId,
    /// Depth from the origin (0 = origin itself).
    pub depth: usize,
    /// Relationship type from parent to this node (None for origin).
    pub relationship: Option<RelationshipType>,
    /// The nearest reported ancestor (None for the first reported node).
    pub parent: Option<ItemId>,
}

/// Result of a traversal operation.
pub struct TraversalResult {
    /// The starting item.
    pub origin: ItemId,
    /// Items found during traversal, in depth-first preorder; an item
    /// reachable through several paths appears once per path.
    pub items: Vec<TraversalNode>,
    /// Maximum depth reached.
    pub max_depth: usize,
}

/// Direction of traversal.
#[derive(Debug, Clone, Copy, PartialEq, Eq, Structural)]
pub enum TraversalDirection {
    /// Traverse toward Solution (following upstream relationships).
    Upstream,
    /// Traverse toward Detailed Designs (following downstream relationships).
    Downstream,
}

/// Options for graph traversal.
pub struct TraversalOptions {
    /// Maximum depth to traverse (None = unlimited).
    pub max_depth: Option<usize>,
    /// Filter results by item types (empty = all types).
    pub type_filter: Vec<ItemType>,
}

impl TraversalOptions {
    /// Creates new traversal options: unlimited depth, every type.
    pub fn new() -> (r: TraversalOptions)
        ensures
            r.max_depth is None,
            r.type_filter@ == Seq::<ItemType>::empty(),
    {
        TraversalOptions { max_depth: None, type_filter: Vec::new() }
    }

    /// Sets the maximum traversal depth.
    pub fn with_max_depth(self, depth: usize) -> (r: TraversalOptions)
        ensures
            r.max_depth == Some(depth),
            r.type_filter@ == self.type_filter@,
    {
        TraversalOptions { max_depth: Some(depth), type_filter: self.type_filter }
    }

    /// Sets the type filter.
    pub fn with_types(self, types: Vec<ItemType>) -> (r: TraversalOptions)
        ensures
            r.max_depth == self.max_depth,
            r.type_filter@ == types@,
    {
        TraversalOptions { max_depth: self.max_depth, type_filter: types }
    }
}

/// A reported node: item identifier, depth, relationship from its parent
/// and the identifier of the nearest reported ancestor.
pub type NodeView = (Seq<char>, nat, Option<RelationshipType>, Option<Seq<char>>);

/// The views of traversal nodes.
pub open spec fn node_views(v: Seq<TraversalNode>) -> Seq<NodeView> {
    v.map_values(
        |n: TraversalNode|
            (
                n.item_id@,
                n.depth as nat,
                n.relationship,
                match n.parent {
                    Some(p) => Some(p@),
                    None => None,
                },
            ),
    )
}

/// The steps along edges of direction `want`: to the source or target,
/// with the relationship as stored or inverted.
pub open spec fn edge_steps(es: Seq<GraphEdge>, want: RelationDirection, to_source: bool, invert: bool) -> Seq<(usize, RelationshipType)>
    decreases es.len(),
{
    if es.len() == 0 {
        seq![]
    } else {
        let e = es.last();
        edge_steps(es.drop_last(), want, to_source, invert) + if direction_of(e.2) == want {
            seq![
                (
                    if to_source { e.0 } else { e.1 },
                    if invert { inverse_of(e.2) } else { e.2 },
                ),
            ]
        } else {
            seq![]
        }
    }
}

/// The nodes a walk moves to from `n`: upstream, the targets of its
/// outgoing upstream edges; downstream, the sources of its incoming
/// upstream edges (with the inverse relationship), then the targets of its
/// outgoing downstream edges.
pub open spec fn walk_neighbors(edges: Seq<GraphEdge>, n: usize, dir: TraversalDirection) -> Seq<(usize, RelationshipType)> {
    match dir {
        TraversalDirection::Upstream => edge_steps(
            incident(edges, n, true),
            RelationDirection::Upstream,
            false,
            false,
        ),
        TraversalDirection::Downstream => edge_steps(
            incident(edges, n, false),
            RelationDirection::Upstream,
            true,
            true,
        ) + edge_steps(incident(edges, n, true), RelationDirection::Downstream, false, false),
    }
}

/// The number of nodes not on the current path.
pub open spec fn count_free(on_path: Seq<bool>) -> nat
    decreases on_path.len(),
{
    if on_path.len() == 0 {
        0
    } else {
        count_free(on_path.drop_last()) + if on_path.last() {
            0nat
        } else {
            1nat
        }
    }
}

/// Putting a node on the path leaves one node fewer off it.
pub proof fn lemma_count_free_update(on_path: Seq<bool>, n: int)
    requires
        0 <= n < on_path.len(),
        !on_path[n],
    ensures
        count_free(on_path.update(n, true)) + 1 == count_free(on_path),
    decreases on_path.len(),
{
    if n < on_path.len() - 1 {
        lemma_count_free_update(on_path.drop_last(), n);
        assert(on_path.update(n, true).drop_last() =~= on_path.drop_last().update(n, true));
    } else {
        assert(on_path.update(n, true).drop_last() =~= on_path.drop_last());
    }
}

/// There are never more free nodes than nodes.
pub proof fn lemma_count_free_bound(on_path: Seq<bool>)
    ensures
        count_free(on_path) <= on_path.len(),
    decreases on_path.len(),
{
    if on_path.len() > 0 {
        lemma_count_free_bound(on_path.drop_last());
    }
}

/// True if the item passes the type filter (an empty filter passes all).
pub open spec fn passes_filter(filter: Seq<ItemType>, t: ItemType) -> bool {
    filter.len() == 0 || filter.contains(t)
}

/// The nodes a depth-first walk reports from node `n`, reached at `depth`
/// through `rel`, below the reported ancestor `parent`, with the nodes of
/// the current path marked in `on_path`.
pub open spec fn walk(
    nodes: Seq<Item>,
    edges: Seq<GraphEdge>,
    dir: TraversalDirection,
    max_depth: Option<usize>,
    filter: Seq<ItemType>,
    n: usize,
    depth: nat,
    rel: Option<RelationshipType>,
    parent: Option<Seq<char>>,
    on_path: Seq<bool>,
) -> Seq<NodeView>
    decreases count_free(on_path), 0nat, 0nat,
{
    if n >= on_path.len() || n >= nodes.len() || on_path[n as int] {
        seq![]
    } else {
        let item = nodes[n as int];
        let shown = passes_filter(filter, item.item_type);
        let here = if shown {
            seq![(item.id@, depth, rel, parent)]
        } else {
            seq![]
        };
        let next_parent = if shown {
            Some(item.id@)
        } else {
            parent
        };
        if max_depth matches Some(m) && depth + 1 > m {
            here
        } else {
            proof {
                lemma_count_free_update(on_path, n as int);
            }
            here + walk_list(
                nodes,
                edges,
                dir,
                max_depth,
                filter,
                walk_neighbors(edges, n, dir),
                0,
                depth + 1,
                next_parent,
                on_path.update(n as int, true),
            )
        }
    }
}

/// The nodes reported from the neighbors `nbrs[i..]` in turn, skipping
/// those on the current path.
pub open spec fn walk_list(
    nodes: Seq<Item>,
    edges: Seq<GraphEdge>,
    dir: TraversalDirection,
    max_depth: Option<usize>,
    filter: Seq<ItemType>,
    nbrs: Seq<(usize, RelationshipType)>,
    i: int,
    depth: nat,
    parent: Option<Seq<char>>,
    on_path: Seq<bool>,
) -> Seq<NodeView>
    decreases count_free(on_path), 1nat, nbrs.len() - i,
{
    if i < 0 || i >= nbrs.len() {
        seq![]
    } else {
        walk(
            nodes,
            edges,
            dir,
            max_depth,
            filter,
            nbrs[i].0,
            depth,
            Some(nbrs[i].1),
            parent,
            on_path,
        ) + walk_list(nodes, edges, dir, max_depth, filter, nbrs, i + 1, depth, parent, on_path)
    }
}

/// The largest depth among reported nodes, 0 when there are none.
pub open spec fn max_depth_of(v: Seq<NodeView>) -> nat
    decreases v.len(),
{
    if v.len() == 0 {
        0
    } else {
        let m = max_depth_of(v.drop_last());
        if v.last().1 > m {
            v.last().1
        } else {
            m
        }
    }
}

/// A depth-limited walk reports nodes only between its starting depth and
/// the limit: a traversal with a maximum depth, which starts at depth 0,
/// reports no node deeper than that maximum.
pub proof fn lemma_walk_depth_bound(
    nodes: Seq<Item>,
    edges: Seq<GraphEdge>,
    dir: TraversalDirection,
    limit: usize,
    filter: Seq<ItemType>,
    n: usize,
    depth: nat,
    rel: Option<RelationshipType>,
    parent: Option<Seq<char>>,
    on_path: Seq<bool>,
)
    requires
        depth <= limit,
    ensures
        forall|k: int|
            0 <= k < walk(nodes, edges, dir, Some(limit), filter, n, depth, rel, parent, on_path).len()
                ==> depth <= (#[trigger] walk(
                nodes,
                edges,
                dir,
                Some(limit),
                filter,
                n,
                depth,
                rel,
                parent,
                on_path,
            )[k]).1 <= limit,
    decreases count_free(on_path), 0nat, 0nat,
{
    let w = walk(nodes, edges, dir, Some(limit), filter, n, depth, rel, parent, on_path);
    if !(n >= on_path.len() || n >= nodes.len() || on_path[n as int]) {
        let item = nodes[n as int];
        let shown = passes_filter(filter, item.item_type);
        let here = if shown {
            seq![(item.id@, depth, rel, parent)]
        } else {
            seq![]
        };
        let next_parent = if shown {
            Some(item.id@)
        } else {
            parent
        };
        if depth + 1 <= limit {
            lemma_count_free_update(on_path, n as int);
            let rest = walk_list(
                nodes,
                edges,
                dir,
                Some(limit),
                filter,
                walk_neighbors(edges, n, dir),
                0,
                depth + 1,
                next_parent,
                on_path.update(n as int, true),
            );
            lemma_walk_list_depth_bound(
                nodes,
                edges,
                dir,
                limit,
                filter,
                walk_neighbors(edges, n, dir),
                0,
                depth + 1,
                next_parent,
                on_path.update(n as int, true),
            );
            assert(w == here + rest);
            assert forall|k: int| 0 <= k < w.len() implies depth <= (#[trigger] w[k]).1 <= limit by {
                if k < here.len() {
                    assert(w[k] == here[k]);
                } else {
                    assert(w[k] == rest[k - here.len()]);
                }
            }
        } else {
            assert(w == here);
        }
    }
}

/// The nodes reported from a list of neighbors lie between their depth and
/// the limit.
pub proof fn lemma_walk_list_depth_bound(
    nodes: Seq<Item>,
    edges: Seq<GraphEdge>,
    dir: TraversalDirection,
    limit: usize,
    filter: Seq<ItemType>,
    nbrs: Seq<(usize, RelationshipType)>,
    i: int,
    depth: nat,
    parent: Option<Seq<char>>,
    on_path: Seq<bool>,
)
    requires
        depth <= limit,
    ensures
        forall|k: int|
            0 <= k < walk_list(nodes, edges, dir, Some(limit), filter, nbrs, i, depth, parent, on_path).len()
                ==> depth <= (#[trigger] walk_list(
                nodes,
                edges,
                dir,
                Some(limit),
                filter,
                nbrs,
                i,
                depth,
                parent,
                on_path,
            )[k]).1 <= limit,
    decreases count_free(on_path), 1nat, nbrs.len() - i,
{
    if 0 <= i < nbrs.len() {
        lemma_walk_depth_bound(
            nodes,
            edges,
            dir,
            limit,
            filter,
            nbrs[i].0,
            depth,
            Some(nbrs[i].1),
            parent,
            on_path,
        );
        lemma_walk_list_depth_bound(nodes, edges, dir, limit, filter, nbrs, i + 1, depth, parent, on_path);
        let a = walk(nodes, edges, dir, Some(limit), filter, nbrs[i].0, depth, Some(nbrs[i].1), parent, on_path);
        let b = walk_list(nodes, edges, dir, Some(limit), filter, nbrs, i + 1, depth, parent, on_path);
        let w = walk_list(nodes, edges, dir, Some(limit), filter, nbrs, i, depth, parent, on_path);
        assert(w == a + b);
        assert forall|k: int| 0 <= k < w.len() implies depth <= (#[trigger] w[k]).1 <= limit by {
            if k < a.len() {
                assert(w[k] == a[k]);
            } else {
                assert(w[k] == b[k - a.len()]);
            }
        }
    }
}

/// A walk never enters a node already on its path, so each step deeper
/// takes one node off the free ones: no reported node lies as deep as its
/// starting depth plus the number of free nodes.
proof fn lemma_walk_free_bound(
    nodes: Seq<Item>,
    edges: Seq<GraphEdge>,
    dir: TraversalDirection,
    md: Option<usize>,
    filter: Seq<ItemType>,
    n: usize,
    depth: nat,
    rel: Option<RelationshipType>,
    parent: Option<Seq<char>>,
    on_path: Seq<bool>,
)
    ensures
        forall|k: int|
            0 <= k < walk(nodes, edges, dir, md, filter, n, depth, rel, parent, on_path).len()
                ==> (#[trigger] walk(nodes, edges, dir, md, filter, n, depth, rel, parent, on_path)[k]).1
                < depth + count_free(on_path),
    decreases count_free(on_path), 0nat, 0nat,
{
    let w = walk(nodes, edges, dir, md, filter, n, depth, rel, parent, on_path);
    if !(n >= on_path.len() || n >= nodes.len() || on_path[n as int]) {
        lemma_count_free_update(on_path, n as int);
        let item = nodes[n as int];
        let shown = passes_filter(filter, item.item_type);
        let here = if shown {
            seq![(item.id@, depth, rel, parent)]
        } else {
            seq![]
        };
        let next_parent = if shown {
            Some(item.id@)
        } else {
            parent
        };
        if md matches Some(m) && depth + 1 > m {
            assert(w == here);
        } else {
            let rest = walk_list(
                nodes,
                edges,
                dir,
                md,
                filter,
                walk_neighbors(edges, n, dir),
                0,
                depth + 1,
                next_parent,
                on_path.update(n as int, true),
            );
            lemma_walk_list_free_bound(
                nodes,
                edges,
                dir,
                md,
                filter,
                walk_neighbors(edges, n, dir),
                0,
                depth + 1,
                next_parent,
                on_path.update(n as int, true),
            );
            assert(w == here + rest);
            assert forall|k: int| 0 <= k < w.len() implies (#[trigger] w[k]).1 < depth + count_free(on_path) by {
                if k < here.len() {
                    assert(w[k] == here[k]);
                } else {
                    assert(w[k] == rest[k - here.len()]);
                }
            }
        }
    }
}

/// The nodes reported from a list of neighbors lie less deep than their
/// depth plus the number of free nodes.
proof fn lemma_walk_list_free_bound(
    nodes: Seq<Item>,
    edges: Seq<GraphEdge>,
    dir: TraversalDirection,
    md: Option<usize>,
    filter: Seq<ItemType>,
    nbrs: Seq<(usize, RelationshipType)>,
    i: int,
    depth: nat,
    parent: Option<Seq<char>>,
    on_path: Seq<bool>,
)
    ensures
        forall|k: int|
            0 <= k < walk_list(nodes, edges, dir, md, filter, nbrs, i, depth, parent, on_path).len()
                ==> (#[trigger] walk_list(nodes, edges, dir, md, filter, nbrs, i, depth, parent, on_path)[k]).1
                < depth + count_free(on_path),
    decreases count_free(on_path), 1nat, nbrs.len() - i,
{
    if 0 <= i < nbrs.len() {
        lemma_walk_free_bound(nodes, edges, dir, md, filter, nbrs[i].0, depth, Some(nbrs[i].1), parent, on_path);
        lemma_walk_list_free_bound(nodes, edges, dir, md, filter, nbrs, i + 1, depth, parent, on_path);
        let a = walk(nodes, edges, dir, md, filter, nbrs[i].0, depth, Some(nbrs[i].1), parent, on_path);
        let b = walk_list(nodes, edges, dir, md, filter, nbrs, i + 1, depth, parent, on_path);
        let w = walk_list(nodes, edges, dir, md, filter, nbrs, i, depth, parent, on_path);
        assert(w == a + b);
        assert forall|k: int| 0 <= k < w.len() implies (#[trigger] w[k]).1 < depth + count_free(on_path) by {
            if k < a.len() {
                assert(w[k] == a[k]);
            } else {
                assert(w[k] == b[k - a.len()]);
            }
        }
    }
}

/// With no node on the path, every node is free.
proof fn lemma_count_free_none(len: nat)
    ensures
        count_free(Seq::new(len, |i: int| false)) == len,
    decreases len,
{
    if len > 0 {
        lemma_count_free_none((len - 1) as nat);
        assert(Seq::new(len, |i: int| false).drop_last() =~= Seq::new((len - 1) as nat, |i: int| false));
    }
}

/// The steps of `edge_steps` lead to nodes that `es` touches.
proof fn lemma_edge_steps_bound(es: Seq<GraphEdge>, want: RelationDirection, to_source: bool, invert: bool, bound: nat)
    requires
        forall|k: int| 0 <= k < es.len() ==> (#[trigger] es[k]).0 < bound && es[k].1 < bound,
    ensures
        forall|k: int|
            0 <= k < edge_steps(es, want, to_source, invert).len() ==> (#[trigger] edge_steps(
                es,
                want,
                to_source,
                invert,
            )[k]).0 < bound,
    decreases es.len(),
{
    if es.len() > 0 {
        let rest = es.drop_last();
        assert forall|k: int| 0 <= k < rest.len() implies (#[trigger] rest[k]).0 < bound && rest[k].1 < bound by {
            assert(rest[k] == es[k]);
        }
        lemma_edge_steps_bound(rest, want, to_source, invert, bound);
        assert(es.last() == es[es.len() - 1]);
        let s = edge_steps(es, want, to_source, invert);
        let sr = edge_steps(rest, want, to_source, invert);
        assert forall|k: int| 0 <= k < s.len() implies (#[trigger] s[k]).0 < bound by {
            if k < sr.len() {
                assert(s[k] == sr[k]);
            }
        }
    }
}

/// Returns true if `t` is one of `types`.
fn type_listed(types: &Vec<ItemType>, t: ItemType) -> (r: bool)
    ensures
        r == types@.contains(t),
{
    let mut i: usize = 0;
    while i < types.len()
        invariant
            i <= types.len(),
            forall|j: int| 0 <= j < i ==> types@[j] != t,
        decreases types.len() - i,
    {
        if types[i] == t {
            assert(types@[i as int] == t);
            return true;
        }
        i += 1;
    }
    false
}

/// Appends the steps along the edges of direction `want` to `out`.
fn push_steps(
    out: &mut Vec<(usize, RelationshipType)>,
    es: &Vec<GraphEdge>,
    want: RelationDirection,
    to_source: bool,
    invert: bool,
)
    ensures
        final(out)@ == old(out)@ + edge_steps(es@, want, to_source, invert),
{
    let mut i: usize = 0;
    while i < es.len()
        invariant
            i <= es.len(),
            out@ == old(out)@ + edge_steps(es@.take(i as int), want, to_source, invert),
        decreases es.len() - i,
    {
        let ghost before = out@;
        assert(es@.take(i + 1).drop_last() =~= es@.take(i as int));
        assert(es@.take(i + 1).last() == es@[i as int]);
        let e = es[i];
        if e.2.direction() == want {
            let node = if to_source { e.0 } else { e.1 };
            let rel = if invert { e.2.inverse() } else { e.2 };
            out.push((node, rel));
            assert(out@ =~= old(out)@ + edge_steps(es@.take(i + 1), want, to_source, invert));
        } else {
            assert(out@ =~= old(out)@ + edge_steps(es@.take(i + 1), want, to_source, invert));
        }
        i += 1;
    }
    assert(es@.take(es.len() as int) =~= es@);
}

/// The nodes a walk moves to from node `n`, with the relationship seen
/// from `n`.
fn neighbors(graph: &KnowledgeGraph, n: usize, dir: TraversalDirection) -> (r: Vec<(usize, RelationshipType)>)
    requires
        graph.wf(),
        n < graph.nodes().len(),
    ensures
        r@ == walk_neighbors(graph.edges(), n, dir),
        forall|k: int| 0 <= k < r@.len() ==> (#[trigger] r@[k]).0 < graph.nodes().len(),
{
    let mut r: Vec<(usize, RelationshipType)> = Vec::new();
    match dir {
        TraversalDirection::Upstream => {
            let out = graph.edges_directed(n, true);
            push_steps(&mut r, &out, RelationDirection::Upstream, false, false);
            proof {
                lemma_edge_steps_bound(out@, RelationDirection::Upstream, false, false, graph.nodes().len());
            }
        },
        TraversalDirection::Downstream => {
            let inc = graph.edges_directed(n, false);
            push_steps(&mut r, &inc, RelationDirection::Upstream, true, true);
            let out = graph.edges_directed(n, true);
            push_steps(&mut r, &out, RelationDirection::Downstream, false, false);
            proof {
                lemma_edge_steps_bound(inc@, RelationDirection::Upstream, true, true, graph.nodes().len());
                lemma_edge_steps_bound(out@, RelationDirection::Downstream, false, false, graph.nodes().len());
            }
        },
    }
    r
}

/// Visits node `n`: reports it when it passes the type filter, then, unless
/// the depth limit stops it, visits each neighbor not on the current path.
fn visit(
    graph: &KnowledgeGraph,
    dir: TraversalDirection,
    options: &TraversalOptions,
    n: usize,
    depth: usize,
    rel: Option<RelationshipType>,
    parent: Option<&ItemId>,
    on_path: &mut Vec<bool>,
    items: &mut Vec<TraversalNode>,
)
    requires
        graph.wf(),
        old(on_path)@.len() == graph.nodes().len(),
        n < graph.nodes().len(),
        !old(on_path)@[n as int],
        depth + count_free(old(on_path)@) == graph.nodes().len(),
    ensures
        final(on_path)@ == old(on_path)@,
        node_views(final(items)@) == node_views(old(items)@) + walk(
            graph.nodes(),
            graph.edges(),
            dir,
            options.max_depth,
            options.type_filter@,
            n,
            depth as nat,
            rel,
            match parent {
                Some(p) => Some(p@),
                None => None,
            },
            old(on_path)@,
        ),
    decreases count_free(on_path@),
{
    let ghost nodes = graph.nodes();
    let ghost edges = graph.edges();
    let ghost filter = options.type_filter@;
    let ghost pv: Option<Seq<char>> = match parent {
        Some(p) => Some(p@),
        None => None,
    };
    let ghost path0 = on_path@;
    let items_all = graph.items();
    let item = &items_all[n];
    let shown = options.type_filter.len() == 0 || type_listed(&options.type_filter, item.item_type);
    assert(shown == passes_filter(filter, item.item_type));
    let ghost base = node_views(items@);
    if shown {
        let p = match parent {
            Some(p) => Some(p.duplicate()),
            None => None,
        };
        items.push(TraversalNode { item_id: item.id.duplicate(), depth, relationship: rel, parent: p });
        assert(node_views(items@) =~= base + seq![(item.id@, depth as nat, rel, pv)]);
    }
    let ghost here = if shown {
        seq![(item.id@, depth as nat, rel, pv)]
    } else {
        Seq::<NodeView>::empty()
    };
    assert(node_views(items@) == base + here);
    let next_parent: Option<&ItemId> = if shown {
        Some(&item.id)
    } else {
        parent
    };
    let ghost npv: Option<Seq<char>> = match next_parent {
        Some(p) => Some(p@),
        None => None,
    };
    proof {
        lemma_count_free_bound(path0);
    }
    let stop = match options.max_depth {
        Some(m) => depth >= m,
        None => false,
    };
    if stop {
        return;
    }
    proof {
        lemma_count_free_update(path0, n as int);
    }
    let next_depth = depth + 1;
    on_path.set(n, true);
    let ghost path1 = on_path@;
    let nbrs = neighbors(graph, n, dir);
    let ghost target = base + here + walk_list(
        nodes,
        edges,
        dir,
        options.max_depth,
        filter,
        nbrs@,
        0,
        next_depth as nat,
        npv,
        path1,
    );
    let mut j: usize = 0;
    while j < nbrs.len()
        invariant
            graph.wf(),
            nodes == graph.nodes(),
            edges == graph.edges(),
            filter == options.type_filter@,
            on_path@ == path1,
            path1.len() == nodes.len(),
            next_depth + count_free(path1) == nodes.len(),
            count_free(path1) + 1 == count_free(path0),
            path0 == old(on_path)@,
            forall|k: int| 0 <= k < nbrs@.len() ==> (#[trigger] nbrs@[k]).0 < nodes.len(),
            j <= nbrs.len(),
            npv == match next_parent {
                Some(p) => Some(p@),
                None => None,
            },
            node_views(items@) + walk_list(
                nodes,
                edges,
                dir,
                options.max_depth,
                filter,
                nbrs@,
                j as int,
                next_depth as nat,
                npv,
                path1,
            ) == target,
        decreases nbrs.len() - j,
    {
        let (t, r) = nbrs[j];
        let ghost cur = node_views(items@);
        let ghost sub = walk(
            nodes,
            edges,
            dir,
            options.max_depth,
            filter,
            t,
            next_depth as nat,
            Some(r),
            npv,
            path1,
        );
        let ghost rest = walk_list(
            nodes,
            edges,
            dir,
            options.max_depth,
            filter,
            nbrs@,
            j + 1,
            next_depth as nat,
            npv,
            path1,
        );
        assert(walk_list(
            nodes,
            edges,
            dir,
            options.max_depth,
            filter,
            nbrs@,
            j as int,
            next_depth as nat,
            npv,
            path1,
        ) == sub + rest);
        if !on_path[t] {
            visit(graph, dir, options, t, next_depth, Some(r), next_parent, on_path, items);
            assert(node_views(items@) + rest =~= cur + (sub + rest));
        } else {
            assert(sub == Seq::<NodeView>::empty());
            assert(node_views(items@) + rest =~= cur + (sub + rest));
        }
        j += 1;
    }
    assert(walk_list(
        nodes,
        edges,
        dir,
        options.max_depth,
        filter,
        nbrs@,
        nbrs.len() as int,
        next_depth as nat,
        npv,
        path1,
    ) == Seq::<NodeView>::empty());
    on_path.set(n, false);
    assert(on_path@ =~= path0);
    assert(nbrs@ == walk_neighbors(edges, n, dir));
}

/// Walks the graph from `start` in the given direction; `None` when the
/// start item is not in the graph.
#[verifier::spinoff_prover]
fn traverse_graph(
    graph: &KnowledgeGraph,
    start: &ItemId,
    direction: TraversalDirection,
    options: &TraversalOptions,
) -> (r: Option<TraversalResult>)
    requires
        graph.wf(),
    ensures
        match find_last(graph.nodes(), start@) {
            None => r is None,
            Some(s) => r matches Some(res) && res.origin@ == start@ && node_views(res.items@)
                == walk(
                graph.nodes(),
                graph.edges(),
                direction,
                options.max_depth,
                options.type_filter@,
                s as usize,
                0,
                None,
                None,
                Seq::new(graph.nodes().len(), |i: int| false),
            ) && res.max_depth == max_depth_of(node_views(res.items@)),
        },
{
    proof {
        lemma_find_last(graph.nodes(), start@);
    }
    let start_idx = match graph.node_index(start) {
        Some(i) => i,
        None => return None,
    };
    let n = graph.item_count();
    let mut on_path: Vec<bool> = Vec::new();
    let mut i: usize = 0;
    while i < n
        invariant
            i <= n,
            on_path@ == Seq::new(i as nat, |k: int| false),
            count_free(on_path@) == i,
        decreases n - i,
    {
        on_path.push(false);
        assert(on_path@.drop_last() =~= Seq::new(i as nat, |k: int| false));
        assert(on_path@ =~= Seq::new((i + 1) as nat, |k: int| false));
        i += 1;
    }
    let mut items: Vec<TraversalNode> = Vec::new();
    visit(graph, direction, options, start_idx, 0, None, None, &mut on_path, &mut items);
    assert(node_views(items@) =~= Seq::<NodeView>::empty() + node_views(items@));
    let mut max_depth: usize = 0;
    let mut k: usize = 0;
    while k < items.len()
        invariant
            k <= items.len(),
            max_depth == max_depth_of(node_views(items@).take(k as int)),
        decreases items.len() - k,
    {
        assert(node_views(items@).take(k + 1).drop_last() =~= node_views(items@).take(k as int));
        assert(node_views(items@).take(k + 1).last() == node_views(items@)[k as int]);
        if items[k].depth > max_depth {
            max_depth = items[k].depth;
        }
        k += 1;
    }
    assert(node_views(items@).take(items.len() as int) =~= node_views(items@));
    Some(TraversalResult { origin: start.duplicate(), items, max_depth })
}

/// True if a reported node stands for an item of the graph whose type
/// passes the filter.
pub open spec fn from_filtered_item(nodes: Seq<Item>, filter: Seq<ItemType>, v: NodeView) -> bool {
    exists|j: int| 0 <= j < nodes.len() && #[trigger] nodes[j].id@ == v.0 && passes_filter(filter, nodes[j].item_type)
}

/// Every node a walk reports is an item of the graph that passes the type
/// filter.
proof fn lemma_walk_filter(
    nodes: Seq<Item>,
    edges: Seq<GraphEdge>,
    dir: TraversalDirection,
    max_depth: Option<usize>,
    filter: Seq<ItemType>,
    n: usize,
    depth: nat,
    rel: Option<RelationshipType>,
    parent: Option<Seq<char>>,
    on_path: Seq<bool>,
)
    ensures
        forall|k: int|
            0 <= k < walk(nodes, edges, dir, max_depth, filter, n, depth, rel, parent, on_path).len()
                ==> from_filtered_item(
                nodes,
                filter,
                #[trigger] walk(nodes, edges, dir, max_depth, filter, n, depth, rel, parent, on_path)[k],
            ),
    decreases count_free(on_path), 0nat, 0nat,
{
    let w = walk(nodes, edges, dir, max_depth, filter, n, depth, rel, parent, on_path);
    if !(n >= on_path.len() || n >= nodes.len() || on_path[n as int]) {
        let item = nodes[n as int];
        let shown = passes_filter(filter, item.item_type);
        let here = if shown {
            seq![(item.id@, depth, rel, parent)]
        } else {
            seq![]
        };
        let next_parent = if shown {
            Some(item.id@)
        } else {
            parent
        };
        if shown {
            assert(from_filtered_item(nodes, filter, here[0])) by {
                assert(nodes[n as int].id@ == here[0].0);
            }
        }
        if max_depth matches Some(m) && depth + 1 > m {
            assert(w == here);
        } else {
            lemma_count_free_update(on_path, n as int);
            let rest = walk_list(
                nodes,
                edges,
                dir,
                max_depth,
                filter,
                walk_neighbors(edges, n, dir),
                0,
                depth + 1,
                next_parent,
                on_path.update(n as int, true),
            );
            lemma_walk_list_filter(
                nodes,
                edges,
                dir,
                max_depth,
                filter,
                walk_neighbors(edges, n, dir),
                0,
                depth + 1,
                next_parent,
                on_path.update(n as int, true),
            );
            assert(w == here + rest);
            assert forall|k: int| 0 <= k < w.len() implies from_filtered_item(nodes, filter, #[trigger] w[k]) by {
                if k < here.len() {
                    assert(w[k] == here[k]);
                } else {
                    assert(w[k] == rest[k - here.len()]);
                }
            }
        }
    }
}

/// Every node reported from a list of neighbors is an item of the graph
/// that passes the type filter.
proof fn lemma_walk_list_filter(
    nodes: Seq<Item>,
    edges: Seq<GraphEdge>,
    dir: TraversalDirection,
    max_depth: Option<usize>,
    filter: Seq<ItemType>,
    nbrs: Seq<(usize, RelationshipType)>,
    i: int,
    depth: nat,
    parent: Option<Seq<char>>,
    on_path: Seq<bool>,
)
    ensures
        forall|k: int|
            0 <= k < walk_list(nodes, edges, dir, max_depth, filter, nbrs, i, depth, parent, on_path).len()
                ==> from_filtered_item(
                nodes,
                filter,
                #[trigger] walk_list(nodes, edges, dir, max_depth, filter, nbrs, i, depth, parent, on_path)[k],
            ),
    decreases count_free(on_path), 1nat, nbrs.len() - i,
{
    if 0 <= i < nbrs.len() {
        lemma_walk_filter(nodes, edges, dir, max_depth, filter, nbrs[i].0, depth, Some(nbrs[i].1), parent, on_path);
        lemma_walk_list_filter(nodes, edges, dir, max_depth, filter, nbrs, i + 1, depth, parent, on_path);
        let a = walk(nodes, edges, dir, max_depth, filter, nbrs[i].0, depth, Some(nbrs[i].1), parent, on_path);
        let b = walk_list(nodes, edges, dir, max_depth, filter, nbrs, i + 1, depth, parent, on_path);
        let w = walk_list(nodes, edges, dir, max_depth, filter, nbrs, i, depth, parent, on_path);
        assert(w == a + b);
        assert forall|k: int| 0 <= k < w.len() implies from_filtered_item(nodes, filter, #[trigger] w[k]) by {
            if k < a.len() {
                assert(w[k] == a[k]);
            } else {
                assert(w[k] == b[k - a.len()]);
            }
        }
    }
}

/// The largest depth bounds every depth, and is one of them when there are
/// nodes.
proof fn lemma_max_depth_of(v: Seq<NodeView>)
    ensures
        forall|k: int| 0 <= k < v.len() ==> (#[trigger] v[k]).1 <= max_depth_of(v),
        v.len() > 0 ==> exists|k: int| 0 <= k < v.len() && (#[trigger] v[k]).1 == max_depth_of(v),
        v.len() == 0 ==> max_depth_of(v) == 0,
    decreases v.len(),
{
    if v.len() > 0 {
        let p = v.drop_last();
        lemma_max_depth_of(p);
        assert forall|k: int| 0 <= k < v.len() implies (#[trigger] v[k]).1 <= max_depth_of(v) by {
            if k < p.len() {
                assert(v[k] == p[k]);
            }
        }
        if v.last().1 > max_depth_of(p) {
            assert(v[v.len() - 1].1 == max_depth_of(v));
        } else if p.len() > 0 {
            let k = choose|k: int| 0 <= k < p.len() && (#[trigger] p[k]).1 == max_depth_of(p);
            assert(v[k] == p[k]);
        } else {
            assert(v[0].1 == max_depth_of(v));
        }
    }
}

/// The chains of reported ancestors (their identifiers, from the start
/// down) of the nodes a walk reports, in the order `walk` reports them; a
/// node's parent is the last identifier of its chain.
pub open spec fn walk_chains(
    nodes: Seq<Item>,
    edges: Seq<GraphEdge>,
    dir: TraversalDirection,
    max_depth: Option<usize>,
    filter: Seq<ItemType>,
    n: usize,
    depth: nat,
    chain: Seq<Seq<char>>,
    on_path: Seq<bool>,
) -> Seq<Seq<Seq<char>>>
    decreases count_free(on_path), 0nat, 0nat,
{
    if n >= on_path.len() || n >= nodes.len() || on_path[n as int] {
        seq![]
    } else {
        let item = nodes[n as int];
        let shown = passes_filter(filter, item.item_type);
        let here = if shown {
            seq![chain]
        } else {
            seq![]
        };
        let next_chain = if shown {
            chain.push(item.id@)
        } else {
            chain
        };
        if max_depth matches Some(m) && depth + 1 > m {
            here
        } else {
            proof {
                lemma_count_free_update(on_path, n as int);
            }
            here + walk_list_chains(
                nodes,
                edges,
                dir,
                max_depth,
                filter,
                walk_neighbors(edges, n, dir),
                0,
                depth + 1,
                next_chain,
                on_path.update(n as int, true),
            )
        }
    }
}

/// The ancestor chains of the nodes reported from the neighbors `nbrs[i..]`.
pub open spec fn walk_list_chains(
    nodes: Seq<Item>,
    edges: Seq<GraphEdge>,
    dir: TraversalDirection,
    max_depth: Option<usize>,
    filter: Seq<ItemType>,
    nbrs: Seq<(usize, RelationshipType)>,
    i: int,
    depth: nat,
    chain: Seq<Seq<char>>,
    on_path: Seq<bool>,
) -> Seq<Seq<Seq<char>>>
    decreases count_free(on_path), 1nat, nbrs.len() - i,
{
    if i < 0 || i >= nbrs.len() {
        seq![]
    } else {
        walk_chains(nodes, edges, dir, max_depth, filter, nbrs[i].0, depth, chain, on_path)
            + walk_list_chains(nodes, edges, dir, max_depth, filter, nbrs, i + 1, depth, chain, on_path)
    }
}

/// The last identifier of a chain, if any.
pub open spec fn chain_parent(chain: Seq<Seq<char>>) -> Option<Seq<char>> {
    if chain.len() == 0 {
        None
    } else {
        Some(chain.last())
    }
}

/// True if no two items share an identifier.
pub open spec fn unique_ids(nodes: Seq<Item>) -> bool {
    forall|i: int, j: int| 0 <= i < j < nodes.len() ==> #[trigger] nodes[i].id@ != #[trigger] nodes[j].id@
}

/// True if every identifier of the chain is that of a node on the path.
spec fn chain_on_path(nodes: Seq<Item>, on_path: Seq<bool>, chain: Seq<Seq<char>>) -> bool {
    forall|c: int|
        #![trigger chain[c]]
        0 <= c < chain.len() ==> exists|p: int|
            0 <= p < on_path.len() && p < nodes.len() && on_path[p] && #[trigger] nodes[p].id@ == chain[c]
}

/// A walk reports each node with its ancestor chain: the parent is the
/// chain's last identifier, and, as no walk enters a node on its path, the
/// node's identifier is not in its chain when identifiers are unique.
proof fn lemma_walk_chains(
    nodes: Seq<Item>,
    edges: Seq<GraphEdge>,
    dir: TraversalDirection,
    md: Option<usize>,
    filter: Seq<ItemType>,
    n: usize,
    depth: nat,
    rel: Option<RelationshipType>,
    chain: Seq<Seq<char>>,
    on_path: Seq<bool>,
)
    requires
        unique_ids(nodes),
        chain_on_path(nodes, on_path, chain),
    ensures
        walk_chains(nodes, edges, dir, md, filter, n, depth, chain, on_path).len() == walk(
            nodes,
            edges,
            dir,
            md,
            filter,
            n,
            depth,
            rel,
            chain_parent(chain),
            on_path,
        ).len(),
        forall|k: int|
            0 <= k < walk_chains(nodes, edges, dir, md, filter, n, depth, chain, on_path).len() ==> {
                let v = walk(nodes, edges, dir, md, filter, n, depth, rel, chain_parent(chain), on_path)[k];
                let c = #[trigger] walk_chains(nodes, edges, dir, md, filter, n, depth, chain, on_path)[k];
                &&& !c.contains(v.0)
                &&& v.3 == chain_parent(c)
            },
    decreases count_free(on_path), 0nat, 0nat,
{
    let w = walk(nodes, edges, dir, md, filter, n, depth, rel, chain_parent(chain), on_path);
    let wc = walk_chains(nodes, edges, dir, md, filter, n, depth, chain, on_path);
    if !(n >= on_path.len() || n >= nodes.len() || on_path[n as int]) {
        let item = nodes[n as int];
        let shown = passes_filter(filter, item.item_type);
        let here = if shown {
            seq![(item.id@, depth, rel, chain_parent(chain))]
        } else {
            seq![]
        };
        let here_c = if shown {
            seq![chain]
        } else {
            seq![]
        };
        let next_chain = if shown {
            chain.push(item.id@)
        } else {
            chain
        };
        assert(!chain.contains(item.id@)) by {
            if chain.contains(item.id@) {
                let c = choose|c: int| 0 <= c < chain.len() && chain[c] == item.id@;
                let p = choose|p: int|
                    0 <= p < on_path.len() && p < nodes.len() && on_path[p] && #[trigger] nodes[p].id@ == chain[c];
                if p < n {
                    assert(nodes[p].id@ != nodes[n as int].id@);
                } else if p > n {
                    assert(nodes[n as int].id@ != nodes[p].id@);
                }
            }
        }
        if md matches Some(m) && depth + 1 > m {
            assert(w == here);
            assert(wc == here_c);
        } else {
            let path1 = on_path.update(n as int, true);
            lemma_count_free_update(on_path, n as int);
            assert(chain_parent(next_chain) == if shown {
                Some(item.id@)
            } else {
                chain_parent(chain)
            });
            assert(chain_on_path(nodes, path1, next_chain)) by {
                assert forall|c: int| #![trigger next_chain[c]] 0 <= c < next_chain.len() implies exists|p: int|
                    0 <= p < path1.len() && p < nodes.len() && path1[p] && #[trigger] nodes[p].id@
                        == next_chain[c] by {
                    if c < chain.len() {
                        let p = choose|p: int|
                            0 <= p < on_path.len() && p < nodes.len() && on_path[p] && #[trigger] nodes[p].id@
                                == chain[c];
                        assert(path1[p]);
                        assert(nodes[p].id@ == next_chain[c]);
                    } else {
                        assert(path1[n as int]);
                        assert(nodes[n as int].id@ == next_chain[c]);
                    }
                }
            }
            let nbrs = walk_neighbors(edges, n, dir);
            lemma_walk_list_chains(nodes, edges, dir, md, filter, nbrs, 0, depth + 1, next_chain, path1);
            let rest = walk_list(nodes, edges, dir, md, filter, nbrs, 0, depth + 1, chain_parent(next_chain), path1);
            let rest_c = walk_list_chains(nodes, edges, dir, md, filter, nbrs, 0, depth + 1, next_chain, path1);
            assert(w == here + rest);
            assert(wc == here_c + rest_c);
            assert forall|k: int| 0 <= k < wc.len() implies !(#[trigger] wc[k]).contains(w[k].0) && w[k].3
                == chain_parent(wc[k]) by {
                if k < here_c.len() {
                    assert(w[k] == here[k]);
                    assert(wc[k] == here_c[k]);
                } else {
                    assert(w[k] == rest[k - here.len()]);
                    assert(wc[k] == rest_c[k - here_c.len()]);
                }
            }
        }
    }
}

/// The ancestor chains of the nodes reported from a list of neighbors.
proof fn lemma_walk_list_chains(
    nodes: Seq<Item>,
    edges: Seq<GraphEdge>,
    dir: TraversalDirection,
    md: Option<usize>,
    filter: Seq<ItemType>,
    nbrs: Seq<(usize, RelationshipType)>,
    i: int,
    depth: nat,
    chain: Seq<Seq<char>>,
    on_path: Seq<bool>,
)
    requires
        unique_ids(nodes),
        chain_on_path(nodes, on_path, chain),
    ensures
        walk_list_chains(nodes, edges, dir, md, filter, nbrs, i, depth, chain, on_path).len() == walk_list(
            nodes,
            edges,
            dir,
            md,
            filter,
            nbrs,
            i,
            depth,
            chain_parent(chain),
            on_path,
        ).len(),
        forall|k: int|
            0 <= k < walk_list_chains(nodes, edges, dir, md, filter, nbrs, i, depth, chain, on_path).len() ==> {
                let v = walk_list(nodes, edges, dir, md, filter, nbrs, i, depth, chain_parent(chain), on_path)[k];
                let c = #[trigger] walk_list_chains(nodes, edges, dir, md, filter, nbrs, i, depth, chain, on_path)[k];
                &&& !c.contains(v.0)
                &&& v.3 == chain_parent(c)
            },
    decreases count_free(on_path), 1nat, nbrs.len() - i,
{
    if 0 <= i < nbrs.len() {
        lemma_walk_chains(nodes, edges, dir, md, filter, nbrs[i].0, depth, Some(nbrs[i].1), chain, on_path);
        lemma_walk_list_chains(nodes, edges, dir, md, filter, nbrs, i + 1, depth, chain, on_path);
        let p = chain_parent(chain);
        let a = walk(nodes, edges, dir, md, filter, nbrs[i].0, depth, Some(nbrs[i].1), p, on_path);
        let b = walk_list(nodes, edges, dir, md, filter, nbrs, i + 1, depth, p, on_path);
        let w = walk_list(nodes, edges, dir, md, filter, nbrs, i, depth, p, on_path);
        let ac = walk_chains(nodes, edges, dir, md, filter, nbrs[i].0, depth, chain, on_path);
        let bc = walk_list_chains(nodes, edges, dir, md, filter, nbrs, i + 1, depth, chain, on_path);
        let wc = walk_list_chains(nodes, edges, dir, md, filter, nbrs, i, depth, chain, on_path);
        assert(w == a + b);
        assert(wc == ac + bc);
        assert forall|k: int| 0 <= k < wc.len() implies !(#[trigger] wc[k]).contains(w[k].0) && w[k].3
            == chain_parent(wc[k]) by {
            if k < ac.len() {
                assert(w[k] == a[k]);
                assert(wc[k] == ac[k]);
            } else {
                assert(w[k] == b[k - a.len()]);
                assert(wc[k] == bc[k - ac.len()]);
            }
        }
    }
}

/// The ancestor chains of what a traversal from `start` reports: nothing
/// when no item has that identifier.
pub open spec fn traversal_chains(
    graph: KnowledgeGraph,
    dir: TraversalDirection,
    options: TraversalOptions,
    start: Seq<char>,
) -> Seq<Seq<Seq<char>>> {
    match find_last(graph.nodes(), start) {
        None => seq![],
        Some(s) => walk_chains(
            graph.nodes(),
            graph.edges(),
            dir,
            options.max_depth,
            options.type_filter@,
            s as usize,
            0,
            seq![],
            Seq::new(graph.nodes().len(), |i: int| false),
        ),
    }
}

/// Cycles end the walk: in a graph whose identifiers are unique, each
/// reported node has one ancestor chain (the identifiers of the reported
/// nodes above it, from the start down), its parent is the last of them,
/// and its own identifier is not among them, so no identifier repeats
/// along a parent chain.
pub proof fn lemma_traversal_chains(
    graph: KnowledgeGraph,
    dir: TraversalDirection,
    options: TraversalOptions,
    start: Seq<char>,
    r: TraversalResult,
)
    requires
        traversal_outcome(graph, dir, options, start, Some(r)),
        unique_ids(graph.nodes()),
    ensures
        traversal_chains(graph, dir, options, start).len() == r.items@.len(),
        forall|k: int|
            0 <= k < r.items@.len() ==> {
                let c = #[trigger] traversal_chains(graph, dir, options, start)[k];
                &&& !c.contains(node_views(r.items@)[k].0)
                &&& node_views(r.items@)[k].3 == chain_parent(c)
            },
{
    let s = find_last(graph.nodes(), start)->0;
    let on_path = Seq::new(graph.nodes().len(), |i: int| false);
    assert(chain_on_path(graph.nodes(), on_path, seq![]));
    assert(chain_parent(seq![]) == None::<Seq<char>>);
    lemma_walk_chains(
        graph.nodes(),
        graph.edges(),
        dir,
        options.max_depth,
        options.type_filter@,
        s as usize,
        0,
        None,
        seq![],
        on_path,
    );
    assert(node_views(r.items@).len() == r.items@.len());
}

/// The direction of the relations a walk follows: upstream relations
/// upstream, downstream relations downstream.
pub open spec fn step_direction(dir: TraversalDirection) -> RelationDirection {
    match dir {
        TraversalDirection::Upstream => RelationDirection::Upstream,
        TraversalDirection::Downstream => RelationDirection::Downstream,
    }
}

/// True if an edge of the graph lets a walk in direction `dir` step from
/// node `p` to node `m` through relation `r`: upstream, an edge from `p`
/// to `m` whose relation `r` is upstream; downstream, an upstream edge
/// from `m` to `p` read backwards (`r` its inverse), or a downstream edge
/// from `p` to `m` with relation `r`.
pub open spec fn walk_step(edges: Seq<GraphEdge>, dir: TraversalDirection, p: int, m: int, r: RelationshipType) -> bool {
    exists|e: int|
        0 <= e < edges.len() && match dir {
            TraversalDirection::Upstream => (#[trigger] edges[e]).0 == p && edges[e].1 == m && edges[e].2 == r
                && direction_of(r) == RelationDirection::Upstream,
            TraversalDirection::Downstream => ((edges[e].1 == p && edges[e].0 == m && direction_of(edges[e].2)
                == RelationDirection::Upstream && r == inverse_of(edges[e].2)) || (edges[e].0 == p && edges[e].1
                == m && edges[e].2 == r && direction_of(r) == RelationDirection::Downstream)),
        }
}

/// True if a reported node is well reached: only the start (depth 0) has
/// no relationship; any other node is an item of the graph reached from an
/// item through a step of the walk, by a relation of the walk's direction;
/// with no type filter, its parent is the item it was reached from.
pub open spec fn reached(
    nodes: Seq<Item>,
    edges: Seq<GraphEdge>,
    dir: TraversalDirection,
    filter: Seq<ItemType>,
    v: NodeView,
) -> bool {
    &&& (v.2 is None <==> v.1 == 0)
    &&& v.2 matches Some(r) ==> {
        &&& direction_of(r) == step_direction(dir)
        &&& exists|m: int, p: int|
            0 <= m < nodes.len() && 0 <= p < nodes.len() && nodes[m].id@ == v.0 && #[trigger] walk_step(
                edges,
                dir,
                p,
                m,
                r,
            ) && (filter.len() == 0 ==> v.3 == Some(nodes[p].id@))
    }
}

/// Each step of `edge_steps` comes from an edge of `es` of the wanted
/// direction.
proof fn lemma_edge_steps_source(es: Seq<GraphEdge>, want: RelationDirection, to_source: bool, invert: bool, j: int) -> (e: int)
    requires
        0 <= j < edge_steps(es, want, to_source, invert).len(),
    ensures
        0 <= e < es.len(),
        direction_of(es[e].2) == want,
        edge_steps(es, want, to_source, invert)[j] == (
            if to_source {
                es[e].0
            } else {
                es[e].1
            },
            if invert {
                inverse_of(es[e].2)
            } else {
                es[e].2
            },
        ),
    decreases es.len(),
{
    let prev = edge_steps(es.drop_last(), want, to_source, invert);
    if j < prev.len() {
        let e = lemma_edge_steps_source(es.drop_last(), want, to_source, invert, j);
        assert(es.drop_last()[e] == es[e]);
        e
    } else {
        es.len() - 1
    }
}

/// Every neighbor a walk moves to from `n` is one step of the walk away,
/// through a relation of the walk's direction.
proof fn lemma_neighbor_steps(edges: Seq<GraphEdge>, n: usize, dir: TraversalDirection, j: int)
    requires
        0 <= j < walk_neighbors(edges, n, dir).len(),
    ensures
        walk_step(edges, dir, n as int, walk_neighbors(edges, n, dir)[j].0 as int, walk_neighbors(edges, n, dir)[j].1),
        direction_of(walk_neighbors(edges, n, dir)[j].1) == step_direction(dir),
{
    let nb = walk_neighbors(edges, n, dir);
    match dir {
        TraversalDirection::Upstream => {
            let es = incident(edges, n, true);
            lemma_incident_edges(edges, n, true);
            let e = lemma_edge_steps_source(es, RelationDirection::Upstream, false, false, j);
            assert(edges.contains(es[e]));
            let x = choose|x: int| 0 <= x < edges.len() && edges[x] == es[e];
            assert(walk_step(edges, dir, n as int, nb[j].0 as int, nb[j].1));
        },
        TraversalDirection::Downstream => {
            let a = edge_steps(incident(edges, n, false), RelationDirection::Upstream, true, true);
            let b = edge_steps(incident(edges, n, true), RelationDirection::Downstream, false, false);
            assert(nb == a + b);
            if j < a.len() {
                let es = incident(edges, n, false);
                lemma_incident_edges(edges, n, false);
                let e = lemma_edge_steps_source(es, RelationDirection::Upstream, true, true, j);
                assert(nb[j] == a[j]);
                lemma_inverse_direction(es[e].2);
                assert(edges.contains(es[e]));
                let x = choose|x: int| 0 <= x < edges.len() && edges[x] == es[e];
                assert(walk_step(edges, dir, n as int, nb[j].0 as int, nb[j].1));
            } else {
                let es = incident(edges, n, true);
                lemma_incident_edges(edges, n, true);
                let e = lemma_edge_steps_source(es, RelationDirection::Downstream, false, false, j - a.len());
                assert(nb[j] == b[j - a.len()]);
                assert(edges.contains(es[e]));
                let x = choose|x: int| 0 <= x < edges.len() && edges[x] == es[e];
                assert(walk_step(edges, dir, n as int, nb[j].0 as int, nb[j].1));
            }
        },
    }
}

/// Every node a walk reports from `n` is well reached and no shallower
/// than the walk's depth; the node `n` itself, when reported at that
/// depth, is reported with the relationship it was reached by.
proof fn lemma_walk_reached(
    nodes: Seq<Item>,
    edges: Seq<GraphEdge>,
    dir: TraversalDirection,
    md: Option<usize>,
    filter: Seq<ItemType>,
    n: usize,
    depth: nat,
    rel: Option<RelationshipType>,
    parent: Option<Seq<char>>,
    on_path: Seq<bool>,
)
    requires
        rel is None <==> depth == 0,
        rel matches Some(r) ==> {
            &&& direction_of(r) == step_direction(dir)
            &&& exists|p: int|
                0 <= p < nodes.len() && #[trigger] walk_step(edges, dir, p, n as int, r) && (filter.len() == 0
                    ==> parent == Some(nodes[p].id@))
        },
    ensures
        forall|k: int|
            0 <= k < walk(nodes, edges, dir, md, filter, n, depth, rel, parent, on_path).len() ==> {
                let v = #[trigger] walk(nodes, edges, dir, md, filter, n, depth, rel, parent, on_path)[k];
                &&& v.1 >= depth
                &&& v.1 == depth ==> v.0 == nodes[n as int].id@
                &&& reached(nodes, edges, dir, filter, v)
            },
    decreases count_free(on_path), 0nat, 0nat,
{
    let w = walk(nodes, edges, dir, md, filter, n, depth, rel, parent, on_path);
    if !(n >= on_path.len() || n >= nodes.len() || on_path[n as int]) {
        let item = nodes[n as int];
        let shown = passes_filter(filter, item.item_type);
        let here = if shown {
            seq![(item.id@, depth, rel, parent)]
        } else {
            seq![]
        };
        let next_parent = if shown {
            Some(item.id@)
        } else {
            parent
        };
        if shown {
            let v = here[0];
            if let Some(r) = rel {
                let p = choose|p: int|
                    0 <= p < nodes.len() && #[trigger] walk_step(edges, dir, p, n as int, r) && (filter.len() == 0
                        ==> parent == Some(nodes[p].id@));
                assert(walk_step(edges, dir, p, n as int, r));
            }
            assert(reached(nodes, edges, dir, filter, v));
        }
        if md matches Some(m) && depth + 1 > m {
            assert(w == here);
        } else {
            lemma_count_free_update(on_path, n as int);
            let nbrs = walk_neighbors(edges, n, dir);
            let path1 = on_path.update(n as int, true);
            assert forall|j: int| 0 <= j < nbrs.len() implies #[trigger] walk_step(
                edges,
                dir,
                n as int,
                nbrs[j].0 as int,
                nbrs[j].1,
            ) by {
                lemma_neighbor_steps(edges, n, dir, j);
            }
            assert forall|j: int| 0 <= j < nbrs.len() implies direction_of(#[trigger] nbrs[j].1) == step_direction(
                dir,
            ) by {
                lemma_neighbor_steps(edges, n, dir, j);
            }
            lemma_walk_list_reached(nodes, edges, dir, md, filter, nbrs, 0, depth + 1, next_parent, path1, n as int);
            let rest = walk_list(nodes, edges, dir, md, filter, nbrs, 0, depth + 1, next_parent, path1);
            assert(w == here + rest);
            assert forall|k: int| 0 <= k < w.len() implies (#[trigger] w[k]).1 >= depth && (w[k].1 == depth
                ==> w[k].0 == nodes[n as int].id@) && reached(nodes, edges, dir, filter, w[k]) by {
                if k < here.len() {
                    assert(w[k] == here[k]);
                } else {
                    assert(w[k] == rest[k - here.len()]);
                }
            }
        }
    }
}

/// Every node reported from the neighbors `nbrs[i..]` of node `pn` is well
/// reached and no shallower than their depth.
proof fn lemma_walk_list_reached(
    nodes: Seq<Item>,
    edges: Seq<GraphEdge>,
    dir: TraversalDirection,
    md: Option<usize>,
    filter: Seq<ItemType>,
    nbrs: Seq<(usize, RelationshipType)>,
    i: int,
    depth: nat,
    parent: Option<Seq<char>>,
    on_path: Seq<bool>,
    pn: int,
)
    requires
        depth > 0,
        0 <= pn < nodes.len(),
        filter.len() == 0 ==> parent == Some(nodes[pn].id@),
        forall|j: int| 0 <= j < nbrs.len() ==> #[trigger] walk_step(edges, dir, pn, nbrs[j].0 as int, nbrs[j].1),
        forall|j: int| 0 <= j < nbrs.len() ==> direction_of(#[trigger] nbrs[j].1) == step_direction(dir),
    ensures
        forall|k: int|
            0 <= k < walk_list(nodes, edges, dir, md, filter, nbrs, i, depth, parent, on_path).len() ==> {
                let v = #[trigger] walk_list(nodes, edges, dir, md, filter, nbrs, i, depth, parent, on_path)[k];
                &&& v.1 >= depth
                &&& reached(nodes, edges, dir, filter, v)
            },
    decreases count_free(on_path), 1nat, nbrs.len() - i,
{
    if 0 <= i < nbrs.len() {
        assert(walk_step(edges, dir, pn, nbrs[i].0 as int, nbrs[i].1));
        lemma_walk_reached(nodes, edges, dir, md, filter, nbrs[i].0, depth, Some(nbrs[i].1), parent, on_path);
        lemma_walk_list_reached(nodes, edges, dir, md, filter, nbrs, i + 1, depth, parent, on_path, pn);
        let a = walk(nodes, edges, dir, md, filter, nbrs[i].0, depth, Some(nbrs[i].1), parent, on_path);
        let b = walk_list(nodes, edges, dir, md, filter, nbrs, i + 1, depth, parent, on_path);
        let w = walk_list(nodes, edges, dir, md, filter, nbrs, i, depth, parent, on_path);
        assert(w == a + b);
        assert forall|k: int| 0 <= k < w.len() implies (#[trigger] w[k]).1 >= depth && reached(
            nodes,
            edges,
            dir,
            filter,
            w[k],
        ) by {
            if k < a.len() {
                assert(w[k] == a[k]);
            } else {
                assert(w[k] == b[k - a.len()]);
            }
        }
    }
}

/// Every node a traversal reports other than its start is reached through
/// a relation of the traversal's direction (upstream: refines, derives
/// from, satisfies, justifies; downstream: their inverses), along an edge
/// of the graph: upstream, an edge from the item it was reached from to
/// it; downstream, an upstream edge from it to that item, or a downstream
/// edge from that item to it. Peer relations (depends on, supersedes) are
/// never followed. With no type filter a node's parent is the item it was
/// reached from; the start alone has no relationship and depth 0.
pub proof fn lemma_traversal_follows_direction(
    graph: KnowledgeGraph,
    dir: TraversalDirection,
    options: TraversalOptions,
    start: Seq<char>,
    r: TraversalResult,
)
    requires
        graph.wf(),
        traversal_outcome(graph, dir, options, start, Some(r)),
    ensures
        forall|k: int|
            0 <= k < r.items@.len() ==> reached(
                graph.nodes(),
                graph.edges(),
                dir,
                options.type_filter@,
                #[trigger] node_views(r.items@)[k],
            ),
        forall|k: int|
            0 <= k < r.items@.len() && (#[trigger] node_views(r.items@)[k]).1 == 0 ==> node_views(r.items@)[k].0
                == start,
{
    let s = find_last(graph.nodes(), start)->0;
    lemma_find_last(graph.nodes(), start);
    let on_path = Seq::new(graph.nodes().len(), |i: int| false);
    lemma_walk_reached(
        graph.nodes(),
        graph.edges(),
        dir,
        options.max_depth,
        options.type_filter@,
        s as usize,
        0,
        None,
        None,
        on_path,
    );
    assert(node_views(r.items@).len() == r.items@.len());
}

/// What a traversal reports, whichever way it walks: it starts at the
/// requested item; no node lies deeper than a maximum depth given; every
/// node is an item of the graph whose type passes a type filter given (the
/// start too); the traversal's maximum depth is the largest depth reported
/// (0 when nothing is); and, as no walk enters a node already on its path,
/// a walk ends on cycles and no node lies as deep as the graph has items.
pub proof fn lemma_traversal_laws(
    graph: KnowledgeGraph,
    dir: TraversalDirection,
    options: TraversalOptions,
    start: Seq<char>,
    r: TraversalResult,
)
    requires
        traversal_outcome(graph, dir, options, start, Some(r)),
    ensures
        r.origin@ == start,
        options.max_depth matches Some(m) ==> forall|k: int|
            0 <= k < r.items@.len() ==> (#[trigger] node_views(r.items@)[k]).1 <= m,
        forall|k: int|
            0 <= k < r.items@.len() ==> from_filtered_item(
                graph.nodes(),
                options.type_filter@,
                #[trigger] node_views(r.items@)[k],
            ),
        forall|k: int| 0 <= k < r.items@.len() ==> (#[trigger] node_views(r.items@)[k]).1 <= r.max_depth,
        r.items@.len() > 0 ==> exists|k: int|
            0 <= k < r.items@.len() && (#[trigger] node_views(r.items@)[k]).1 == r.max_depth,
        r.items@.len() == 0 ==> r.max_depth == 0,
        forall|k: int| 0 <= k < r.items@.len() ==> (#[trigger] node_views(r.items@)[k]).1 < graph.nodes().len(),
{
    let s = find_last(graph.nodes(), start)->0;
    let on_path = Seq::new(graph.nodes().len(), |i: int| false);
    let v = node_views(r.items@);
    assert(v.len() == r.items@.len());
    lemma_walk_filter(
        graph.nodes(),
        graph.edges(),
        dir,
        options.max_depth,
        options.type_filter@,
        s as usize,
        0,
        None,
        None,
        on_path,
    );
    if let Some(m) = options.max_depth {
        lemma_walk_depth_bound(
            graph.nodes(),
            graph.edges(),
            dir,
            m,
            options.type_filter@,
            s as usize,
            0,
            None,
            None,
            on_path,
        );
    }
    lemma_walk_free_bound(
        graph.nodes(),
        graph.edges(),
        dir,
        options.max_depth,
        options.type_filter@,
        s as usize,
        0,
        None,
        None,
        on_path,
    );
    lemma_count_free_none(graph.nodes().len());
    lemma_max_depth_of(v);
}

/// What a traversal from `start` in direction `dir` returns: nothing when
/// no item has that identifier, else the walk from its last occurrence.
pub open spec fn traversal_outcome(
    graph: KnowledgeGraph,
    dir: TraversalDirection,
    options: TraversalOptions,
    start: Seq<char>,
    r: Option<TraversalResult>,
) -> bool {
    match find_last(graph.nodes(), start) {
        None => r is None,
        Some(s) => r matches Some(res) && res.origin@ == start && node_views(res.items@) == walk(
            graph.nodes(),
            graph.edges(),
            dir,
            options.max_depth,
            options.type_filter@,
            s as usize,
            0,
            None,
            None,
            Seq::new(graph.nodes().len(), |i: int| false),
        ) && res.max_depth == max_depth_of(node_views(res.items@)),
    }
}

/// Traverses the graph upstream (toward Solution): from the given item,
/// follows its upstream relationships (refines, derives from, satisfies,
/// justifies).
pub fn traverse_upstream(graph: &KnowledgeGraph, start: &ItemId, options: &TraversalOptions) -> (r: Option<TraversalResult>)
    requires
        graph.wf(),
    ensures
        match find_last(graph.nodes(), start@) {
            None => r is None,
            Some(s) => r matches Some(res) && res.origin@ == start@ && node_views(res.items@)
                == walk(
                graph.nodes(),
                graph.edges(),
                TraversalDirection::Upstream,
                options.max_depth,
                options.type_filter@,
                s as usize,
                0,
                None,
                None,
                Seq::new(graph.nodes().len(), |i: int| false),
            ) && res.max_depth == max_depth_of(node_views(res.items@)),
        },
{
    traverse_graph(graph, start, TraversalDirection::Upstream, options)
}

/// Traverses the graph downstream (toward Detailed Designs): from the
/// given item, follows the items that declare an upstream relationship to
/// it, and its own downstream declarations.
pub fn traverse_downstream(graph: &KnowledgeGraph, start: &ItemId, options: &TraversalOptions) -> (r: Option<TraversalResult>)
    requires
        graph.wf(),
    ensures
        match find_last(graph.nodes(), start@) {
            None => r is None,
            Some(s) => r matches Some(res) && res.origin@ == start@ && node_views(res.items@)
                == walk(
                graph.nodes(),
                graph.edges(),
                TraversalDirection::Downstream,
                options.max_depth,
                options.type_filter@,
                s as usize,
                0,
                None,
                None,
                Seq::new(graph.nodes().len(), |i: int| false),
            ) && res.max_depth == max_depth_of(node_views(res.items@)),
        },
{
    traverse_graph(graph, start, TraversalDirection::Downstream, options)
}

} // verus!

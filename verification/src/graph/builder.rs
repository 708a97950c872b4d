//! Builders that turn parsed items into a knowledge graph.
use vstd::prelude::*;

use super::digraph::GraphEdge;
use super::knowledge_graph::{find_last, KnowledgeGraph};
use crate::error::SaraError;
use crate::model::item::{entry_ref_ids, id_views, references_of};
use crate::model::relationship::{inverse_of, lemma_inverse_involution};
use crate::model::{Item, ItemId, RelationshipType};

verus! {

/// A relationship between two identifiers.
pub type IdEdge = (Seq<char>, Seq<char>, RelationshipType);

/// The texts of a list of identifier edges.
pub open spec fn id_edge_views(v: Seq<(ItemId, ItemId, RelationshipType)>) -> Seq<IdEdge> {
    v.map_values(|e: (ItemId, ItemId, RelationshipType)| (e.0@, e.1@, e.2))
}

/// The edge added back from the target when an item declares `t`: every
/// relation's inverse when `all` is set; otherwise only the relations
/// declared from the downstream or justifying side get one.
pub open spec fn declared_inverse(t: RelationshipType, all: bool) -> Option<RelationshipType> {
    if all {
        Some(inverse_of(t))
    } else {
        match t {
            RelationshipType::Justifies => Some(RelationshipType::IsJustifiedBy),
            RelationshipType::IsRefinedBy => Some(RelationshipType::Refines),
            RelationshipType::Derives => Some(RelationshipType::DerivesFrom),
            RelationshipType::IsSatisfiedBy => Some(RelationshipType::Satisfies),
            RelationshipType::IsJustifiedBy => Some(RelationshipType::Justifies),
            _ => None,
        }
    }
}

/// The edge from `from` to `to` of type `t`, followed by the inverse edge
/// when there is one.
pub open spec fn edge_pair(
    from: Seq<char>,
    to: Seq<char>,
    t: RelationshipType,
    inv: Option<RelationshipType>,
) -> Seq<IdEdge> {
    match inv {
        Some(i) => seq![(from, to, t), (to, from, i)],
        None => seq![(from, to, t)],
    }
}

/// The edges for the declared relationships of item `id`.
pub open spec fn relationship_edges(id: Seq<char>, rels: Seq<crate::model::Relationship>, all: bool) -> Seq<IdEdge>
    decreases rels.len(),
{
    if rels.len() == 0 {
        seq![]
    } else {
        relationship_edges(id, rels.drop_last(), all) + edge_pair(
            id,
            rels.last().to@,
            rels.last().relationship_type,
            declared_inverse(rels.last().relationship_type, all),
        )
    }
}

/// The edges for references of kind `t` from item `id` to `targets`.
pub open spec fn reference_edges(
    id: Seq<char>,
    targets: Seq<Seq<char>>,
    t: RelationshipType,
    inv: Option<RelationshipType>,
) -> Seq<IdEdge>
    decreases targets.len(),
{
    if targets.len() == 0 {
        seq![]
    } else {
        reference_edges(id, targets.drop_last(), t, inv) + edge_pair(id, targets.last(), t, inv)
    }
}

/// Every edge an item contributes: its relationships, then its peer
/// dependencies, then the ADRs it supersedes.
pub open spec fn item_edges(item: Item, all: bool) -> Seq<IdEdge> {
    relationship_edges(item.id@, item.relationships@, all) + reference_edges(
        item.id@,
        entry_ref_ids(item.attributes.entries(), "depends_on"@),
        RelationshipType::DependsOn,
        if all {
            Some(RelationshipType::IsRequiredBy)
        } else {
            None
        },
    ) + reference_edges(
        item.id@,
        entry_ref_ids(item.attributes.entries(), "supersedes"@),
        RelationshipType::Supersedes,
        Some(RelationshipType::IsSupersededBy),
    )
}

/// The edges of all items, item by item.
pub open spec fn items_edges(items: Seq<Item>, all: bool) -> Seq<IdEdge>
    decreases items.len(),
{
    if items.len() == 0 {
        seq![]
    } else {
        items_edges(items.drop_last(), all) + item_edges(items.last(), all)
    }
}

/// The graph edges for identifier edges: each becomes an edge between the
/// positions of its two items, and is dropped when either is missing.
pub open spec fn resolve_edges(nodes: Seq<Item>, es: Seq<IdEdge>) -> Seq<GraphEdge>
    decreases es.len(),
{
    if es.len() == 0 {
        seq![]
    } else {
        resolve_edges(nodes, es.drop_last()) + match (
            find_last(nodes, es.last().0),
            find_last(nodes, es.last().1),
        ) {
            (Some(a), Some(b)) => seq![(a as usize, b as usize, es.last().2)],
            _ => seq![],
        }
    }
}

/// The number of resolved edges never exceeds the number of edges.
proof fn lemma_resolve_len(nodes: Seq<Item>, es: Seq<IdEdge>)
    ensures
        resolve_edges(nodes, es).len() <= es.len(),
    decreases es.len(),
{
    if es.len() > 0 {
        lemma_resolve_len(nodes, es.drop_last());
    }
}

/// The edge back: from the target to the source, of the inverse relation.
pub open spec fn inverse_edge(e: GraphEdge) -> GraphEdge {
    (e.1, e.0, inverse_of(e.2))
}

/// The identifier edge back, of the inverse relation.
pub open spec fn inverse_id_edge(e: IdEdge) -> IdEdge {
    (e.1, e.0, inverse_of(e.2))
}

/// True if every edge of `s` has its inverse in `s`.
pub open spec fn closed_under_inverse(s: Seq<IdEdge>) -> bool {
    forall|k: int| 0 <= k < s.len() ==> s.contains(#[trigger] inverse_id_edge(s[k]))
}

proof fn lemma_closed_concat(a: Seq<IdEdge>, b: Seq<IdEdge>)
    requires
        closed_under_inverse(a),
        closed_under_inverse(b),
    ensures
        closed_under_inverse(a + b),
{
    let c = a + b;
    assert forall|k: int| 0 <= k < c.len() implies c.contains(#[trigger] inverse_id_edge(c[k])) by {
        if k < a.len() {
            assert(c[k] == a[k]);
            assert(a.contains(inverse_id_edge(a[k])));
            let j = choose|j: int| 0 <= j < a.len() && a[j] == inverse_id_edge(a[k]);
            assert(c[j] == a[j]);
        } else {
            let m = k - a.len();
            assert(c[k] == b[m]);
            assert(b.contains(inverse_id_edge(b[m])));
            let j = choose|j: int| 0 <= j < b.len() && b[j] == inverse_id_edge(b[m]);
            assert(c[j + a.len()] == b[j]);
        }
    }
}

proof fn lemma_pair_closed(from: Seq<char>, to: Seq<char>, t: RelationshipType)
    ensures
        closed_under_inverse(edge_pair(from, to, t, Some(inverse_of(t)))),
{
    let p = edge_pair(from, to, t, Some(inverse_of(t)));
    lemma_inverse_involution(t);
    assert(p[0] == inverse_id_edge(p[1]));
    assert(p[1] == inverse_id_edge(p[0]));
    assert(p.contains(p[0]));
    assert(p.contains(p[1]));
}

proof fn lemma_relationship_edges_closed(id: Seq<char>, rels: Seq<crate::model::Relationship>)
    ensures
        closed_under_inverse(relationship_edges(id, rels, true)),
    decreases rels.len(),
{
    if rels.len() > 0 {
        lemma_relationship_edges_closed(id, rels.drop_last());
        lemma_pair_closed(id, rels.last().to@, rels.last().relationship_type);
        lemma_closed_concat(
            relationship_edges(id, rels.drop_last(), true),
            edge_pair(
                id,
                rels.last().to@,
                rels.last().relationship_type,
                Some(inverse_of(rels.last().relationship_type)),
            ),
        );
    }
}

proof fn lemma_reference_edges_closed(id: Seq<char>, targets: Seq<Seq<char>>, t: RelationshipType)
    ensures
        closed_under_inverse(reference_edges(id, targets, t, Some(inverse_of(t)))),
    decreases targets.len(),
{
    if targets.len() > 0 {
        lemma_reference_edges_closed(id, targets.drop_last(), t);
        lemma_pair_closed(id, targets.last(), t);
        lemma_closed_concat(
            reference_edges(id, targets.drop_last(), t, Some(inverse_of(t))),
            edge_pair(id, targets.last(), t, Some(inverse_of(t))),
        );
    }
}

proof fn lemma_items_edges_closed(items: Seq<Item>)
    ensures
        closed_under_inverse(items_edges(items, true)),
    decreases items.len(),
{
    if items.len() > 0 {
        let item = items.last();
        lemma_items_edges_closed(items.drop_last());
        lemma_relationship_edges_closed(item.id@, item.relationships@);
        lemma_reference_edges_closed(
            item.id@,
            entry_ref_ids(item.attributes.entries(), "depends_on"@),
            RelationshipType::DependsOn,
        );
        lemma_reference_edges_closed(
            item.id@,
            entry_ref_ids(item.attributes.entries(), "supersedes"@),
            RelationshipType::Supersedes,
        );
        let r = relationship_edges(item.id@, item.relationships@, true);
        let d = reference_edges(
            item.id@,
            entry_ref_ids(item.attributes.entries(), "depends_on"@),
            RelationshipType::DependsOn,
            Some(RelationshipType::IsRequiredBy),
        );
        let u = reference_edges(
            item.id@,
            entry_ref_ids(item.attributes.entries(), "supersedes"@),
            RelationshipType::Supersedes,
            Some(RelationshipType::IsSupersededBy),
        );
        lemma_closed_concat(r, d);
        lemma_closed_concat(r + d, u);
        assert(item_edges(item, true) == r + d + u);
        lemma_closed_concat(items_edges(items.drop_last(), true), item_edges(item, true));
    }
}

/// An identifier edge whose two items exist is resolved into an edge
/// between their positions.
proof fn lemma_resolve_member(nodes: Seq<Item>, es: Seq<IdEdge>, j: int)
    requires
        0 <= j < es.len(),
        find_last(nodes, es[j].0) is Some,
        find_last(nodes, es[j].1) is Some,
    ensures
        resolve_edges(nodes, es).contains(
            (
                find_last(nodes, es[j].0).unwrap() as usize,
                find_last(nodes, es[j].1).unwrap() as usize,
                es[j].2,
            ),
        ),
    decreases es.len(),
{
    let r = resolve_edges(nodes, es);
    let prev = resolve_edges(nodes, es.drop_last());
    if j < es.len() - 1 {
        lemma_resolve_member(nodes, es.drop_last(), j);
        assert(es.drop_last()[j] == es[j]);
        let x = (find_last(nodes, es[j].0).unwrap() as usize, find_last(nodes, es[j].1).unwrap() as usize, es[j].2);
        let i = choose|i: int| 0 <= i < prev.len() && prev[i] == x;
        assert(r[i] == prev[i]);
    } else {
        assert(r[prev.len() as int] == (
            find_last(nodes, es[j].0).unwrap() as usize,
            find_last(nodes, es[j].1).unwrap() as usize,
            es[j].2,
        ));
    }
}

/// Every resolved edge comes from an identifier edge whose items are at
/// its ends.
proof fn lemma_resolve_source(nodes: Seq<Item>, es: Seq<IdEdge>, k: int)
    requires
        0 <= k < resolve_edges(nodes, es).len(),
    ensures
        exists|j: int|
            0 <= j < es.len() && find_last(nodes, es[j].0) is Some && find_last(nodes, es[j].1) is Some
                && resolve_edges(nodes, es)[k] == (
                find_last(nodes, es[j].0).unwrap() as usize,
                find_last(nodes, #[trigger] es[j].1).unwrap() as usize,
                es[j].2,
            ),
    decreases es.len(),
{
    let r = resolve_edges(nodes, es);
    let prev = resolve_edges(nodes, es.drop_last());
    if k < prev.len() {
        lemma_resolve_source(nodes, es.drop_last(), k);
        let j = choose|j: int|
            0 <= j < es.drop_last().len() && find_last(nodes, es.drop_last()[j].0) is Some && find_last(
                nodes,
                es.drop_last()[j].1,
            ) is Some && prev[k] == (
                find_last(nodes, es.drop_last()[j].0).unwrap() as usize,
                find_last(nodes, #[trigger] es.drop_last()[j].1).unwrap() as usize,
                es.drop_last()[j].2,
            );
        assert(es.drop_last()[j] == es[j]);
        assert(r[k] == prev[k]);
    } else {
        let j = es.len() - 1;
        assert(es[j] == es.last());
    }
}

/// In a graph that `GraphBuilder` builds, every relationship has its
/// inverse: for each edge from `a` to `b` of relation `r` there is an edge
/// from `b` to `a` of the inverse of `r`.
pub proof fn lemma_built_edges_have_inverses(items: Seq<Item>)
    ensures
        forall|k: int|
            0 <= k < resolve_edges(items, items_edges(items, true)).len() ==> resolve_edges(
                items,
                items_edges(items, true),
            ).contains(inverse_edge(#[trigger] resolve_edges(items, items_edges(items, true))[k])),
{
    let es = items_edges(items, true);
    let r = resolve_edges(items, es);
    lemma_items_edges_closed(items);
    assert forall|k: int| 0 <= k < r.len() implies r.contains(inverse_edge(#[trigger] r[k])) by {
        lemma_resolve_source(items, es, k);
        let j = choose|j: int|
            0 <= j < es.len() && find_last(items, es[j].0) is Some && find_last(items, es[j].1) is Some
                && r[k] == (
                find_last(items, es[j].0).unwrap() as usize,
                find_last(items, #[trigger] es[j].1).unwrap() as usize,
                es[j].2,
            );
        assert(es.contains(inverse_id_edge(es[j])));
        let i = choose|i: int| 0 <= i < es.len() && es[i] == inverse_id_edge(es[j]);
        lemma_resolve_member(items, es, i);
    }
}

/// Appends the edge pair for a declaration to `out`.
fn push_pair(
    out: &mut Vec<(ItemId, ItemId, RelationshipType)>,
    from: &ItemId,
    to: &ItemId,
    t: RelationshipType,
    inv: Option<RelationshipType>,
)
    ensures
        id_edge_views(final(out)@) == id_edge_views(old(out)@) + edge_pair(from@, to@, t, inv),
{
    out.push((from.duplicate(), to.duplicate(), t));
    match inv {
        Some(i) => out.push((to.duplicate(), from.duplicate(), i)),
        None => {},
    }
    assert(id_edge_views(out@) =~= id_edge_views(old(out)@) + edge_pair(from@, to@, t, inv));
}

/// Appends the edges for references of kind `t` from `from` to `targets`.
fn push_references(
    out: &mut Vec<(ItemId, ItemId, RelationshipType)>,
    from: &ItemId,
    targets: &Vec<ItemId>,
    t: RelationshipType,
    inv: Option<RelationshipType>,
)
    ensures
        id_edge_views(final(out)@) == id_edge_views(old(out)@) + reference_edges(
            from@,
            id_views(targets@),
            t,
            inv,
        ),
{
    let mut i: usize = 0;
    while i < targets.len()
        invariant
            i <= targets.len(),
            id_edge_views(out@) == id_edge_views(old(out)@) + reference_edges(
                from@,
                id_views(targets@.take(i as int)),
                t,
                inv,
            ),
        decreases targets.len() - i,
    {
        let ghost before = id_edge_views(out@);
        push_pair(out, from, &targets[i], t, inv);
        assert(id_views(targets@.take(i + 1)).drop_last() =~= id_views(targets@.take(i as int)));
        assert(id_views(targets@.take(i + 1)).last() == targets@[i as int]@);
        assert(id_edge_views(out@) =~= id_edge_views(old(out)@) + reference_edges(
            from@,
            id_views(targets@.take(i + 1)),
            t,
            inv,
        ));
        i += 1;
    }
    assert(targets@.take(targets.len() as int) =~= targets@);
}

/// The edges an item contributes, as (from, to, type) triples; `all`
/// selects whether every relationship gets its inverse.
pub fn collect_edges(item: &Item, all: bool) -> (r: Vec<(ItemId, ItemId, RelationshipType)>)
    ensures
        id_edge_views(r@) == item_edges(*item, all),
{
    let mut edges: Vec<(ItemId, ItemId, RelationshipType)> = Vec::new();
    let mut i: usize = 0;
    while i < item.relationships.len()
        invariant
            i <= item.relationships.len(),
            id_edge_views(edges@) == relationship_edges(
                item.id@,
                item.relationships@.take(i as int),
                all,
            ),
        decreases item.relationships.len() - i,
    {
        let rel = &item.relationships[i];
        let t = rel.relationship_type;
        let inv = if all {
            Some(t.inverse())
        } else {
            match t {
                RelationshipType::Justifies => Some(RelationshipType::IsJustifiedBy),
                RelationshipType::IsRefinedBy => Some(RelationshipType::Refines),
                RelationshipType::Derives => Some(RelationshipType::DerivesFrom),
                RelationshipType::IsSatisfiedBy => Some(RelationshipType::Satisfies),
                RelationshipType::IsJustifiedBy => Some(RelationshipType::Justifies),
                _ => None,
            }
        };
        push_pair(&mut edges, &item.id, &rel.to, t, inv);
        assert(item.relationships@.take(i + 1).drop_last() =~= item.relationships@.take(i as int));
        i += 1;
    }
    assert(item.relationships@.take(item.relationships.len() as int) =~= item.relationships@);
    let deps = item.attributes.depends_on();
    let dep_inv = if all {
        Some(RelationshipType::IsRequiredBy)
    } else {
        None
    };
    push_references(&mut edges, &item.id, &deps, RelationshipType::DependsOn, dep_inv);
    let sups = item.attributes.supersedes();
    push_references(
        &mut edges,
        &item.id,
        &sups,
        RelationshipType::Supersedes,
        Some(RelationshipType::IsSupersededBy),
    );
    edges
}

/// Builds a graph from items: every item becomes a node, in order, then
/// every edge they declare is added between the items it names.
fn build_graph(items: Vec<Item>, all: bool, strict: bool) -> (g: KnowledgeGraph)
    requires
        items@.len() <= u32::MAX,
        items_edges(items@, all).len() < u32::MAX,
    ensures
        g.wf(),
        g.strict() == strict,
        g.nodes() == items@,
        g.edges() == resolve_edges(items@, items_edges(items@, all)),
{
    let mut edges: Vec<(ItemId, ItemId, RelationshipType)> = Vec::new();
    let mut i: usize = 0;
    while i < items.len()
        invariant
            i <= items.len(),
            id_edge_views(edges@) == items_edges(items@.take(i as int), all),
        decreases items.len() - i,
    {
        let mut e = collect_edges(&items[i], all);
        let ghost before = id_edge_views(edges@);
        edges.append(&mut e);
        assert(items@.take(i + 1).drop_last() =~= items@.take(i as int));
        assert(id_edge_views(edges@) =~= items_edges(items@.take(i + 1), all));
        i += 1;
    }
    assert(items@.take(items.len() as int) =~= items@);
    let ghost all_items = items@;
    let mut graph = KnowledgeGraph::new_strict(strict);
    let mut items = items;
    // Nodes are added in the order of `items`.
    let mut items_rev: Vec<Item> = Vec::new();
    while items.len() > 0
        invariant
            items_rev@ + items@.reverse() =~= all_items.reverse(),
        decreases items.len(),
    {
        let it = items.pop().unwrap();
        items_rev.push(it);
        assert(items_rev@ + items@.reverse() =~= all_items.reverse());
    }
    while items_rev.len() > 0
        invariant
            graph.wf(),
            graph.strict() == strict,
            graph.edges() == Seq::<GraphEdge>::empty(),
            all_items.len() <= u32::MAX,
            graph.nodes() + items_rev@.reverse() =~= all_items,
        decreases items_rev.len(),
    {
        let it = items_rev.pop().unwrap();
        proof {
            assert(graph.nodes().len() + 1 <= all_items.len());
        }
        graph.add_item(it);
        assert(graph.nodes() + items_rev@.reverse() =~= all_items);
    }
    assert(graph.nodes() =~= all_items);
    let ghost es = id_edge_views(edges@);
    let mut j: usize = 0;
    while j < edges.len()
        invariant
            graph.wf(),
            graph.strict() == strict,
            graph.nodes() == all_items,
            es == id_edge_views(edges@),
            es.len() < u32::MAX,
            j <= edges.len(),
            graph.edges() == resolve_edges(all_items, es.take(j as int)),
        decreases edges.len() - j,
    {
        proof {
            lemma_resolve_len(all_items, es.take(j as int));
        }
        let e = &edges[j];
        graph.add_relationship(&e.0, &e.1, e.2);
        assert(es.take(j + 1).drop_last() =~= es.take(j as int));
        assert(es.take(j + 1).last() == (e.0@, e.1@, e.2));
        j += 1;
    }
    assert(es.take(edges.len() as int) =~= es);
    graph
}

/// Builder for constructing knowledge graphs.
pub struct KnowledgeGraphBuilder {
    items: Vec<Item>,
}

impl KnowledgeGraphBuilder {
    /// The items added so far.
    pub closed spec fn pending(&self) -> Seq<Item> {
        self.items@
    }

    /// Creates a new graph builder.
    pub fn new() -> (r: KnowledgeGraphBuilder)
        ensures
            r.pending() == Seq::<Item>::empty(),
    {
        KnowledgeGraphBuilder { items: Vec::new() }
    }

    /// Adds an item to the graph.
    pub fn add_item(self, item: Item) -> (r: KnowledgeGraphBuilder)
        ensures
            r.pending() == self.pending().push(item),
    {
        let mut items = self.items;
        items.push(item);
        KnowledgeGraphBuilder { items }
    }

    /// Adds multiple items to the graph.
    pub fn add_items(self, items: Vec<Item>) -> (r: KnowledgeGraphBuilder)
        ensures
            r.pending() == self.pending() + items@,
    {
        let mut all = self.items;
        let mut more = items;
        all.append(&mut more);
        KnowledgeGraphBuilder { items: all }
    }

    /// Builds the knowledge graph: one node per item, in order; each
    /// relationship as an edge, with the inverse edge added for the
    /// relations declared from the downstream or justifying side; and the
    /// `depends_on` and `supersedes` references of the attributes (a
    /// superseded ADR also points back to its successor). Edges naming a
    /// missing item are left out.
    pub fn build(self) -> (r: Result<KnowledgeGraph, SaraError>)
        requires
            self.pending().len() <= u32::MAX,
            items_edges(self.pending(), false).len() < u32::MAX,
        ensures
            r matches Ok(g) && g.wf() && !g.strict() && g.nodes() == self.pending() && g.edges()
                == resolve_edges(self.pending(), items_edges(self.pending(), false)),
    {
        Ok(build_graph(self.items, false, false))
    }
}

/// Builder for constructing knowledge graphs in which every relationship
/// is traversable from both ends.
pub struct GraphBuilder {
    items: Vec<Item>,
    strict_mode: bool,
    repositories: Vec<String>,
}

impl GraphBuilder {
    /// The items added so far.
    pub closed spec fn pending(&self) -> Seq<Item> {
        self.items@
    }

    /// Whether the graph will check orphans strictly.
    pub closed spec fn strict(&self) -> bool {
        self.strict_mode
    }

    /// The repository paths added so far.
    pub closed spec fn repository_paths(&self) -> Seq<Seq<char>> {
        self.repositories@.map_values(|s: String| s@)
    }

    /// Creates a new graph builder.
    pub fn new() -> (r: GraphBuilder)
        ensures
            r.pending() == Seq::<Item>::empty(),
            !r.strict(),
            r.repository_paths() == Seq::<Seq<char>>::empty(),
    {
        GraphBuilder { items: Vec::new(), strict_mode: false, repositories: Vec::new() }
    }

    /// Sets strict orphan checking mode.
    pub fn with_strict_mode(self, strict: bool) -> (r: GraphBuilder)
        ensures
            r.pending() == self.pending(),
            r.strict() == strict,
            r.repository_paths() == self.repository_paths(),
    {
        GraphBuilder { items: self.items, strict_mode: strict, repositories: self.repositories }
    }

    /// Adds a repository path.
    pub fn add_repository(self, path: &str) -> (r: GraphBuilder)
        ensures
            r.pending() == self.pending(),
            r.strict() == self.strict(),
            r.repository_paths() == self.repository_paths().push(path@),
    {
        let mut repositories = self.repositories;
        repositories.push(path.to_owned());
        let r = GraphBuilder { items: self.items, strict_mode: self.strict_mode, repositories };
        assert(r.repository_paths() =~= self.repository_paths().push(path@));
        r
    }

    /// Adds an item to the graph.
    pub fn add_item(self, item: Item) -> (r: GraphBuilder)
        ensures
            r.pending() == self.pending().push(item),
            r.strict() == self.strict(),
            r.repository_paths() == self.repository_paths(),
    {
        let mut items = self.items;
        items.push(item);
        GraphBuilder { items, strict_mode: self.strict_mode, repositories: self.repositories }
    }

    /// Adds multiple items to the graph.
    pub fn add_items(self, items: Vec<Item>) -> (r: GraphBuilder)
        ensures
            r.pending() == self.pending() + items@,
            r.strict() == self.strict(),
            r.repository_paths() == self.repository_paths(),
    {
        let mut all = self.items;
        let mut more = items;
        all.append(&mut more);
        GraphBuilder { items: all, strict_mode: self.strict_mode, repositories: self.repositories }
    }

    /// Builds the knowledge graph: one node per item, in order; every
    /// relationship and peer reference as an edge together with its
    /// inverse edge. Edges naming a missing item are left out.
    pub fn build(self) -> (r: Result<KnowledgeGraph, SaraError>)
        requires
            self.pending().len() <= u32::MAX,
            items_edges(self.pending(), true).len() < u32::MAX,
        ensures
            r matches Ok(g) && g.wf() && g.strict() == self.strict() && g.nodes() == self.pending()
                && g.edges() == resolve_edges(self.pending(), items_edges(self.pending(), true)),
    {
        Ok(build_graph(self.items, true, self.strict_mode))
    }
}

/// The texts of a list of identifier pairs.
pub open spec fn pair_views(v: Seq<(ItemId, ItemId)>) -> Seq<(Seq<char>, Seq<char>)> {
    v.map_values(|p: (ItemId, ItemId)| (p.0@, p.1@))
}

/// The first item, if any, that references `r`.
pub open spec fn first_referrer(items: Seq<Item>, r: Seq<char>) -> Option<int>
    decreases items.len(),
{
    if items.len() == 0 {
        None
    } else {
        match first_referrer(items.drop_last(), r) {
            Some(i) => Some(i),
            None => if references_of(items.last()).contains(r) {
                Some(items.len() - 1)
            } else {
                None
            },
        }
    }
}

/// Every reference of the items, item by item.
pub open spec fn all_references(items: Seq<Item>) -> Seq<Seq<char>>
    decreases items.len(),
{
    if items.len() == 0 {
        seq![]
    } else {
        all_references(items.drop_last()) + references_of(items.last())
    }
}

/// For each reference (in `refs`) that names no item, the first item
/// referencing it and the reference.
pub open spec fn unresolved_refs(items: Seq<Item>, refs: Seq<Seq<char>>) -> Seq<(Seq<char>, Seq<char>)>
    decreases refs.len(),
{
    if refs.len() == 0 {
        seq![]
    } else {
        unresolved_refs(items, refs.drop_last()) + if find_last(items, refs.last()) is None {
            match first_referrer(items, refs.last()) {
                Some(i) => seq![(items[i].id@, refs.last())],
                None => seq![],
            }
        } else {
            seq![]
        }
    }
}

/// Returns the position of the first item referencing `r`.
fn find_referrer(items: &Vec<Item>, r: &ItemId) -> (res: Option<usize>)
    ensures
        res matches Some(i) ==> i < items@.len() && first_referrer(items@, r@) == Some(i as int),
        res is None ==> first_referrer(items@, r@) is None,
{
    let mut i: usize = 0;
    while i < items.len()
        invariant
            i <= items.len(),
            first_referrer(items@.take(i as int), r@) is None,
        decreases items.len() - i,
    {
        let refs = items[i].all_references();
        let mut j: usize = 0;
        let mut found = false;
        while j < refs.len()
            invariant
                j <= refs.len(),
                found == exists|m: int| 0 <= m < j && (#[trigger] refs@[m])@ == r@,
            decreases refs.len() - j,
        {
            if refs[j].same_as(r) {
                found = true;
            }
            j += 1;
        }
        assert(found == id_views(refs@).contains(r@)) by {
            if found {
                let m = choose|m: int| 0 <= m < refs@.len() && (#[trigger] refs@[m])@ == r@;
                assert(id_views(refs@)[m] == r@);
            }
            if id_views(refs@).contains(r@) {
                let m = choose|m: int| 0 <= m < id_views(refs@).len() && id_views(refs@)[m] == r@;
                assert(refs@[m]@ == r@);
            }
        }
        assert(items@.take(i + 1).drop_last() =~= items@.take(i as int));
        assert(items@.take(i + 1).last() == items@[i as int]);
        if found {
            proof {
                assert(first_referrer(items@.take(i + 1), r@) == Some(i as int));
                lemma_first_referrer_prefix(items@, i + 1);
            }
            return Some(i);
        }
        i += 1;
    }
    assert(items@.take(items.len() as int) =~= items@);
    None
}

/// A referrer found among the first `n` items is the referrer of all.
proof fn lemma_first_referrer_prefix(items: Seq<Item>, n: int)
    requires
        0 <= n <= items.len(),
    ensures
        forall|r: Seq<char>| #[trigger] first_referrer(items.take(n), r) is Some
            ==> first_referrer(items, r) == first_referrer(items.take(n), r),
    decreases items.len() - n,
{
    if n < items.len() {
        lemma_first_referrer_prefix(items.drop_last(), n);
        assert(items.drop_last().take(n) =~= items.take(n));
    } else {
        assert(items.take(n) =~= items);
    }
}

/// Lists the references that name no item of the graph: for each such
/// reference, in the order the items declare them, the first item that
/// makes it, and the reference.
pub fn resolve_cross_repository_refs(graph: &mut KnowledgeGraph) -> (r: Vec<(ItemId, ItemId)>)
    ensures
        *final(graph) == *old(graph),
        pair_views(r@) == unresolved_refs(
            old(graph).nodes(),
            all_references(old(graph).nodes()),
        ),
{
    let items = graph.items();
    let mut refs: Vec<ItemId> = Vec::new();
    let mut i: usize = 0;
    while i < items.len()
        invariant
            i <= items.len(),
            id_views(refs@) == all_references(items@.take(i as int)),
        decreases items.len() - i,
    {
        let mut more = items[i].all_references();
        refs.append(&mut more);
        assert(items@.take(i + 1).drop_last() =~= items@.take(i as int));
        assert(id_views(refs@) =~= all_references(items@.take(i + 1)));
        i += 1;
    }
    assert(items@.take(items.len() as int) =~= items@);
    let ghost rs = id_views(refs@);
    let mut unresolved: Vec<(ItemId, ItemId)> = Vec::new();
    let mut k: usize = 0;
    while k < refs.len()
        invariant
            items@ == graph.nodes(),
            rs == id_views(refs@),
            k <= refs.len(),
            pair_views(unresolved@) == unresolved_refs(
                items@,
                rs.take(k as int),
            ),
        decreases refs.len() - k,
    {
        let ghost before = pair_views(unresolved@);
        assert(rs.take(k + 1).drop_last() =~= rs.take(k as int));
        assert(rs.take(k + 1).last() == refs@[k as int]@);
        let ghost rk = rs.take(k + 1).last();
        if !graph.contains(&refs[k]) {
            assert(find_last(items@, rk) is None);
            match find_referrer(items, &refs[k]) {
                Some(p) => {
                    assert(unresolved_refs(items@, rs.take(k + 1)) == unresolved_refs(items@, rs.take(k as int)) + seq![(items@[p as int].id@, rk)]);
                    unresolved.push((items[p].id.duplicate(), refs[k].duplicate()));
                    assert(pair_views(unresolved@) =~= before
                        + seq![(items@[p as int].id@, refs@[k as int]@)]);
                },
                None => {
                    assert(pair_views(unresolved@) =~= before
                        + Seq::<(Seq<char>, Seq<char>)>::empty());
                },
            }
        } else {
            assert(pair_views(unresolved@) =~= before
                + Seq::<(Seq<char>, Seq<char>)>::empty());
        }
        k += 1;
    }
    assert(rs.take(refs.len() as int) =~= rs);
    unresolved
}

} // verus!

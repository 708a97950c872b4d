//! Mermaid flowchart of a part of the knowledge graph.
//!
//! The picture is the subgraph that a set of items induces: every item of
//! the set that the graph knows is a node, and every relationship of the
//! graph between two such items is an edge, drawn once from the side that
//! declares it. Nodes, edges and class statements come in increasing order
//! of their texts, so the same graph always gives the same text. The origin
//! node gets the `origin` class and every node a class named after its item
//! type id; none of them is styled, so a caller may append `classDef`
//! statements. No code fence is emitted.
use vstd::prelude::*;

use crate::graph::digraph::{incident, GraphEdge};
use crate::graph::knowledge_graph::{find_last, item_of, known, lemma_find_last, KnowledgeGraph};
use crate::graph::traversal::{TraversalNode, TraversalOptions, TraversalResult};
use crate::model::item::{id_views, type_id};
use crate::model::relationship::{direction_of, inverse_of, primary, relation_id};
use crate::model::{ItemId, ItemType, RelationDirection, RelationshipType};
use crate::ordered::{
    contains_text, insert_text, insert_triple, lemma_sorted_texts, lemma_sorted_triples, sorted_by,
    sorted_texts, sorted_triples, text_order, triple_order, triple_views, CharTriple, TextTriple,
};
use crate::text::{
    chars_eq, chars_to_string, extend_chars, join, join_range, replace_char, replace_chars,
    str_chars, views,
};

verus! {

// ------------------------------------------------------------------ model

/// The diagram's first line: a bottom-to-top flowchart, so that an edge
/// drawn from its declaring side points up and upstream items sit above
/// the items that refine, derive from or satisfy them.
pub open spec fn header_line() -> Seq<char> {
    "flowchart BT"@
}

/// `name` made safe inside a quoted label: `"`, `<` and `>` become the
/// entity codes `#quot;`, `#lt;` and `#gt;`.
pub open spec fn escape_label(name: Seq<char>) -> Seq<char> {
    replace_char(replace_char(replace_char(name, '"', "#quot;"@), '<', "#lt;"@), '>', "#gt;"@)
}

/// The identifier of the item at position `i`.
pub open spec fn id_at(g: KnowledgeGraph, i: int) -> Seq<char> {
    g.nodes()[i].id@
}

/// The nodes drawn for a set of members: those the graph knows.
pub open spec fn drawn_nodes(g: KnowledgeGraph, members: Set<Seq<char>>) -> Set<Seq<char>> {
    members.filter(|id: Seq<char>| known(g, id))
}

/// An edge as the side that declares it reads: downstream relations and
/// the inverse side of peer relations turn around to their declaring end
/// and relation. The triple is (from, to, relation id).
pub open spec fn declaring_side(from: Seq<char>, to: Seq<char>, rel: RelationshipType) -> TextTriple {
    if direction_of(rel) == RelationDirection::Downstream || (direction_of(rel)
        == RelationDirection::Peer && !primary(rel)) {
        (to, from, relation_id(inverse_of(rel)))
    } else {
        (from, to, relation_id(rel))
    }
}

/// The edge at position `k` as its declaring side reads it.
pub open spec fn edge_key(g: KnowledgeGraph, k: int) -> TextTriple {
    declaring_side(id_at(g, g.edges()[k].0 as int), id_at(g, g.edges()[k].1 as int), g.edges()[k].2)
}

/// True if both ends of the edge at position `k` are among `ns`.
pub open spec fn edge_within(g: KnowledgeGraph, ns: Set<Seq<char>>, k: int) -> bool {
    ns.contains(id_at(g, g.edges()[k].0 as int)) && ns.contains(id_at(g, g.edges()[k].1 as int))
}

/// The edges among the first `n` of the graph with both ends among `ns`.
pub open spec fn edges_within(g: KnowledgeGraph, ns: Set<Seq<char>>, n: int) -> Set<TextTriple> {
    Set::new(|t: TextTriple| exists|k: int| 0 <= k < n && edge_within(g, ns, k) && #[trigger] edge_key(g, k) == t)
}

/// The drawn edges: every relationship between two drawn nodes.
pub open spec fn drawn_edges(g: KnowledgeGraph, ns: Set<Seq<char>>) -> Set<TextTriple> {
    edges_within(g, ns, g.edges().len() as int)
}

/// The class of a drawn node: the id of its item's type.
pub open spec fn class_of(g: KnowledgeGraph, id: Seq<char>) -> Seq<char> {
    type_id(item_of(g, id).item_type)
}

/// The classes of the first `n` nodes of `ids`.
pub open spec fn classes_of(g: KnowledgeGraph, ids: Seq<Seq<char>>, n: int) -> Set<Seq<char>> {
    Set::new(|t: Seq<char>| exists|k: int| 0 <= k < n && #[trigger] class_of(g, ids[k]) == t)
}

/// The nodes of `ids` whose class is `t`, in order.
pub open spec fn ids_of_class(g: KnowledgeGraph, ids: Seq<Seq<char>>, t: Seq<char>) -> Seq<Seq<char>>
    decreases ids.len(),
{
    if ids.len() == 0 {
        seq![]
    } else {
        ids_of_class(g, ids.drop_last(), t) + if class_of(g, ids.last()) == t {
            seq![ids.last()]
        } else {
            seq![]
        }
    }
}

/// A node statement: the id, then the id and the escaped name as label.
pub open spec fn node_line(id: Seq<char>, name: Seq<char>) -> Seq<char> {
    "    "@ + id + "[\""@ + id + "<br>"@ + escape_label(name) + "\"]"@
}

/// An edge statement labelled with the relation id.
pub open spec fn edge_line(e: TextTriple) -> Seq<char> {
    "    "@ + e.0 + " -->|"@ + e.2 + "| "@ + e.1
}

/// The statement giving the origin its class.
pub open spec fn origin_line(origin: Seq<char>) -> Seq<char> {
    "    class "@ + origin + " origin"@
}

/// A class statement: the members separated by commas, then the class.
pub open spec fn class_line(ids: Seq<Seq<char>>, t: Seq<char>) -> Seq<char> {
    "    class "@ + join(ids, ","@) + " "@ + t
}

/// The node statements of `ids`.
pub open spec fn node_lines(g: KnowledgeGraph, ids: Seq<Seq<char>>) -> Seq<Seq<char>>
    decreases ids.len(),
{
    if ids.len() == 0 {
        seq![]
    } else {
        node_lines(g, ids.drop_last()).push(node_line(ids.last(), item_of(g, ids.last()).name@))
    }
}

/// The edge statements of `es`.
pub open spec fn edge_lines(es: Seq<TextTriple>) -> Seq<Seq<char>>
    decreases es.len(),
{
    if es.len() == 0 {
        seq![]
    } else {
        edge_lines(es.drop_last()).push(edge_line(es.last()))
    }
}

/// The class statements of the classes `ts` over the nodes `ids`.
pub open spec fn class_lines(g: KnowledgeGraph, ids: Seq<Seq<char>>, ts: Seq<Seq<char>>) -> Seq<Seq<char>>
    decreases ts.len(),
{
    if ts.len() == 0 {
        seq![]
    } else {
        class_lines(g, ids, ts.drop_last()).push(class_line(ids_of_class(g, ids, ts.last()), ts.last()))
    }
}

/// The statements of the diagram of `members` around `origin`: the
/// header, the nodes, the edges, the origin's class, then the type
/// classes.
pub open spec fn diagram_lines(g: KnowledgeGraph, origin: Seq<char>, members: Set<Seq<char>>) -> Seq<Seq<char>> {
    let ns = drawn_nodes(g, members);
    let ids = sorted_texts(ns);
    seq![header_line()] + node_lines(g, ids) + edge_lines(sorted_triples(drawn_edges(g, ns)))
        + seq![origin_line(origin)] + class_lines(g, ids, sorted_texts(classes_of(g, ids, ids.len() as int)))
}

/// Lines as text: each one followed by a line feed.
pub open spec fn lines_text(ls: Seq<Seq<char>>) -> Seq<char>
    decreases ls.len(),
{
    if ls.len() == 0 {
        seq![]
    } else {
        lines_text(ls.drop_last()) + ls.last() + seq!['\n']
    }
}

/// The Mermaid text of the diagram of `members` around `origin`.
pub open spec fn diagram_text(g: KnowledgeGraph, origin: Seq<char>, members: Set<Seq<char>>) -> Seq<char> {
    lines_text(diagram_lines(g, origin, members))
}

/// True if a related item of type `t` passes the type filter.
pub open spec fn type_allowed(filter: Seq<ItemType>, t: ItemType) -> bool {
    filter.len() == 0 || filter.contains(t)
}

/// The identifier at the far end of an edge: its target, or its source.
pub open spec fn far_end(e: GraphEdge, take_target: bool) -> int {
    if take_target {
        e.1 as int
    } else {
        e.0 as int
    }
}

/// The identifiers at the far ends of the first `n` edges of `es` whose
/// far item passes the type filter.
pub open spec fn far_ends(g: KnowledgeGraph, es: Seq<GraphEdge>, take_target: bool, filter: Seq<ItemType>, n: int) -> Set<Seq<char>> {
    Set::new(
        |id: Seq<char>|
            exists|k: int|
                0 <= k < n && type_allowed(filter, g.nodes()[far_end(es[k], take_target)].item_type)
                    && #[trigger] id_at(g, far_end(es[k], take_target)) == id,
    )
}

/// The items directly related to the item at position `p`, whichever
/// side declared the relation, limited to the type filter.
pub open spec fn neighbors(g: KnowledgeGraph, p: int, filter: Seq<ItemType>) -> Set<Seq<char>> {
    let out = incident(g.edges(), p as usize, true);
    let inc = incident(g.edges(), p as usize, false);
    far_ends(g, out, true, filter, out.len() as int).union(far_ends(g, inc, false, filter, inc.len() as int))
}

/// The members of the neighborhood picture: the origin and, when the graph
/// knows it, the items directly related to it.
pub open spec fn neighborhood(g: KnowledgeGraph, origin: Seq<char>, filter: Seq<ItemType>) -> Set<Seq<char>> {
    match find_last(g.nodes(), origin) {
        Some(p) => neighbors(g, p, filter).insert(origin),
        None => set![origin],
    }
}

/// The picture draws no edge toward an item outside it: both ends of every
/// drawn edge are drawn nodes.
pub proof fn lemma_edges_between_drawn_nodes(g: KnowledgeGraph, members: Set<Seq<char>>, t: TextTriple)
    requires
        drawn_edges(g, drawn_nodes(g, members)).contains(t),
    ensures
        drawn_nodes(g, members).contains(t.0),
        drawn_nodes(g, members).contains(t.1),
{
    let ns = drawn_nodes(g, members);
    let k = choose|k: int| 0 <= k < g.edges().len() && edge_within(g, ns, k) && #[trigger] edge_key(g, k) == t;
    assert(edge_within(g, ns, k));
}

// --------------------------------------------------------------- helpers

/// The escaped label text of a name.
fn escape_label_chars(name: &str) -> (r: Vec<char>)
    ensures
        r@ == escape_label(name@),
{
    let v = str_chars(name);
    let a = replace_chars(&v, '"', &str_chars("#quot;"));
    let b = replace_chars(&a, '<', &str_chars("#lt;"));
    replace_chars(&b, '>', &str_chars("#gt;"))
}

/// The edge `from -> to` of relation `rel`, as its declaring side reads it.
fn declared_edge(from: Vec<char>, to: Vec<char>, rel: RelationshipType) -> (r: CharTriple)
    ensures
        (r.0@, r.1@, r.2@) == declaring_side(from@, to@, rel),
{
    if rel.is_downstream() || (rel.is_peer() && !rel.is_primary()) {
        (to, from, str_chars(rel.inverse().as_str()))
    } else {
        (from, to, str_chars(rel.as_str()))
    }
}

/// The text of lines, each followed by a line feed.
fn lines_to_text(lines: &Vec<Vec<char>>) -> (r: Vec<char>)
    ensures
        r@ == lines_text(views(lines@)),
{
    let mut out: Vec<char> = Vec::new();
    let mut i: usize = 0;
    while i < lines.len()
        invariant
            i <= lines.len(),
            out@ == lines_text(views(lines@).take(i as int)),
        decreases lines.len() - i,
    {
        let ghost pre = views(lines@).take(i as int);
        assert(views(lines@).take(i + 1).drop_last() =~= pre);
        extend_chars(&mut out, &lines[i]);
        out.push('\n');
        i += 1;
    }
    assert(views(lines@).take(lines.len() as int) =~= views(lines@));
    out
}

/// The known members so far: adding one member adds it when known.
proof fn lemma_drawn_step(g: KnowledgeGraph, ms: Seq<ItemId>, i: int)
    requires
        0 <= i < ms.len(),
    ensures
        drawn_nodes(g, id_views(ms.take(i + 1)).to_set()) == if known(g, ms[i]@) {
            drawn_nodes(g, id_views(ms.take(i)).to_set()).insert(ms[i]@)
        } else {
            drawn_nodes(g, id_views(ms.take(i)).to_set())
        },
{
    let a = id_views(ms.take(i));
    let b = id_views(ms.take(i + 1));
    assert(b =~= a.push(ms[i]@));
    assert forall|x: Seq<char>| b.to_set().contains(x) <==> a.to_set().insert(ms[i]@).contains(x) by {
        if b.to_set().contains(x) {
            let m = choose|m: int| 0 <= m < b.len() && b[m] == x;
            if m < a.len() {
                assert(a[m] == x);
            }
        }
        if a.to_set().contains(x) {
            let m = choose|m: int| 0 <= m < a.len() && a[m] == x;
            assert(b[m] == x);
        }
        if x == ms[i]@ {
            assert(b[i] == x);
        }
    }
    assert(b.to_set() =~= a.to_set().insert(ms[i]@));
    let da = drawn_nodes(g, a.to_set());
    let db = drawn_nodes(g, b.to_set());
    if known(g, ms[i]@) {
        assert(db =~= da.insert(ms[i]@));
    } else {
        assert(db =~= da);
    }
}

/// One more edge considered adds its key when both ends are drawn.
proof fn lemma_edges_step(g: KnowledgeGraph, ns: Set<Seq<char>>, k: int)
    requires
        0 <= k,
    ensures
        edges_within(g, ns, k + 1) == if edge_within(g, ns, k) {
            edges_within(g, ns, k).insert(edge_key(g, k))
        } else {
            edges_within(g, ns, k)
        },
{
    let a = edges_within(g, ns, k);
    let b = edges_within(g, ns, k + 1);
    if edge_within(g, ns, k) {
        assert forall|t: TextTriple| b.contains(t) <==> a.insert(edge_key(g, k)).contains(t) by {
            if b.contains(t) {
                let j = choose|j: int| 0 <= j < k + 1 && edge_within(g, ns, j) && #[trigger] edge_key(g, j) == t;
                if j < k {
                    assert(a.contains(t));
                }
            }
            if a.contains(t) {
                let j = choose|j: int| 0 <= j < k && edge_within(g, ns, j) && #[trigger] edge_key(g, j) == t;
                assert(b.contains(t));
            }
        }
        assert(b =~= a.insert(edge_key(g, k)));
    } else {
        assert forall|t: TextTriple| b.contains(t) <==> a.contains(t) by {
            if b.contains(t) {
                let j = choose|j: int| 0 <= j < k + 1 && edge_within(g, ns, j) && #[trigger] edge_key(g, j) == t;
                assert(j < k);
            }
            if a.contains(t) {
                let j = choose|j: int| 0 <= j < k && edge_within(g, ns, j) && #[trigger] edge_key(g, j) == t;
                assert(b.contains(t));
            }
        }
        assert(b =~= a);
    }
}

/// One more node adds its class.
proof fn lemma_classes_step(g: KnowledgeGraph, ids: Seq<Seq<char>>, k: int)
    requires
        0 <= k,
    ensures
        classes_of(g, ids, k + 1) == classes_of(g, ids, k).insert(class_of(g, ids[k])),
{
    let a = classes_of(g, ids, k);
    let b = classes_of(g, ids, k + 1);
    assert forall|t: Seq<char>| b.contains(t) <==> a.insert(class_of(g, ids[k])).contains(t) by {
        if b.contains(t) {
            let j = choose|j: int| 0 <= j < k + 1 && #[trigger] class_of(g, ids[j]) == t;
            if j < k {
                assert(a.contains(t));
            }
        }
        if a.contains(t) {
            let j = choose|j: int| 0 <= j < k && #[trigger] class_of(g, ids[j]) == t;
            assert(b.contains(t));
        }
    }
    assert(b =~= a.insert(class_of(g, ids[k])));
}

// ------------------------------------------------------------- rendering

/// Renders the subgraph that `members` induce as a Mermaid `flowchart BT`:
/// the known members as nodes labelled with id and name, the relationships
/// between them as edges labelled with the declaring side's relation id,
/// the origin's class, and a class per item type id.
fn render(graph: &KnowledgeGraph, origin: &ItemId, members: &Vec<ItemId>) -> (r: String)
    requires
        graph.wf(),
    ensures
        r@ == diagram_text(*graph, origin@, id_views(members@).to_set()),
{
    let ghost g = *graph;
    let ghost ms = id_views(members@).to_set();
    // The drawn node identifiers, sorted.
    let mut ids: Vec<Vec<char>> = Vec::new();
    let mut i: usize = 0;
    assert(id_views(members@.take(0)).to_set() =~= Set::<Seq<char>>::empty());
    assert(drawn_nodes(g, Set::<Seq<char>>::empty()) =~= Set::<Seq<char>>::empty());
    assert(views(ids@).to_set() =~= Set::<Seq<char>>::empty());
    while i < members.len()
        invariant
            g == *graph,
            i <= members.len(),
            sorted_by(views(ids@), text_order()),
            views(ids@).to_set() == drawn_nodes(g, id_views(members@.take(i as int)).to_set()),
        decreases members.len() - i,
    {
        proof {
            lemma_drawn_step(g, members@, i as int);
        }
        if graph.contains(&members[i]) {
            let k = str_chars(members[i].as_str());
            insert_text(&mut ids, &k);
        }
        i += 1;
    }
    assert(members@.take(members.len() as int) =~= members@);
    let ghost ns = drawn_nodes(g, ms);
    let ghost idsv = views(ids@);
    proof {
        lemma_sorted_texts(idsv);
    }
    assert(sorted_texts(ns) == idsv);
    // Header and node statements, with each node's class.
    let mut lines: Vec<Vec<char>> = Vec::new();
    lines.push(str_chars("flowchart BT"));
    let mut classes: Vec<Vec<char>> = Vec::new();
    let mut k: usize = 0;
    while k < ids.len()
        invariant
            graph.wf(),
            g == *graph,
            idsv == views(ids@),
            idsv.to_set() == ns,
            ns == drawn_nodes(g, ms),
            k <= ids.len(),
            views(lines@) == seq![header_line()] + node_lines(g, idsv.take(k as int)),
            classes@.len() == k,
            forall|j: int| 0 <= j < k ==> (#[trigger] classes@[j])@ == class_of(g, idsv[j]),
        decreases ids.len() - k,
    {
        assert(idsv.to_set().contains(idsv[k as int]));
        let id_text = chars_to_string(&ids[k]);
        let iid = ItemId::new_unchecked(id_text.as_str());
        proof {
            lemma_find_last(g.nodes(), iid@);
        }
        match graph.get(&iid) {
            Some(item) => {
                let mut line = str_chars("    ");
                extend_chars(&mut line, &ids[k]);
                extend_chars(&mut line, &str_chars("[\""));
                extend_chars(&mut line, &ids[k]);
                extend_chars(&mut line, &str_chars("<br>"));
                extend_chars(&mut line, &escape_label_chars(item.name.as_str()));
                extend_chars(&mut line, &str_chars("\"]"));
                let ghost pre = idsv.take(k as int);
                assert(idsv.take(k + 1).drop_last() =~= pre);
                assert(line@ == node_line(idsv[k as int], item_of(g, idsv[k as int]).name@));
                let ghost old_lines = views(lines@);
                lines.push(line);
                assert(views(lines@) =~= old_lines.push(line@));
                assert(idsv.take(k + 1).last() == idsv[k as int]);
                assert(node_lines(g, idsv.take(k + 1)) == node_lines(g, pre).push(line@));
                assert(views(lines@) =~= seq![header_line()] + node_lines(g, idsv.take(k + 1)));
                classes.push(str_chars(item.item_type.as_str()));
            },
            None => {
                vstd::pervasive::unreached::<()>();
            },
        }
        k += 1;
    }
    assert(idsv.take(ids.len() as int) =~= idsv);
    // Edge statements.
    let rels = graph.relationships();
    let mut es: Vec<CharTriple> = Vec::new();
    let mut e: usize = 0;
    assert(edges_within(g, ns, 0) =~= Set::<TextTriple>::empty());
    assert(triple_views(es@).to_set() =~= Set::<TextTriple>::empty());
    while e < rels.len()
        invariant
            graph.wf(),
            g == *graph,
            idsv == views(ids@),
            idsv.to_set() == ns,
            rels@.len() == g.edges().len(),
            forall|j: int|
                0 <= j < rels@.len() ==> {
                    &&& (#[trigger] rels@[j]).0@ == id_at(g, g.edges()[j].0 as int)
                    &&& rels@[j].1@ == id_at(g, g.edges()[j].1 as int)
                    &&& rels@[j].2 == g.edges()[j].2
                },
            e <= rels.len(),
            sorted_by(triple_views(es@), triple_order()),
            triple_views(es@).to_set() == edges_within(g, ns, e as int),
        decreases rels.len() - e,
    {
        proof {
            lemma_edges_step(g, ns, e as int);
        }
        let from = str_chars(rels[e].0.as_str());
        let to = str_chars(rels[e].1.as_str());
        if contains_text(&ids, &from) && contains_text(&ids, &to) {
            let t = declared_edge(from, to, rels[e].2);
            insert_triple(&mut es, t);
        }
        e += 1;
    }
    let ghost esv = triple_views(es@);
    proof {
        lemma_sorted_triples(esv);
    }
    assert(sorted_triples(drawn_edges(g, ns)) == esv);
    let mut m: usize = 0;
    let ghost base = seq![header_line()] + node_lines(g, idsv);
    while m < es.len()
        invariant
            esv == triple_views(es@),
            m <= es.len(),
            views(lines@) == base + edge_lines(esv.take(m as int)),
        decreases es.len() - m,
    {
        let mut line = str_chars("    ");
        extend_chars(&mut line, &es[m].0);
        extend_chars(&mut line, &str_chars(" -->|"));
        extend_chars(&mut line, &es[m].2);
        extend_chars(&mut line, &str_chars("| "));
        extend_chars(&mut line, &es[m].1);
        assert(esv.take(m + 1).drop_last() =~= esv.take(m as int));
        assert(line@ == edge_line(esv[m as int]));
        let ghost old_lines = views(lines@);
        lines.push(line);
        assert(views(lines@) =~= old_lines.push(line@));
        assert(esv.take(m + 1).last() == esv[m as int]);
        assert(edge_lines(esv.take(m + 1)) == edge_lines(esv.take(m as int)).push(line@));
        assert(views(lines@) =~= base + edge_lines(esv.take(m + 1)));
        m += 1;
    }
    assert(esv.take(es.len() as int) =~= esv);
    // The origin's class.
    let mut line = str_chars("    class ");
    extend_chars(&mut line, &str_chars(origin.as_str()));
    extend_chars(&mut line, &str_chars(" origin"));
    lines.push(line);
    let ghost base2 = base + edge_lines(esv) + seq![origin_line(origin@)];
    assert(views(lines@) =~= base2);
    // Type classes, sorted.
    let mut types: Vec<Vec<char>> = Vec::new();
    let mut c: usize = 0;
    assert(classes_of(g, idsv, 0) =~= Set::<Seq<char>>::empty());
    assert(views(types@).to_set() =~= Set::<Seq<char>>::empty());
    while c < classes.len()
        invariant
            classes@.len() == idsv.len(),
            forall|j: int| 0 <= j < idsv.len() ==> (#[trigger] classes@[j])@ == class_of(g, idsv[j]),
            c <= classes.len(),
            sorted_by(views(types@), text_order()),
            views(types@).to_set() == classes_of(g, idsv, c as int),
        decreases classes.len() - c,
    {
        proof {
            lemma_classes_step(g, idsv, c as int);
        }
        insert_text(&mut types, &classes[c]);
        c += 1;
    }
    let ghost tv = views(types@);
    proof {
        lemma_sorted_texts(tv);
    }
    assert(sorted_texts(classes_of(g, idsv, idsv.len() as int)) == tv);
    let sep = str_chars(",");
    let mut q: usize = 0;
    while q < types.len()
        invariant
            tv == views(types@),
            idsv == views(ids@),
            classes@.len() == idsv.len(),
            forall|j: int| 0 <= j < idsv.len() ==> (#[trigger] classes@[j])@ == class_of(g, idsv[j]),
            sep@ == ","@,
            q <= types.len(),
            views(lines@) == base2 + class_lines(g, idsv, tv.take(q as int)),
        decreases types.len() - q,
    {
        let mut members_of: Vec<Vec<char>> = Vec::new();
        let mut j: usize = 0;
        while j < ids.len()
            invariant
                tv == views(types@),
                idsv == views(ids@),
                classes@.len() == idsv.len(),
                forall|h: int| 0 <= h < idsv.len() ==> (#[trigger] classes@[h])@ == class_of(g, idsv[h]),
                q < types.len(),
                j <= ids.len(),
                views(members_of@) == ids_of_class(g, idsv.take(j as int), tv[q as int]),
            decreases ids.len() - j,
        {
            assert(idsv.take(j + 1).drop_last() =~= idsv.take(j as int));
            assert(classes@[j as int]@ == class_of(g, idsv[j as int]));
            if chars_eq(&classes[j], &types[q]) {
                members_of.push(ids[j].clone());
                assert(views(members_of@) =~= ids_of_class(g, idsv.take(j + 1), tv[q as int]));
            } else {
                assert(views(members_of@) =~= ids_of_class(g, idsv.take(j + 1), tv[q as int]));
            }
            j += 1;
        }
        assert(idsv.take(ids.len() as int) =~= idsv);
        let joined = join_range(&members_of, 0, members_of.len(), &sep);
        assert(views(members_of@).subrange(0, members_of.len() as int) =~= views(members_of@));
        let mut line = str_chars("    class ");
        extend_chars(&mut line, &joined);
        extend_chars(&mut line, &str_chars(" "));
        extend_chars(&mut line, &types[q]);
        assert(tv.take(q + 1).drop_last() =~= tv.take(q as int));
        assert(line@ == class_line(ids_of_class(g, idsv, tv[q as int]), tv[q as int]));
        let ghost old_lines = views(lines@);
        lines.push(line);
        assert(views(lines@) =~= old_lines.push(line@));
        assert(tv.take(q + 1).last() == tv[q as int]);
        assert(class_lines(g, idsv, tv.take(q + 1)) == class_lines(g, idsv, tv.take(q as int)).push(line@));
        assert(views(lines@) =~= base2 + class_lines(g, idsv, tv.take(q + 1)));
        q += 1;
    }
    assert(tv.take(types.len() as int) =~= tv);
    assert(views(lines@) =~= diagram_lines(g, origin@, ms));
    chars_to_string(&lines_to_text(&lines))
}

/// The identifiers of traversal nodes, in order.
pub open spec fn node_ids(items: Seq<TraversalNode>) -> Seq<Seq<char>> {
    items.map_values(|n: TraversalNode| n.item_id@)
}

/// Renders a traversal result as a Mermaid `flowchart BT`: every item the
/// traversal reported and the relationships between them.
pub fn traversal_to_mermaid(result: &TraversalResult, graph: &KnowledgeGraph) -> (r: String)
    requires
        graph.wf(),
    ensures
        r@ == diagram_text(
            *graph,
            result.origin@,
            node_ids(result.items@).to_set(),
        ),
{
    let mut members: Vec<ItemId> = Vec::new();
    let mut i: usize = 0;
    while i < result.items.len()
        invariant
            i <= result.items.len(),
            id_views(members@) == node_ids(result.items@.take(i as int)),
        decreases result.items.len() - i,
    {
        let ghost before = id_views(members@);
        members.push(result.items[i].item_id.duplicate());
        assert(id_views(members@) =~= before.push(result.items@[i as int].item_id@));
        assert(node_ids(result.items@.take(i + 1)) =~= node_ids(result.items@.take(i as int)).push(
            result.items@[i as int].item_id@,
        ));
        i += 1;
    }
    assert(result.items@.take(result.items.len() as int) =~= result.items@);
    render(graph, &result.origin, &members)
}

/// True if `t` passes the type filter.
fn allowed(filter: &Vec<ItemType>, t: ItemType) -> (r: bool)
    ensures
        r == type_allowed(filter@, t),
{
    if filter.len() == 0 {
        return true;
    }
    let mut i: usize = 0;
    while i < filter.len()
        invariant
            i <= filter.len(),
            forall|j: int| 0 <= j < i ==> filter@[j] != t,
        decreases filter.len() - i,
    {
        if filter[i] == t {
            return true;
        }
        i += 1;
    }
    false
}

/// One more edge adds its far end when that item passes the filter.
proof fn lemma_far_ends_step(g: KnowledgeGraph, es: Seq<GraphEdge>, take_target: bool, filter: Seq<ItemType>, k: int)
    requires
        0 <= k,
    ensures
        far_ends(g, es, take_target, filter, k + 1) == if type_allowed(
            filter,
            g.nodes()[far_end(es[k], take_target)].item_type,
        ) {
            far_ends(g, es, take_target, filter, k).insert(id_at(g, far_end(es[k], take_target)))
        } else {
            far_ends(g, es, take_target, filter, k)
        },
{
    let a = far_ends(g, es, take_target, filter, k);
    let b = far_ends(g, es, take_target, filter, k + 1);
    let x = id_at(g, far_end(es[k], take_target));
    if type_allowed(filter, g.nodes()[far_end(es[k], take_target)].item_type) {
        assert forall|id: Seq<char>| b.contains(id) <==> a.insert(x).contains(id) by {
            if b.contains(id) {
                let j = choose|j: int|
                    0 <= j < k + 1 && type_allowed(filter, g.nodes()[far_end(es[j], take_target)].item_type)
                        && #[trigger] id_at(g, far_end(es[j], take_target)) == id;
                if j < k {
                    assert(a.contains(id));
                }
            }
            if a.contains(id) {
                let j = choose|j: int|
                    0 <= j < k && type_allowed(filter, g.nodes()[far_end(es[j], take_target)].item_type)
                        && #[trigger] id_at(g, far_end(es[j], take_target)) == id;
                assert(b.contains(id));
            }
        }
        assert(b =~= a.insert(x));
    } else {
        assert forall|id: Seq<char>| b.contains(id) <==> a.contains(id) by {
            if b.contains(id) {
                let j = choose|j: int|
                    0 <= j < k + 1 && type_allowed(filter, g.nodes()[far_end(es[j], take_target)].item_type)
                        && #[trigger] id_at(g, far_end(es[j], take_target)) == id;
                assert(j < k);
            }
            if a.contains(id) {
                let j = choose|j: int|
                    0 <= j < k && type_allowed(filter, g.nodes()[far_end(es[j], take_target)].item_type)
                        && #[trigger] id_at(g, far_end(es[j], take_target)) == id;
                assert(b.contains(id));
            }
        }
        assert(b =~= a);
    }
}

/// Appends the identifiers at the far ends of `es` whose items pass the
/// type filter.
fn push_far_ends(graph: &KnowledgeGraph, es: &Vec<GraphEdge>, take_target: bool, filter: &Vec<ItemType>, members: &mut Vec<ItemId>)
    requires
        forall|k: int|
            0 <= k < es@.len() ==> (#[trigger] es@[k]).0 < graph.nodes().len() && es@[k].1
                < graph.nodes().len(),
    ensures
        id_views(final(members)@).to_set() == id_views(old(members)@).to_set().union(
            far_ends(*graph, es@, take_target, filter@, es@.len() as int),
        ),
{
    let ghost g = *graph;
    let ghost start = id_views(members@).to_set();
    let mut i: usize = 0;
    assert(far_ends(g, es@, take_target, filter@, 0) =~= Set::<Seq<char>>::empty());
    assert(start.union(Set::<Seq<char>>::empty()) =~= start);
    while i < es.len()
        invariant
            g == *graph,
            forall|k: int|
                0 <= k < es@.len() ==> (#[trigger] es@[k]).0 < g.nodes().len() && es@[k].1 < g.nodes().len(),
            i <= es.len(),
            id_views(members@).to_set() == start.union(far_ends(g, es@, take_target, filter@, i as int)),
        decreases es.len() - i,
    {
        proof {
            lemma_far_ends_step(g, es@, take_target, filter@, i as int);
        }
        let e = es[i];
        let end = if take_target {
            e.1
        } else {
            e.0
        };
        assert(end as int == far_end(es@[i as int], take_target));
        let items = graph.items();
        if allowed(filter, items[end].item_type) {
            let ghost before = id_views(members@);
            members.push(items[end].id.duplicate());
            let ghost after = id_views(members@);
            assert(after =~= before.push(id_at(g, end as int)));
            assert forall|x: Seq<char>| after.to_set().contains(x) <==> before.to_set().insert(id_at(g, end as int)).contains(x) by {
                if after.to_set().contains(x) {
                    let m = choose|m: int| 0 <= m < after.len() && after[m] == x;
                    if m < before.len() {
                        assert(before[m] == x);
                    }
                }
                if before.to_set().contains(x) {
                    let m = choose|m: int| 0 <= m < before.len() && before[m] == x;
                    assert(after[m] == x);
                }
                if x == id_at(g, end as int) {
                    assert(after[before.len() as int] == x);
                }
            }
            assert(after.to_set() =~= before.to_set().insert(id_at(g, end as int)));
            assert(id_views(members@).to_set() =~= start.union(far_ends(g, es@, take_target, filter@, i + 1)));
        }
        i += 1;
    }
}

/// Renders an item and the items it is directly related to, whichever
/// side declared the relation, as a Mermaid `flowchart BT`. The related
/// items are limited to the type filter of `options`; the origin is always
/// a member.
pub fn neighborhood_to_mermaid(graph: &KnowledgeGraph, origin: &ItemId, options: &TraversalOptions) -> (r: String)
    requires
        graph.wf(),
    ensures
        r@ == diagram_text(*graph, origin@, neighborhood(*graph, origin@, options.type_filter@)),
{
    let ghost g = *graph;
    let mut members: Vec<ItemId> = Vec::new();
    let ghost empty = id_views(members@).to_set();
    assert(empty =~= Set::<Seq<char>>::empty());
    match graph.node_index(origin) {
        Some(p) => {
            let out = graph.edges_directed(p, true);
            let inc = graph.edges_directed(p, false);
            push_far_ends(graph, &out, true, &options.type_filter, &mut members);
            push_far_ends(graph, &inc, false, &options.type_filter, &mut members);
            let ghost before = id_views(members@);
            members.push(origin.duplicate());
            let ghost after = id_views(members@);
            assert(after =~= before.push(origin@));
            assert forall|x: Seq<char>| after.to_set().contains(x) <==> before.to_set().insert(origin@).contains(x) by {
                if after.to_set().contains(x) {
                    let m = choose|m: int| 0 <= m < after.len() && after[m] == x;
                    if m < before.len() {
                        assert(before[m] == x);
                    }
                }
                if before.to_set().contains(x) {
                    let m = choose|m: int| 0 <= m < before.len() && before[m] == x;
                    assert(after[m] == x);
                }
                if x == origin@ {
                    assert(after[before.len() as int] == x);
                }
            }
            assert(after.to_set() =~= neighborhood(g, origin@, options.type_filter@));
        },
        None => {
            members.push(origin.duplicate());
            let ghost after = id_views(members@);
            assert(after =~= seq![origin@]);
            assert forall|x: Seq<char>| after.to_set().contains(x) <==> set![origin@].contains(x) by {
                if x == origin@ {
                    assert(after[0] == x);
                }
            }
            assert(after.to_set() =~= neighborhood(g, origin@, options.type_filter@));
        },
    }
    render(graph, origin, &members)
}

} // verus!

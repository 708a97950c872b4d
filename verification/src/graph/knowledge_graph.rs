//! The knowledge graph: items as nodes, relationships as directed edges.
use petgraph::graph::DiGraph;
use vstd::prelude::*;

use super::digraph::{
    graph_add_edge, graph_add_node, graph_count_edges, graph_count_nodes, graph_edge_list,
    graph_edges, graph_edges_directed, graph_new, graph_node_count, incident, lemma_incident_edges,
    GraphEdge,
};
use crate::error::SaraError;
use crate::model::item::required_parent;
use crate::model::relationship::direction_of;
use crate::model::{Item, ItemId, ItemType, RelationDirection, RelationshipType};
use crate::model::item::{formatted_id, type_prefix};
use crate::text::{
    decimal, is_digit, lemma_decimal_value, lemma_pad_zeros, lowercase, pad_zeros, parse_u32,
    str_byte_len, str_to_lowercase, unsigned_digits, utf8_len,
};

verus! {

/// The Levenshtein distance between two texts: the fewest single-character
/// insertions, deletions and substitutions that turn `a` into `b`.
pub open spec fn levenshtein_distance(a: Seq<char>, b: Seq<char>) -> nat
    decreases a.len() + b.len(),
{
    if a.len() == 0 {
        b.len()
    } else if b.len() == 0 {
        a.len()
    } else {
        let substitute = levenshtein_distance(a.drop_last(), b.drop_last()) + if a.last() == b.last() {
            0nat
        } else {
            1nat
        };
        let delete = levenshtein_distance(a.drop_last(), b) + 1;
        let insert = levenshtein_distance(a, b.drop_last()) + 1;
        if substitute <= delete && substitute <= insert {
            substitute
        } else if delete <= insert {
            delete
        } else {
            insert
        }
    }
}

/// `strsim::levenshtein`: the minimum number of single-character
/// insertions, deletions and substitutions that turn `a` into `b`.
#[verifier::external_body]
fn edit_distance(a: &str, b: &str) -> (r: usize)
    ensures
        r == levenshtein_distance(a@, b@),
{
    strsim::levenshtein(a, b)
}

/// Position of the last item with the given identifier.
pub open spec fn find_last(items: Seq<Item>, id: Seq<char>) -> Option<int>
    decreases items.len(),
{
    if items.len() == 0 {
        None
    } else if items.last().id@ == id {
        Some(items.len() - 1)
    } else {
        find_last(items.drop_last(), id)
    }
}

/// True if the graph has an item with this identifier.
pub open spec fn known(g: KnowledgeGraph, id: Seq<char>) -> bool {
    find_last(g.nodes(), id) is Some
}

/// The item that `get` finds under an identifier the graph knows.
pub open spec fn item_of(g: KnowledgeGraph, id: Seq<char>) -> Item {
    g.nodes()[find_last(g.nodes(), id).unwrap()]
}

/// The item found under `find_last`: the last one with that identifier.
pub proof fn lemma_find_last(items: Seq<Item>, id: Seq<char>)
    ensures
        find_last(items, id) matches Some(p) ==> {
            &&& 0 <= p < items.len()
            &&& items[p].id@ == id
            &&& forall|j: int| p < j < items.len() ==> items[j].id@ != id
        },
        find_last(items, id) is None ==> forall|j: int| 0 <= j < items.len() ==> items[j].id@ != id,
    decreases items.len(),
{
    if items.len() > 0 {
        let rest = items.drop_last();
        lemma_find_last(rest, id);
        assert forall|j: int| 0 <= j < rest.len() implies rest[j] == items[j] by {}
    }
}

/// When no item from position `i` on has the identifier, the search gives
/// the same answer on the first `i` items.
proof fn lemma_find_last_prefix(items: Seq<Item>, i: int, id: Seq<char>)
    requires
        0 <= i <= items.len(),
        forall|j: int| i <= j < items.len() ==> items[j].id@ != id,
    ensures
        find_last(items, id) == find_last(items.take(i), id),
    decreases items.len(),
{
    if i == items.len() {
        assert(items.take(i) =~= items);
    } else {
        lemma_find_last_prefix(items.drop_last(), i, id);
        assert(items.drop_last().take(i) =~= items.take(i));
    }
}

/// True if the item at `i` is the last one carrying its identifier.
pub open spec fn is_last_of_id(items: Seq<Item>, i: int) -> bool {
    forall|j: int| i < j < items.len() ==> items[j].id@ != items[i].id@
}

/// The positions, among the first `n` items, of the last item of each
/// identifier.
pub open spec fn id_positions(items: Seq<Item>, n: int) -> Seq<int>
    decreases n,
{
    if n <= 0 {
        seq![]
    } else {
        id_positions(items, n - 1) + if is_last_of_id(items, n - 1) {
            seq![n - 1]
        } else {
            seq![]
        }
    }
}

/// The positions of the items of type `t` among the first `n` items.
pub open spec fn type_positions(items: Seq<Item>, t: ItemType, n: int) -> Seq<int>
    decreases n,
{
    if n <= 0 {
        seq![]
    } else {
        type_positions(items, t, n - 1) + if items[n - 1].item_type == t {
            seq![n - 1]
        } else {
            seq![]
        }
    }
}

/// The number of items of type `t`.
pub open spec fn count_type(items: Seq<Item>, t: ItemType) -> nat {
    type_positions(items, t, items.len() as int).len()
}

/// For each type of `types` that occurs, the type and its number of items.
pub open spec fn type_counts(items: Seq<Item>, types: Seq<ItemType>) -> Seq<(ItemType, nat)>
    decreases types.len(),
{
    if types.len() == 0 {
        seq![]
    } else {
        type_counts(items, types.drop_last()) + if count_type(items, types.last()) > 0 {
            seq![(types.last(), count_type(items, types.last()))]
        } else {
            seq![]
        }
    }
}

/// True if the item is a potential orphan: not a root type and without any
/// upstream relationship.
pub open spec fn is_orphan(item: Item) -> bool {
    !(item.item_type == ItemType::Solution) && !crate::model::item::has_upstream_rel(
        item.relationships@,
    )
}

/// The positions of the potential orphans among the first `n` items.
pub open spec fn orphan_positions(items: Seq<Item>, n: int) -> Seq<int>
    decreases n,
{
    if n <= 0 {
        seq![]
    } else {
        orphan_positions(items, n - 1) + if is_orphan(items[n - 1]) {
            seq![n - 1]
        } else {
            seq![]
        }
    }
}

/// True if the item declares no relationship toward the hierarchy root.
pub open spec fn without_upstream(item: Item) -> bool {
    forall|j: int|
        0 <= j < item.relationships@.len() ==> direction_of(#[trigger] item.relationships@[j].relationship_type)
            != RelationDirection::Upstream
}

/// The orphans are exactly the items that are not solutions and declare no
/// upstream relationship (refines, derives from, satisfies, justifies),
/// whatever downstream or peer relationships they declare: `orphans`
/// lists each of them once, in graph order, and nothing else.
pub proof fn lemma_orphans_are_parentless(g: KnowledgeGraph, r: Seq<Item>)
    requires
        r.len() == orphan_positions(g.nodes(), g.nodes().len() as int).len(),
        forall|k: int|
            0 <= k < r.len() ==> r[k] == g.nodes()[orphan_positions(g.nodes(), g.nodes().len() as int)[k]],
    ensures
        forall|k: int|
            0 <= k < r.len() ==> (#[trigger] r[k]).item_type != ItemType::Solution && without_upstream(r[k]),
        exists|ps: Seq<int>|
            {
                &&& ps.len() == r.len()
                &&& forall|k: int| 0 <= k < ps.len() ==> 0 <= #[trigger] ps[k] < g.nodes().len() && r[k] == g.nodes()[ps[k]]
                &&& forall|k1: int, k2: int| 0 <= k1 < k2 < ps.len() ==> ps[k1] < ps[k2]
                &&& forall|i: int|
                    0 <= i < g.nodes().len() ==> (ps.contains(i) <==> (g.nodes()[i].item_type != ItemType::Solution
                        && without_upstream(g.nodes()[i])))
            },
{
    let ps = orphan_positions(g.nodes(), g.nodes().len() as int);
    lemma_orphan_positions(g.nodes(), g.nodes().len() as int);
    assert forall|k: int| 0 <= k < r.len() implies (#[trigger] r[k]).item_type != ItemType::Solution
        && without_upstream(r[k]) by {
        assert(ps.contains(ps[k]));
    }
}

/// The orphan positions among the first `n` items: increasing, each below
/// `n`, and exactly those of the items that are not solutions and have no
/// upstream relationship.
proof fn lemma_orphan_positions(items: Seq<Item>, n: int)
    requires
        0 <= n <= items.len(),
    ensures
        forall|k: int| 0 <= k < orphan_positions(items, n).len() ==> 0 <= #[trigger] orphan_positions(items, n)[k] < n,
        forall|k1: int, k2: int|
            0 <= k1 < k2 < orphan_positions(items, n).len() ==> orphan_positions(items, n)[k1] < orphan_positions(
                items,
                n,
            )[k2],
        forall|i: int|
            0 <= i < n ==> (orphan_positions(items, n).contains(i) <==> (items[i].item_type != ItemType::Solution
                && without_upstream(items[i]))),
    decreases n,
{
    if n > 0 {
        lemma_orphan_positions(items, n - 1);
        let prev = orphan_positions(items, n - 1);
        let cur = orphan_positions(items, n);
        let item = items[n - 1];
        assert(is_orphan(item) <==> (item.item_type != ItemType::Solution && without_upstream(item))) by {
            if !without_upstream(item) {
                let j = choose|j: int|
                    0 <= j < item.relationships@.len() && direction_of(item.relationships@[j].relationship_type)
                        == RelationDirection::Upstream;
                assert(crate::model::item::has_upstream_rel(item.relationships@));
            }
        }
        assert forall|k: int| 0 <= k < cur.len() implies 0 <= #[trigger] cur[k] < n by {
            if k < prev.len() {
                assert(cur[k] == prev[k]);
            }
        }
        assert forall|k1: int, k2: int| 0 <= k1 < k2 < cur.len() implies cur[k1] < cur[k2] by {
            if k2 < prev.len() {
                assert(cur[k1] == prev[k1] && cur[k2] == prev[k2]);
            } else {
                assert(cur[k1] == prev[k1]);
            }
        }
        assert forall|i: int| 0 <= i < n implies (cur.contains(i) <==> (items[i].item_type != ItemType::Solution
            && without_upstream(items[i]))) by {
            if i < n - 1 {
                if prev.contains(i) {
                    let k = choose|k: int| 0 <= k < prev.len() && prev[k] == i;
                    assert(cur[k] == i);
                }
                if cur.contains(i) {
                    let k = choose|k: int| 0 <= k < cur.len() && cur[k] == i;
                    if k < prev.len() {
                        assert(prev[k] == i);
                    }
                }
            } else {
                if is_orphan(item) {
                    assert(cur[prev.len() as int] == n - 1);
                } else {
                    assert(cur == prev);
                }
            }
        }
    }
}

/// The far ends of the upstream edges among `es`: targets (`take_target`)
/// or sources.
pub open spec fn upstream_ends(es: Seq<GraphEdge>, take_target: bool) -> Seq<int>
    decreases es.len(),
{
    if es.len() == 0 {
        seq![]
    } else {
        upstream_ends(es.drop_last(), take_target) + if direction_of(es.last().2)
            == RelationDirection::Upstream {
            seq![if take_target { es.last().1 as int } else { es.last().0 as int }]
        } else {
            seq![]
        }
    }
}

/// An identifier with its distance to the query.
pub type Scored = (Seq<char>, nat);

/// The entries of `s` at distance `d`, in order.
pub open spec fn at_distance(s: Seq<Scored>, d: nat) -> Seq<Scored>
    decreases s.len(),
{
    if s.len() == 0 {
        seq![]
    } else {
        at_distance(s.drop_last(), d) + if s.last().1 == d {
            seq![s.last()]
        } else {
            seq![]
        }
    }
}

/// The entries of `s` at distance at most `d`, ordered by distance and,
/// at equal distance, in their order in `s` (a stable sort by distance).
pub open spec fn ranked(s: Seq<Scored>, d: nat) -> Seq<Scored>
    decreases d,
{
    if d == 0 {
        at_distance(s, 0)
    } else {
        ranked(s, (d - 1) as nat) + at_distance(s, d)
    }
}

/// The identifiers of the graph with their distance to the query, both
/// lower-cased.
pub open spec fn scored_ids(items: Seq<Item>, query: Seq<char>) -> Seq<Scored> {
    id_positions(items, items.len() as int).map_values(
        |p: int| (items[p].id@, levenshtein_distance(lowercase(query), lowercase(items[p].id@))),
    )
}

/// The largest distance a suggestion may have: the query's length in
/// bytes, but at least 3.
pub open spec fn suggestion_limit(query: Seq<char>) -> nat {
    if utf8_len(query) > 3 {
        utf8_len(query)
    } else {
        3
    }
}

/// The suggestions for a query: at most `max` identifiers within the
/// distance limit, closest first.
pub open spec fn similar_ids(items: Seq<Item>, query: Seq<char>, max: nat) -> Seq<Scored> {
    let all = ranked(scored_ids(items, query), suggestion_limit(query));
    if all.len() <= max {
        all
    } else {
        all.take(max as int)
    }
}

/// The scored identifiers in `out` are those of `s`, in the same order.
pub open spec fn same_scores(out: Seq<(&ItemId, usize)>, s: Seq<Scored>) -> bool {
    &&& out.len() == s.len()
    &&& forall|k: int| 0 <= k < out.len() ==> (#[trigger] out[k]).0@ == s[k].0 && out[k].1 == s[k].1
}

/// `s` without its leading `-` characters.
pub open spec fn strip_dashes(s: Seq<char>) -> Seq<char>
    decreases s.len(),
{
    if s.len() > 0 && s[0] == '-' {
        strip_dashes(s.drop_first())
    } else {
        s
    }
}

/// The number an identifier carries after the prefix of type `t` and any
/// dashes, if it has that prefix and a number.
pub open spec fn id_number(t: ItemType, id: Seq<char>) -> Option<u32> {
    let p = type_prefix(t);
    if id.len() >= p.len() && id.take(p.len() as int) == p {
        parse_u32(strip_dashes(id.skip(p.len() as int)))
    } else {
        None
    }
}

/// The largest number carried by the identifiers of the first `n` items of
/// type `t` (0 when there is none).
pub open spec fn max_number(items: Seq<Item>, t: ItemType, n: int) -> nat
    decreases n,
{
    if n <= 0 {
        0
    } else {
        let m = max_number(items, t, n - 1);
        if items[n - 1].item_type == t {
            match id_number(t, items[n - 1].id@) {
                Some(k) => if k > m {
                    k as nat
                } else {
                    m
                },
                None => m,
            }
        } else {
            m
        }
    }
}

/// The number an identifier carries after the prefix of type `t`.
fn identifier_number(t: ItemType, id: &ItemId) -> (r: Option<u32>)
    ensures
        r == id_number(t, id@),
{
    let v = crate::text::str_chars(id.as_str());
    let p = crate::text::str_chars(t.prefix());
    if v.len() < p.len() {
        return None;
    }
    let head = crate::text::sub_chars(&v, 0, p.len());
    assert(head@ =~= v@.take(p@.len() as int));
    if !crate::text::chars_eq(&head, &p) {
        return None;
    }
    let mut i = p.len();
    assert(v@.skip(p@.len() as int) =~= v@.skip(i as int));
    while i < v.len() && v[i] == '-'
        invariant
            p@.len() <= i <= v.len(),
            strip_dashes(v@.skip(p@.len() as int)) == strip_dashes(v@.skip(i as int)),
        decreases v.len() - i,
    {
        assert(v@.skip(i as int).drop_first() =~= v@.skip(i + 1));
        i += 1;
    }
    let rest = crate::text::sub_chars(&v, i, v.len());
    assert(rest@ =~= v@.skip(i as int));
    assert(strip_dashes(rest@) == rest@);
    crate::text::parse_u32_chars(&rest)
}

impl ItemType {
    /// The largest number among the graph's IDs of this type (0 when none
    /// carries one).
    pub fn largest_id_number(&self, graph: &KnowledgeGraph) -> (r: u32)
        ensures
            r == max_number(graph.nodes(), *self, graph.nodes().len() as int),
    {
        let items = graph.items();
        let mut max_num: u32 = 0;
        let mut i: usize = 0;
        while i < items.len()
            invariant
                items@ == graph.nodes(),
                i <= items.len(),
                max_num == max_number(items@, *self, i as int),
            decreases items.len() - i,
        {
            if items[i].item_type == *self {
                match identifier_number(*self, &items[i].id) {
                    Some(k) => {
                        if k > max_num {
                            max_num = k;
                        }
                    },
                    None => {},
                }
            }
            i += 1;
        }
        max_num
    }

    /// Suggests the next ID of this type: one more than the largest number
    /// among the graph's IDs of this type; the first ID when there is no
    /// graph or no numbered item.
    pub fn suggest_next_id(&self, graph: Option<&KnowledgeGraph>) -> (r: String)
        requires
            graph matches Some(g) ==> max_number(g.nodes(), *self, g.nodes().len() as int) < u32::MAX,
        ensures
            r@ == match graph {
                Some(g) => formatted_id(*self, max_number(g.nodes(), *self, g.nodes().len() as int) + 1),
                None => formatted_id(*self, 1),
            },
    {
        match graph {
            Some(g) => {
                let max_num = self.largest_id_number(g);
                self.generate_id(Some(max_num + 1))
            },
            None => self.generate_id(None),
        }
    }
}

/// An identifier in the standard form reads back as its number.
proof fn lemma_formatted_id_number(t: ItemType, n: nat)
    requires
        n <= u32::MAX,
    ensures
        id_number(t, formatted_id(t, n)) == Some(n as u32),
{
    let p = type_prefix(t);
    let d = pad_zeros(decimal(n), 3);
    let f = formatted_id(t, n);
    lemma_decimal_value(n);
    lemma_pad_zeros(decimal(n), 3);
    assert(f.take(p.len() as int) =~= p);
    assert(f.skip(p.len() as int) =~= seq!['-'] + d);
    assert((seq!['-'] + d).drop_first() =~= d);
    assert(is_digit(d[0]));
    assert(strip_dashes(d) == d);
    assert(strip_dashes(seq!['-'] + d) == d);
    assert(unsigned_digits(d) == d);
}

/// Every number carried by an identifier of type `t` among the first `n`
/// items is at most their largest number.
proof fn lemma_max_number_bound(items: Seq<Item>, t: ItemType, n: int, i: int)
    requires
        0 <= i < n <= items.len(),
        items[i].item_type == t,
        id_number(t, items[i].id@) is Some,
    ensures
        id_number(t, items[i].id@).unwrap() <= max_number(items, t, n),
    decreases n,
{
    if i < n - 1 {
        lemma_max_number_bound(items, t, n - 1, i);
    }
}

/// The suggested identifier is new: no item of the type already has it, as
/// it carries a number larger than every number the type's identifiers
/// carry.
pub proof fn lemma_suggested_id_is_fresh(g: KnowledgeGraph, t: ItemType)
    requires
        max_number(g.nodes(), t, g.nodes().len() as int) < u32::MAX,
    ensures
        forall|i: int|
            0 <= i < g.nodes().len() && #[trigger] g.nodes()[i].item_type == t ==> g.nodes()[i].id@
                != formatted_id(t, max_number(g.nodes(), t, g.nodes().len() as int) + 1),
{
    let items = g.nodes();
    let m = max_number(items, t, items.len() as int);
    lemma_formatted_id_number(t, m + 1);
    assert forall|i: int|
        0 <= i < items.len() && #[trigger] items[i].item_type == t implies items[i].id@
            != formatted_id(t, m + 1) by {
        if items[i].id@ == formatted_id(t, m + 1) {
            lemma_max_number_bound(items, t, items.len() as int, i);
        }
    }
}

/// Result of looking up an item.
pub enum LookupResult<'a> {
    /// Item found.
    Found(&'a Item),
    /// Item not found, but similar items exist.
    NotFound {
        /// Suggestions for similar item IDs.
        suggestions: Vec<&'a ItemId>,
    },
}

/// The main knowledge graph container: node `i` of the relationship graph
/// stands for `items[i]`.
pub struct KnowledgeGraph {
    items: Vec<Item>,
    graph: DiGraph<(), RelationshipType>,
    strict_mode: bool,
}

impl KnowledgeGraph {
    /// The items, in the order they were added.
    pub closed spec fn nodes(&self) -> Seq<Item> {
        self.items@
    }

    /// The relationship edges between item positions, in the order they
    /// were added.
    pub closed spec fn edges(&self) -> Seq<GraphEdge> {
        graph_edges(self.graph)
    }

    /// Whether orphan checking is strict.
    pub closed spec fn strict(&self) -> bool {
        self.strict_mode
    }

    /// Well-formedness: one node per item, every edge between existing
    /// items, and both counts within the graph's `u32` indices.
    pub open spec fn wf(&self) -> bool {
        &&& self.nodes().len() <= u32::MAX
        &&& self.edges().len() <= u32::MAX
        &&& forall|k: int|
            0 <= k < self.edges().len() ==> (#[trigger] self.edges()[k]).0 < self.nodes().len()
                && self.edges()[k].1 < self.nodes().len()
        &&& self.node_count_matches()
    }

    /// The relationship graph has exactly one node per item.
    pub closed spec fn node_count_matches(&self) -> bool {
        graph_node_count(self.graph) == self.items.len()
    }

    /// Creates a new empty knowledge graph.
    pub fn new() -> (g: KnowledgeGraph)
        ensures
            g.wf(),
            g.nodes() == Seq::<Item>::empty(),
            g.edges() == Seq::<GraphEdge>::empty(),
            !g.strict(),
    {
        Self::new_strict(false)
    }

    /// Creates a new empty knowledge graph with the given orphan checking
    /// mode.
    pub fn new_strict(strict: bool) -> (g: KnowledgeGraph)
        ensures
            g.wf(),
            g.nodes() == Seq::<Item>::empty(),
            g.edges() == Seq::<GraphEdge>::empty(),
            g.strict() == strict,
    {
        KnowledgeGraph { items: Vec::new(), graph: graph_new(), strict_mode: strict }
    }

    /// Returns whether orphan checking is strict.
    pub fn is_strict_mode(&self) -> (r: bool)
        ensures
            r == self.strict(),
    {
        self.strict_mode
    }

    /// Returns the number of items in the graph.
    pub fn item_count(&self) -> (r: usize)
        requires
            self.wf(),
        ensures
            r == self.nodes().len(),
    {
        graph_count_nodes(&self.graph)
    }

    /// Returns the number of relationships in the graph.
    pub fn relationship_count(&self) -> (r: usize)
        ensures
            r == self.edges().len(),
    {
        graph_count_edges(&self.graph)
    }

    /// Adds an item to the graph and returns its position.
    pub fn add_item(&mut self, item: Item) -> (r: usize)
        requires
            old(self).wf(),
            old(self).nodes().len() < u32::MAX,
        ensures
            final(self).wf(),
            r == old(self).nodes().len(),
            final(self).nodes() == old(self).nodes().push(item),
            final(self).edges() == old(self).edges(),
            final(self).strict() == old(self).strict(),
    {
        let idx = graph_add_node(&mut self.graph);
        self.items.push(item);
        idx
    }

    /// Returns the position of the item with the given ID (the last one
    /// added, when several share it).
    pub fn node_index(&self, id: &ItemId) -> (r: Option<usize>)
        ensures
            r matches Some(i) ==> find_last(self.nodes(), id@) == Some(i as int) && i < self.nodes().len(),
            r is None ==> find_last(self.nodes(), id@) is None,
    {
        let mut i: usize = self.items.len();
        while i > 0
            invariant
                i <= self.items.len(),
                forall|j: int| i <= j < self.items@.len() ==> self.items@[j].id@ != id@,
            decreases i,
        {
            i -= 1;
            if self.items[i].id.same_as(id) {
                proof {
                    lemma_find_last_prefix(self.items@, i + 1, id@);
                    assert(self.items@.take(i + 1).last() == self.items@[i as int]);
                }
                return Some(i);
            }
        }
        proof {
            lemma_find_last_prefix(self.items@, 0, id@);
        }
        None
    }

    /// Adds a relationship between two items; nothing is added when either
    /// item is missing.
    pub fn add_relationship(&mut self, from: &ItemId, to: &ItemId, rel_type: RelationshipType)
        requires
            old(self).wf(),
            old(self).edges().len() < u32::MAX,
        ensures
            final(self).wf(),
            final(self).nodes() == old(self).nodes(),
            final(self).strict() == old(self).strict(),
            match (find_last(old(self).nodes(), from@), find_last(old(self).nodes(), to@)) {
                (Some(a), Some(b)) => final(self).edges() == old(self).edges().push(
                    (a as usize, b as usize, rel_type),
                ),
                _ => final(self).edges() == old(self).edges(),
            },
    {
        proof {
            lemma_find_last(self.items@, from@);
            lemma_find_last(self.items@, to@);
        }
        let a = self.node_index(from);
        let b = self.node_index(to);
        match (a, b) {
            (Some(a), Some(b)) => {
                graph_add_edge(&mut self.graph, a, b, rel_type);
                assert forall|k: int| 0 <= k < self.edges().len() implies (
                #[trigger] self.edges()[k]).0 < self.nodes().len() && self.edges()[k].1
                    < self.nodes().len() by {
                    if k < old(self).edges().len() {
                        assert(self.edges()[k] == old(self).edges()[k]);
                    }
                }
            },
            _ => {},
        }
    }

    /// Gets an item by ID.
    pub fn get(&self, id: &ItemId) -> (r: Option<&Item>)
        ensures
            match find_last(self.nodes(), id@) {
                Some(i) => r == Some(&self.nodes()[i]),
                None => r is None,
            },
    {
        proof {
            lemma_find_last(self.items@, id@);
        }
        match self.node_index(id) {
            Some(i) => Some(&self.items[i]),
            None => None,
        }
    }

    /// Checks if an item exists in the graph.
    pub fn contains(&self, id: &ItemId) -> (r: bool)
        ensures
            r == (find_last(self.nodes(), id@) is Some),
    {
        self.node_index(id).is_some()
    }

    /// Returns all items in the graph.
    pub fn items(&self) -> (r: &Vec<Item>)
        ensures
            r@ == self.nodes(),
    {
        &self.items
    }

    /// Returns all item IDs in the graph, one per distinct ID.
    pub fn item_ids(&self) -> (r: Vec<&ItemId>)
        ensures
            r@.len() == id_positions(self.nodes(), self.nodes().len() as int).len(),
            forall|k: int|
                0 <= k < r@.len() ==> *r@[k] == self.nodes()[id_positions(
                    self.nodes(),
                    self.nodes().len() as int,
                )[k]].id,
    {
        let mut r: Vec<&ItemId> = Vec::new();
        let n = self.items.len();
        let mut i: usize = 0;
        while i < n
            invariant
                n == self.items.len(),
                i <= n,
                r@.len() == id_positions(self.items@, i as int).len(),
                forall|k: int|
                    0 <= k < r@.len() ==> *r@[k] == self.items@[id_positions(
                        self.items@,
                        i as int,
                    )[k]].id,
            decreases n - i,
        {
            let mut last = true;
            let mut j: usize = i + 1;
            while j < n
                invariant
                    n == self.items.len(),
                    i < n,
                    i < j <= n,
                    last == (forall|m: int|
                        i < m < j ==> self.items@[m].id@ != self.items@[i as int].id@),
                decreases n - j,
            {
                if self.items[j].id.same_as(&self.items[i].id) {
                    last = false;
                }
                j += 1;
            }
            assert(last == is_last_of_id(self.items@, i as int));
            let ghost before = id_positions(self.items@, i as int);
            if last {
                r.push(&self.items[i].id);
                assert(id_positions(self.items@, i + 1) == before + seq![i as int]);
            } else {
                assert(id_positions(self.items@, i + 1) =~= before);
            }
            i += 1;
        }
        r
    }

    /// Returns all items of a specific type.
    pub fn items_by_type(&self, item_type: ItemType) -> (r: Vec<&Item>)
        ensures
            r@.len() == type_positions(self.nodes(), item_type, self.nodes().len() as int).len(),
            forall|k: int|
                0 <= k < r@.len() ==> *r@[k] == self.nodes()[type_positions(
                    self.nodes(),
                    item_type,
                    self.nodes().len() as int,
                )[k]],
    {
        let mut r: Vec<&Item> = Vec::new();
        let n = self.items.len();
        let mut i: usize = 0;
        while i < n
            invariant
                n == self.items.len(),
                i <= n,
                r@.len() == type_positions(self.items@, item_type, i as int).len(),
                forall|k: int|
                    0 <= k < r@.len() ==> *r@[k] == self.items@[type_positions(
                        self.items@,
                        item_type,
                        i as int,
                    )[k]],
            decreases n - i,
        {
            let ghost before = type_positions(self.items@, item_type, i as int);
            if self.items[i].item_type == item_type {
                r.push(&self.items[i]);
                assert(type_positions(self.items@, item_type, i + 1) == before + seq![i as int]);
            } else {
                assert(type_positions(self.items@, item_type, i + 1) =~= before);
            }
            i += 1;
        }
        r
    }

    /// Counts the items of one type.
    fn count_of_type(&self, item_type: ItemType) -> (r: usize)
        requires
            self.wf(),
        ensures
            r == count_type(self.nodes(), item_type),
    {
        let n = self.items.len();
        let mut c: usize = 0;
        let mut i: usize = 0;
        while i < n
            invariant
                n == self.items.len(),
                n <= u32::MAX,
                i <= n,
                c == type_positions(self.items@, item_type, i as int).len(),
                c <= i,
            decreases n - i,
        {
            if self.items[i].item_type == item_type {
                c += 1;
            }
            i += 1;
        }
        c
    }

    /// Returns, for each item type present, the number of its items, in
    /// hierarchy order.
    pub fn count_by_type(&self) -> (r: Vec<(ItemType, usize)>)
        requires
            self.wf(),
        ensures
            r@.len() == type_counts(self.nodes(), crate::model::item::all_types()).len(),
            forall|k: int|
                0 <= k < r@.len() ==> r@[k].0 == type_counts(
                    self.nodes(),
                    crate::model::item::all_types(),
                )[k].0 && r@[k].1 == type_counts(self.nodes(), crate::model::item::all_types())[k].1,
    {
        let types = ItemType::all();
        let mut r: Vec<(ItemType, usize)> = Vec::new();
        let mut i: usize = 0;
        while i < types.len()
            invariant
                self.wf(),
                types@ == crate::model::item::all_types(),
                i <= types.len(),
                r@.len() == type_counts(self.nodes(), types@.take(i as int)).len(),
                forall|k: int|
                    0 <= k < r@.len() ==> r@[k].0 == type_counts(
                        self.nodes(),
                        types@.take(i as int),
                    )[k].0 && r@[k].1 == type_counts(self.nodes(), types@.take(i as int))[k].1,
            decreases types.len() - i,
        {
            let t = types[i];
            let c = self.count_of_type(t);
            let ghost before = type_counts(self.nodes(), types@.take(i as int));
            assert(types@.take(i + 1).drop_last() =~= types@.take(i as int));
            if c > 0 {
                r.push((t, c));
                assert(type_counts(self.nodes(), types@.take(i + 1)) == before + seq![
                    (t, count_type(self.nodes(), t)),
                ]);
            } else {
                assert(type_counts(self.nodes(), types@.take(i + 1)) =~= before);
            }
            i += 1;
        }
        assert(types@.take(types.len() as int) =~= types@);
        r
    }

    /// Returns the edges leaving (`outgoing`) or entering the item at
    /// position `n`, most recently added first. Positions are node indices
    /// of the graph, which are `u32`s.
    pub fn edges_directed(&self, n: usize, outgoing: bool) -> (r: Vec<GraphEdge>)
        requires
            self.wf(),
            n <= u32::MAX,
        ensures
            r@ == incident(self.edges(), n, outgoing),
            forall|k: int|
                0 <= k < r@.len() ==> (#[trigger] r@[k]).0 < self.nodes().len() && r@[k].1
                    < self.nodes().len(),
    {
        let r = graph_edges_directed(&self.graph, n, outgoing);
        proof {
            lemma_incident_edges(self.edges(), n, outgoing);
            assert forall|k: int| 0 <= k < r@.len() implies (#[trigger] r@[k]).0
                < self.nodes().len() && r@[k].1 < self.nodes().len() by {
                assert(self.edges().contains(r@[k]));
            }
        }
        r
    }

    /// The items at the far ends of the upstream edges among `es`.
    fn upstream_items(&self, es: &Vec<GraphEdge>, take_target: bool) -> (r: Vec<&Item>)
        requires
            forall|k: int|
                0 <= k < es@.len() ==> (#[trigger] es@[k]).0 < self.nodes().len() && es@[k].1
                    < self.nodes().len(),
        ensures
            r@.len() == upstream_ends(es@, take_target).len(),
            forall|k: int|
                0 <= k < r@.len() ==> *r@[k] == self.nodes()[upstream_ends(es@, take_target)[k]],
    {
        let mut r: Vec<&Item> = Vec::new();
        let mut i: usize = 0;
        while i < es.len()
            invariant
                i <= es.len(),
                forall|k: int|
                    0 <= k < es@.len() ==> (#[trigger] es@[k]).0 < self.items@.len() && es@[k].1
                        < self.items@.len(),
                r@.len() == upstream_ends(es@.take(i as int), take_target).len(),
                forall|k: int|
                    0 <= k < r@.len() ==> *r@[k] == self.items@[upstream_ends(
                        es@.take(i as int),
                        take_target,
                    )[k]],
            decreases es.len() - i,
        {
            let ghost before = upstream_ends(es@.take(i as int), take_target);
            assert(es@.take(i + 1).drop_last() =~= es@.take(i as int));
            assert(es@.take(i + 1).last() == es@[i as int]);
            let e = es[i];
            if e.2.is_upstream() {
                let end = if take_target { e.1 } else { e.0 };
                r.push(&self.items[end]);
                assert(upstream_ends(es@.take(i + 1), take_target) == before + seq![end as int]);
            } else {
                assert(upstream_ends(es@.take(i + 1), take_target) =~= before);
            }
            i += 1;
        }
        assert(es@.take(es.len() as int) =~= es@);
        r
    }

    /// Returns direct parents of an item: the targets of its outgoing
    /// upstream edges.
    pub fn parents(&self, id: &ItemId) -> (r: Vec<&Item>)
        requires
            self.wf(),
        ensures
            match find_last(self.nodes(), id@) {
                Some(i) => {
                    let ends = upstream_ends(incident(self.edges(), i as usize, true), true);
                    &&& r@.len() == ends.len()
                    &&& forall|k: int| 0 <= k < r@.len() ==> *r@[k] == self.nodes()[ends[k]]
                },
                None => r@.len() == 0,
            },
    {
        match self.node_index(id) {
            Some(i) => {
                let es = self.edges_directed(i, true);
                self.upstream_items(&es, true)
            },
            None => Vec::new(),
        }
    }

    /// Returns direct children of an item: the sources of its incoming
    /// upstream edges.
    pub fn children(&self, id: &ItemId) -> (r: Vec<&Item>)
        requires
            self.wf(),
        ensures
            match find_last(self.nodes(), id@) {
                Some(i) => {
                    let ends = upstream_ends(incident(self.edges(), i as usize, false), false);
                    &&& r@.len() == ends.len()
                    &&& forall|k: int| 0 <= k < r@.len() ==> *r@[k] == self.nodes()[ends[k]]
                },
                None => r@.len() == 0,
            },
    {
        match self.node_index(id) {
            Some(i) => {
                let es = self.edges_directed(i, false);
                self.upstream_items(&es, false)
            },
            None => Vec::new(),
        }
    }

    /// Returns all items with no upstream parents (potential orphans);
    /// solutions, the root of the hierarchy, are never orphans.
    pub fn orphans(&self) -> (r: Vec<&Item>)
        ensures
            r@.len() == orphan_positions(self.nodes(), self.nodes().len() as int).len(),
            forall|k: int|
                0 <= k < r@.len() ==> *r@[k] == self.nodes()[orphan_positions(
                    self.nodes(),
                    self.nodes().len() as int,
                )[k]],
    {
        let mut r: Vec<&Item> = Vec::new();
        let n = self.items.len();
        let mut i: usize = 0;
        while i < n
            invariant
                n == self.items.len(),
                i <= n,
                r@.len() == orphan_positions(self.items@, i as int).len(),
                forall|k: int|
                    0 <= k < r@.len() ==> *r@[k] == self.items@[orphan_positions(
                        self.items@,
                        i as int,
                    )[k]],
            decreases n - i,
        {
            let ghost before = orphan_positions(self.items@, i as int);
            let item = &self.items[i];
            if !item.item_type.is_root() && !item.has_upstream() {
                r.push(item);
                assert(orphan_positions(self.items@, i + 1) == before + seq![i as int]);
            } else {
                assert(orphan_positions(self.items@, i + 1) =~= before);
            }
            i += 1;
        }
        r
    }

    /// Returns the underlying relationship graph.
    pub fn inner(&self) -> (r: &DiGraph<(), RelationshipType>)
        ensures
            graph_edges(*r) == self.edges(),
    {
        &self.graph
    }

    /// Returns all relationships in the graph as (from, to, type), in the
    /// order they were added.
    pub fn relationships(&self) -> (r: Vec<(ItemId, ItemId, RelationshipType)>)
        requires
            self.wf(),
        ensures
            r@.len() == self.edges().len(),
            forall|k: int|
                0 <= k < r@.len() ==> {
                    &&& (#[trigger] r@[k]).0@ == self.nodes()[self.edges()[k].0 as int].id@
                    &&& r@[k].1@ == self.nodes()[self.edges()[k].1 as int].id@
                    &&& r@[k].2 == self.edges()[k].2
                },
    {
        let es = graph_edge_list(&self.graph);
        let mut r: Vec<(ItemId, ItemId, RelationshipType)> = Vec::new();
        let mut i: usize = 0;
        while i < es.len()
            invariant
                self.wf(),
                es@ == self.edges(),
                i <= es.len(),
                r@.len() == i,
                forall|k: int|
                    0 <= k < i ==> {
                        &&& (#[trigger] r@[k]).0@ == self.nodes()[es@[k].0 as int].id@
                        &&& r@[k].1@ == self.nodes()[es@[k].1 as int].id@
                        &&& r@[k].2 == es@[k].2
                    },
            decreases es.len() - i,
        {
            let e = es[i];
            assert(e == self.edges()[i as int]);
            let from = self.items[e.0].id.duplicate();
            let to = self.items[e.1].id.duplicate();
            r.push((from, to, e.2));
            i += 1;
        }
        r
    }

    /// The identifiers within the distance limit of `query`, closest first
    /// (at equal distance, in graph order), at most `max_suggestions` of
    /// them.
    fn find_similar_ids_scored(&self, query: &str, max_suggestions: usize) -> (r: Vec<(&ItemId, usize)>)
        ensures
            r@.len() == similar_ids(self.nodes(), query@, max_suggestions as nat).len(),
            forall|k: int|
                0 <= k < r@.len() ==> (#[trigger] r@[k]).0@ == similar_ids(
                    self.nodes(),
                    query@,
                    max_suggestions as nat,
                )[k].0 && r@[k].1 == similar_ids(self.nodes(), query@, max_suggestions as nat)[k].1,
    {
        let ids = self.item_ids();
        let query_lower = str_to_lowercase(query);
        let ghost sc = scored_ids(self.items@, query@);
        let mut scored: Vec<(&ItemId, usize)> = Vec::new();
        let mut i: usize = 0;
        while i < ids.len()
            invariant
                i <= ids.len(),
                query_lower@ == lowercase(query@),
                sc == scored_ids(self.items@, query@),
                ids@.len() == sc.len(),
                forall|k: int| 0 <= k < ids@.len() ==> (#[trigger] ids@[k])@ == sc[k].0,
                scored@.len() == i,
                forall|k: int|
                    0 <= k < i ==> (#[trigger] scored@[k]).0@ == sc[k].0 && scored@[k].1 == sc[k].1,
            decreases ids.len() - i,
        {
            let id_lower = str_to_lowercase(ids[i].as_str());
            let d = edit_distance(query_lower.as_str(), id_lower.as_str());
            scored.push((ids[i], d));
            i += 1;
        }
        let qlen = str_byte_len(query);
        let limit: usize = if qlen > 3 { qlen } else { 3 };
        let mut out: Vec<(&ItemId, usize)> = Vec::new();
        let mut d: usize = 0;
        let mut done = false;
        while !done
            invariant
                d <= limit,
                limit == suggestion_limit(query@),
                scored@.len() == sc.len(),
                forall|k: int|
                    0 <= k < sc.len() ==> (#[trigger] scored@[k]).0@ == sc[k].0 && scored@[k].1
                        == sc[k].1,
                done ==> same_scores(out@, ranked(sc, limit as nat)),
                !done && d == 0 ==> out@.len() == 0,
                !done && d > 0 ==> same_scores(out@, ranked(sc, (d - 1) as nat)),
            decreases limit - d + if done { 0int } else { 1int },
        {
            let ghost base = out@;
            let mut j: usize = 0;
            while j < scored.len()
                invariant
                    j <= scored.len(),
                    scored@.len() == sc.len(),
                    forall|k: int|
                        0 <= k < sc.len() ==> (#[trigger] scored@[k]).0@ == sc[k].0 && scored@[k].1
                            == sc[k].1,
                    out@.len() == base.len() + at_distance(sc.take(j as int), d as nat).len(),
                    forall|k: int| 0 <= k < base.len() ==> out@[k] == base[k],
                    forall|k: int|
                        0 <= k < at_distance(sc.take(j as int), d as nat).len() ==> out@[base.len()
                            + k].0@ == at_distance(sc.take(j as int), d as nat)[k].0 && out@[base.len()
                            + k].1 == at_distance(sc.take(j as int), d as nat)[k].1,
                decreases scored.len() - j,
            {
                let ghost prev = at_distance(sc.take(j as int), d as nat);
                assert(sc.take(j + 1).drop_last() =~= sc.take(j as int));
                assert(sc.take(j + 1).last() == sc[j as int]);
                if scored[j].1 == d {
                    out.push(scored[j]);
                    assert(at_distance(sc.take(j + 1), d as nat) == prev + seq![sc[j as int]]);
                } else {
                    assert(at_distance(sc.take(j + 1), d as nat) =~= prev);
                }
                j += 1;
            }
            assert(sc.take(sc.len() as int) =~= sc);
            let ghost cur = ranked(sc, d as nat);
            let ghost lower = if d == 0 { Seq::<Scored>::empty() } else { ranked(sc, (d - 1) as nat) };
            assert(cur == lower + at_distance(sc, d as nat));
            assert(same_scores(base, lower));
            assert(out@.len() == cur.len());
            assert forall|k: int| 0 <= k < out@.len() implies (#[trigger] out@[k]).0@ == cur[k].0
                && out@[k].1 == cur[k].1 by {
                if k < base.len() {
                    assert(out@[k] == base[k]);
                } else {
                    assert(out@[base.len() + (k - base.len())] == out@[k]);
                }
            }
            assert(same_scores(out@, cur));
            if d == limit {
                done = true;
            } else {
                d += 1;
            }
        }
        let ghost all = ranked(sc, limit as nat);
        assert(sc == scored_ids(self.nodes(), query@));
        if out.len() > max_suggestions {
            out.truncate(max_suggestions);
            assert(same_scores(out@, all.take(max_suggestions as int)));
        }
        out
    }

    /// Finds item IDs similar to the given query string using Levenshtein
    /// distance: up to `max_suggestions` of them, closest first, within a
    /// distance of the query's byte length (at least 3).
    pub fn find_similar_ids(&self, query: &str, max_suggestions: usize) -> (r: Vec<String>)
        ensures
            r@.len() == similar_ids(self.nodes(), query@, max_suggestions as nat).len(),
            forall|k: int|
                0 <= k < r@.len() ==> (#[trigger] r@[k])@ == similar_ids(
                    self.nodes(),
                    query@,
                    max_suggestions as nat,
                )[k].0,
    {
        let scored = self.find_similar_ids_scored(query, max_suggestions);
        let mut r: Vec<String> = Vec::new();
        let mut i: usize = 0;
        while i < scored.len()
            invariant
                i <= scored.len(),
                r@.len() == i,
                forall|k: int| 0 <= k < i ==> (#[trigger] r@[k])@ == scored@[k].0@,
            decreases scored.len() - i,
        {
            r.push(scored[i].0.as_str().to_owned());
            i += 1;
        }
        r
    }

    /// Looks up an item by ID; when it is missing, suggests up to five
    /// similar IDs.
    pub fn lookup(&self, id: &str) -> (r: LookupResult<'_>)
        ensures
            match find_last(self.nodes(), id@) {
                Some(i) => r == LookupResult::Found(&self.nodes()[i]),
                None => r matches LookupResult::NotFound { suggestions } && suggestions@.len()
                    == similar_ids(self.nodes(), id@, 5).len() && forall|k: int|
                    0 <= k < suggestions@.len() ==> (#[trigger] suggestions@[k])@ == similar_ids(
                        self.nodes(),
                        id@,
                        5,
                    )[k].0,
            },
    {
        let item_id = ItemId::new_unchecked(id);
        match self.get(&item_id) {
            Some(item) => LookupResult::Found(item),
            None => {
                let scored = self.find_similar_ids_scored(id, 5);
                let mut suggestions: Vec<&ItemId> = Vec::new();
                let mut i: usize = 0;
                while i < scored.len()
                    invariant
                        i <= scored.len(),
                        suggestions@.len() == i,
                        forall|k: int| 0 <= k < i ==> (#[trigger] suggestions@[k]) == scored@[k].0,
                    decreases scored.len() - i,
                {
                    suggestions.push(scored[i].0);
                    i += 1;
                }
                LookupResult::NotFound { suggestions }
            },
        }
    }

    /// Looks up an item by ID; a missing item gives `ItemNotFound` with up
    /// to three similar IDs.
    pub fn lookup_or_suggest(&self, id: &str) -> (r: Result<&Item, SaraError>)
        ensures
            match find_last(self.nodes(), id@) {
                Some(i) => r == Ok::<&Item, SaraError>(&self.nodes()[i]),
                None => r matches Err(SaraError::ItemNotFound { id: e, suggestions }) && e@
                    == id@ && suggestions@.len() == similar_ids(self.nodes(), id@, 3).len()
                    && forall|k: int|
                    0 <= k < suggestions@.len() ==> (#[trigger] suggestions@[k])@ == similar_ids(
                        self.nodes(),
                        id@,
                        3,
                    )[k].0,
            },
    {
        let item_id = ItemId::new_unchecked(id);
        match self.get(&item_id) {
            Some(item) => Ok(item),
            None => {
                let suggestions = self.find_similar_ids(id, 3);
                Err(SaraError::ItemNotFound { id: id.to_owned(), suggestions })
            },
        }
    }

    /// Checks that items of the parent type required by `item_type` exist;
    /// types without a required parent always pass.
    pub fn check_parent_exists(&self, item_type: ItemType) -> (r: Result<(), SaraError>)
        ensures
            match required_parent(item_type) {
                None => r is Ok,
                Some(p) => {
                    &&& r is Ok <==> exists|i: int|
                        0 <= i < self.nodes().len() && (#[trigger] self.nodes()[i]).item_type == p
                    &&& r is Err ==> (r matches Err(
                        SaraError::MissingParent { item_type: a, parent_type: b },
                    ) && a@ == crate::model::item::type_display(item_type) && b@
                        == crate::model::item::type_display(p))
                },
            },
    {
        let parent_type = match item_type.required_parent_type() {
            Some(p) => p,
            None => return Ok(()),
        };
        let mut i: usize = 0;
        while i < self.items.len()
            invariant
                i <= self.items.len(),
                required_parent(item_type) == Some(parent_type),
                forall|j: int| 0 <= j < i ==> self.items@[j].item_type != parent_type,
            decreases self.items.len() - i,
        {
            if self.items[i].item_type == parent_type {
                assert(self.nodes()[i as int].item_type == parent_type);
                return Ok(());
            }
            i += 1;
        }
        Err(
            SaraError::MissingParent {
                item_type: item_type.display_name().to_owned(),
                parent_type: parent_type.display_name().to_owned(),
            },
        )
    }
}

} // verus!

//! Coverage report: how many items of each type are traced.
use vstd::prelude::*;

use crate::graph::knowledge_graph::{find_last, type_positions, upstream_ends, without_upstream, KnowledgeGraph};
use crate::graph::traversal::unique_ids;
use crate::graph::digraph::incident;
use crate::model::item::{all_types, has_upstream_rel, required_parent, type_display};
use crate::model::relationship::direction_of;
use crate::model::{Item, ItemType, RelationDirection};
use crate::text::{chars_to_string, extend_str, str_chars};

verus! {

/// Coverage counts of one item type.
pub struct TypeCoverage {
    /// The item type.
    pub item_type: ItemType,
    /// Display name of the item type.
    pub type_label: String,
    /// Total items of this type.
    pub total: usize,
    /// Items with complete traceability.
    pub complete: usize,
    /// Items with incomplete traceability.
    pub incomplete: usize,
}

/// An item with incomplete traceability.
pub struct IncompleteItem {
    /// Item ID.
    pub id: String,
    /// Item name.
    pub name: String,
    /// Item type display name.
    pub item_type: String,
    /// Why it is incomplete.
    pub reason: String,
}

/// Coverage of a knowledge graph, by item type.
pub struct CoverageReport {
    /// Coverage by item type, for the types that have items.
    pub by_type: Vec<TypeCoverage>,
    /// Items with incomplete traceability, type by type.
    pub incomplete_items: Vec<IncompleteItem>,
    /// Total number of items.
    pub total_items: usize,
    /// Number of complete items.
    pub complete_items: usize,
}

/// True if an item is traced: a solution when some item declares an
/// upstream relationship to it, any other item when it declares one.
pub open spec fn is_complete(g: KnowledgeGraph, item: Item) -> bool {
    if item.item_type == ItemType::Solution {
        match find_last(g.nodes(), item.id@) {
            Some(i) => upstream_ends(incident(g.edges(), i as usize, false), false).len() > 0,
            None => false,
        }
    } else {
        has_upstream_rel(item.relationships@)
    }
}

/// Why an item is incomplete.
pub open spec fn incomplete_reason(g: KnowledgeGraph, item: Item) -> Seq<char> {
    if item.item_type == ItemType::Solution && !is_complete(g, item) {
        "No downstream items defined"@
    } else if !has_upstream_rel(item.relationships@) {
        "Missing parent "@ + match required_parent(item.item_type) {
            Some(p) => type_display(p),
            None => "N/A (root)"@,
        }
    } else {
        "Incomplete traceability"@
    }
}

/// The number of complete items among the positions `ps`.
pub open spec fn complete_count(g: KnowledgeGraph, ps: Seq<int>) -> nat
    decreases ps.len(),
{
    if ps.len() == 0 {
        0
    } else {
        complete_count(g, ps.drop_last()) + if is_complete(g, g.nodes()[ps.last()]) {
            1nat
        } else {
            0nat
        }
    }
}

/// The incomplete items among the positions `ps`: ID, name, type name
/// and reason.
pub open spec fn incomplete_of(g: KnowledgeGraph, ps: Seq<int>) -> Seq<(Seq<char>, Seq<char>, Seq<char>, Seq<char>)>
    decreases ps.len(),
{
    if ps.len() == 0 {
        seq![]
    } else {
        incomplete_of(g, ps.drop_last()) + if !is_complete(g, g.nodes()[ps.last()]) {
            seq![
                (
                    g.nodes()[ps.last()].id@,
                    g.nodes()[ps.last()].name@,
                    type_display(g.nodes()[ps.last()].item_type),
                    incomplete_reason(g, g.nodes()[ps.last()]),
                ),
            ]
        } else {
            seq![]
        }
    }
}

/// The positions of the items of type `t`.
pub open spec fn of_type(g: KnowledgeGraph, t: ItemType) -> Seq<int> {
    type_positions(g.nodes(), t, g.nodes().len() as int)
}

/// The coverage rows of the types `ts` that have items: type, total,
/// complete.
pub open spec fn coverage_rows(g: KnowledgeGraph, ts: Seq<ItemType>) -> Seq<(ItemType, nat, nat)>
    decreases ts.len(),
{
    if ts.len() == 0 {
        seq![]
    } else {
        coverage_rows(g, ts.drop_last()) + if of_type(g, ts.last()).len() > 0 {
            seq![(ts.last(), of_type(g, ts.last()).len(), complete_count(g, of_type(g, ts.last())))]
        } else {
            seq![]
        }
    }
}

/// The incomplete items of the types `ts`, type by type.
pub open spec fn incomplete_rows(g: KnowledgeGraph, ts: Seq<ItemType>) -> Seq<(Seq<char>, Seq<char>, Seq<char>, Seq<char>)>
    decreases ts.len(),
{
    if ts.len() == 0 {
        seq![]
    } else {
        incomplete_rows(g, ts.drop_last()) + incomplete_of(g, of_type(g, ts.last()))
    }
}

/// The number of items of the types `ts`, type by type.
pub open spec fn type_total(items: Seq<Item>, ts: Seq<ItemType>) -> nat
    decreases ts.len(),
{
    if ts.len() == 0 {
        0
    } else {
        type_total(items, ts.drop_last()) + type_positions(items, ts.last(), items.len() as int).len()
    }
}

/// The number of items of the types `ts` among the first `n` items.
pub open spec fn type_total_upto(items: Seq<Item>, ts: Seq<ItemType>, n: int) -> nat
    decreases ts.len(),
{
    if ts.len() == 0 {
        0
    } else {
        type_total_upto(items, ts.drop_last(), n) + type_positions(items, ts.last(), n).len()
    }
}

/// The complete counts of coverage rows, summed.
pub open spec fn rows_complete(rows: Seq<(ItemType, nat, nat)>) -> nat
    decreases rows.len(),
{
    if rows.len() == 0 {
        0
    } else {
        rows_complete(rows.drop_last()) + rows.last().2
    }
}

/// Counting by type over all types counts every item once.
pub proof fn lemma_type_total_all(items: Seq<Item>, n: int)
    requires
        0 <= n <= items.len(),
    ensures
        type_total_upto(items, all_types(), n) == n,
    decreases n,
{
    if n > 0 {
        lemma_type_total_all(items, n - 1);
        let t = items[n - 1].item_type;
        let ts = all_types();
        assert forall|m: int| 0 <= m <= 10 implies #[trigger] type_total_upto(items, ts.take(m), n)
            == type_total_upto(items, ts.take(m), n - 1) + if ts.take(m).contains(t) { 1nat } else { 0nat } by {
            lemma_type_total_step(items, ts, m, n);
        }
        assert(ts.take(10) =~= ts);
        assert(ts.contains(t)) by {
            match t {
                ItemType::Solution => assert(ts[0] == t),
                ItemType::UseCase => assert(ts[1] == t),
                ItemType::Scenario => assert(ts[2] == t),
                ItemType::SystemRequirement => assert(ts[3] == t),
                ItemType::SystemArchitecture => assert(ts[4] == t),
                ItemType::HardwareRequirement => assert(ts[5] == t),
                ItemType::SoftwareRequirement => assert(ts[6] == t),
                ItemType::HardwareDetailedDesign => assert(ts[7] == t),
                ItemType::SoftwareDetailedDesign => assert(ts[8] == t),
                ItemType::ArchitectureDecisionRecord => assert(ts[9] == t),
            }
        }
        assert(type_total_upto(items, ts.take(10), n) == type_total_upto(items, ts.take(10), n - 1) + 1);
    } else {
        assert forall|m: int| 0 <= m <= 10 implies #[trigger] type_total_upto(items, all_types().take(m), 0) == 0 by {
            lemma_type_total_zero(items, all_types().take(m));
        }
        assert(all_types().take(10) =~= all_types());
    }
}

/// Nothing is counted among no items.
proof fn lemma_type_total_zero(items: Seq<Item>, ts: Seq<ItemType>)
    ensures
        type_total_upto(items, ts, 0) == 0,
    decreases ts.len(),
{
    if ts.len() > 0 {
        lemma_type_total_zero(items, ts.drop_last());
    }
}

/// One more item adds one to the count of the types among `ts.take(m)`
/// that include its type (the types being distinct).
proof fn lemma_type_total_step(items: Seq<Item>, ts: Seq<ItemType>, m: int, n: int)
    requires
        ts == all_types(),
        0 <= m <= 10,
        0 < n <= items.len(),
    ensures
        type_total_upto(items, ts.take(m), n) == type_total_upto(items, ts.take(m), n - 1) + if ts.take(
            m,
        ).contains(items[n - 1].item_type) {
            1nat
        } else {
            0nat
        },
    decreases m,
{
    let t = items[n - 1].item_type;
    if m > 0 {
        lemma_type_total_step(items, ts, m - 1, n);
        assert(ts.take(m).drop_last() =~= ts.take(m - 1));
        assert(ts.take(m).last() == ts[m - 1]);
        assert(ts.take(m).contains(t) == (ts.take(m - 1).contains(t) || ts[m - 1] == t)) by {
            if ts.take(m).contains(t) {
                let k = choose|k: int| 0 <= k < ts.take(m).len() && #[trigger] ts.take(m)[k] == t;
                if k < m - 1 {
                    assert(ts.take(m - 1)[k] == t);
                }
            }
            if ts.take(m - 1).contains(t) {
                let k = choose|k: int| 0 <= k < ts.take(m - 1).len() && #[trigger] ts.take(m - 1)[k] == t;
                assert(ts.take(m)[k] == t);
            }
            if ts[m - 1] == t {
                assert(ts.take(m)[m - 1] == t);
            }
        }
        assert(ts[m - 1] == t ==> !ts.take(m - 1).contains(t)) by {
            if ts[m - 1] == t && ts.take(m - 1).contains(t) {
                let k = choose|k: int| 0 <= k < ts.take(m - 1).len() && #[trigger] ts.take(m - 1)[k] == t;
                assert(ts[k] == ts[m - 1]);
            }
        }
    } else {
        assert(ts.take(0) =~= Seq::<ItemType>::empty());
    }
}

/// Counting over a prefix of the types never exceeds the number of items,
/// and counting over all items is `type_total`.
proof fn lemma_type_total_prefix(items: Seq<Item>, m: int)
    requires
        0 <= m <= 10,
    ensures
        type_total(items, all_types().take(m)) <= items.len(),
{
    lemma_type_total_all(items, items.len() as int);
    lemma_total_upto_full(items, all_types().take(m));
    lemma_total_upto_full(items, all_types());
    lemma_total_prefix_le(items, all_types(), m);
}

/// `type_total` is the count over all items.
proof fn lemma_total_upto_full(items: Seq<Item>, ts: Seq<ItemType>)
    ensures
        type_total(items, ts) == type_total_upto(items, ts, items.len() as int),
    decreases ts.len(),
{
    if ts.len() > 0 {
        lemma_total_upto_full(items, ts.drop_last());
    }
}

/// Counting over a prefix of the types counts no more than over all.
proof fn lemma_total_prefix_le(items: Seq<Item>, ts: Seq<ItemType>, m: int)
    requires
        0 <= m <= ts.len(),
    ensures
        type_total(items, ts.take(m)) <= type_total(items, ts),
    decreases ts.len() - m,
{
    if m < ts.len() {
        lemma_total_prefix_le(items, ts, m + 1);
        assert(ts.take(m + 1).drop_last() =~= ts.take(m));
    } else {
        assert(ts.take(m) =~= ts);
    }
}

/// No more items are complete than there are.
proof fn lemma_complete_count_bound(g: KnowledgeGraph, ps: Seq<int>)
    ensures
        complete_count(g, ps) <= ps.len(),
    decreases ps.len(),
{
    if ps.len() > 0 {
        lemma_complete_count_bound(g, ps.drop_last());
    }
}

/// The view of an incomplete item.
pub open spec fn incomplete_view(i: IncompleteItem) -> (Seq<char>, Seq<char>, Seq<char>, Seq<char>) {
    (i.id@, i.name@, i.item_type@, i.reason@)
}

/// The view of a type coverage.
pub open spec fn coverage_view(c: TypeCoverage) -> (ItemType, nat, nat) {
    (c.item_type, c.total as nat, c.complete as nat)
}

/// Returns whether an item is traced.
fn check_item_complete(item: &Item, graph: &KnowledgeGraph) -> (r: bool)
    requires
        graph.wf(),
    ensures
        r == is_complete(*graph, *item),
{
    if item.item_type.is_root() {
        return graph.children(&item.id).len() > 0;
    }
    item.has_upstream()
}

/// Builds the entry of an incomplete item.
fn create_incomplete_item(item: &Item, graph: &KnowledgeGraph) -> (r: IncompleteItem)
    requires
        graph.wf(),
    ensures
        incomplete_view(r) == (item.id@, item.name@, type_display(item.item_type), incomplete_reason(*graph, *item)),
{
    let reason = if item.item_type.is_root() && graph.children(&item.id).len() == 0 {
        "No downstream items defined".to_owned()
    } else if !item.has_upstream() {
        let mut m = str_chars("Missing parent ");
        match item.item_type.required_parent_type() {
            Some(p) => extend_str(&mut m, p.display_name()),
            None => extend_str(&mut m, "N/A (root)"),
        }
        chars_to_string(&m)
    } else {
        "Incomplete traceability".to_owned()
    };
    IncompleteItem {
        id: item.id.as_str().to_owned(),
        name: item.name.clone(),
        item_type: item.item_type.display_name().to_owned(),
        reason,
    }
}

/// Each item of a list is either complete or listed as incomplete.
proof fn lemma_complete_or_listed(g: KnowledgeGraph, ps: Seq<int>)
    ensures
        incomplete_of(g, ps).len() + complete_count(g, ps) == ps.len(),
    decreases ps.len(),
{
    if ps.len() > 0 {
        lemma_complete_or_listed(g, ps.drop_last());
    }
}

/// Over the given types, the incomplete items listed and the complete
/// items counted together make up every item of those types.
proof fn lemma_rows_partition(g: KnowledgeGraph, ts: Seq<ItemType>)
    ensures
        incomplete_rows(g, ts).len() + rows_complete(coverage_rows(g, ts)) == type_total(g.nodes(), ts),
    decreases ts.len(),
{
    if ts.len() > 0 {
        let prev = ts.drop_last();
        lemma_rows_partition(g, prev);
        let ps = of_type(g, ts.last());
        lemma_complete_or_listed(g, ps);
        let rows0 = coverage_rows(g, prev);
        if ps.len() > 0 {
            let row = (ts.last(), ps.len(), complete_count(g, ps));
            assert(coverage_rows(g, ts) == rows0 + seq![row]);
            assert((rows0 + seq![row]).drop_last() =~= rows0);
            assert(rows_complete(rows0 + seq![row]) == rows_complete(rows0) + row.2);
        } else {
            assert(coverage_rows(g, ts) =~= rows0);
            assert(incomplete_of(g, ps) =~= Seq::<(Seq<char>, Seq<char>, Seq<char>, Seq<char>)>::empty());
        }
    }
}

/// Every item of a graph is either counted complete or listed as
/// incomplete, never both: the incomplete items and the complete count of
/// the coverage report add up to the number of items.
pub proof fn lemma_every_item_complete_or_listed(g: KnowledgeGraph)
    ensures
        incomplete_rows(g, all_types()).len() + rows_complete(coverage_rows(g, all_types())) == g.nodes().len(),
{
    lemma_rows_partition(g, all_types());
    lemma_total_upto_full(g.nodes(), all_types());
    lemma_type_total_all(g.nodes(), g.nodes().len() as int);
}

/// The entry of an incomplete item that is not a solution and has no
/// parent: identifier, name, type name and the missing parent type.
pub open spec fn parentless_entry(item: Item) -> (Seq<char>, Seq<char>, Seq<char>, Seq<char>) {
    (
        item.id@,
        item.name@,
        type_display(item.item_type),
        "Missing parent "@ + match required_parent(item.item_type) {
            Some(p) => type_display(p),
            None => "N/A (root)"@,
        },
    )
}

/// The entry `incomplete_of` gives for the item at `p`.
spec fn entry_at(g: KnowledgeGraph, p: int) -> (Seq<char>, Seq<char>, Seq<char>, Seq<char>) {
    (
        g.nodes()[p].id@,
        g.nodes()[p].name@,
        type_display(g.nodes()[p].item_type),
        incomplete_reason(g, g.nodes()[p]),
    )
}

/// Every type is among the types of the report.
proof fn lemma_all_types_has(t: ItemType)
    ensures
        all_types().contains(t),
{
    let ts = all_types();
    match t {
        ItemType::Solution => assert(ts[0] == t),
        ItemType::UseCase => assert(ts[1] == t),
        ItemType::Scenario => assert(ts[2] == t),
        ItemType::SystemRequirement => assert(ts[3] == t),
        ItemType::SystemArchitecture => assert(ts[4] == t),
        ItemType::HardwareRequirement => assert(ts[5] == t),
        ItemType::SoftwareRequirement => assert(ts[6] == t),
        ItemType::HardwareDetailedDesign => assert(ts[7] == t),
        ItemType::SoftwareDetailedDesign => assert(ts[8] == t),
        ItemType::ArchitectureDecisionRecord => assert(ts[9] == t),
    }
}

/// The positions of type `t` among the first `n` items are exactly the
/// items of that type there.
proof fn lemma_type_positions_members(items: Seq<Item>, t: ItemType, n: int)
    requires
        0 <= n <= items.len(),
    ensures
        forall|k: int|
            0 <= k < type_positions(items, t, n).len() ==> 0 <= #[trigger] type_positions(items, t, n)[k] < n
                && items[type_positions(items, t, n)[k]].item_type == t,
        forall|i: int| 0 <= i < n && items[i].item_type == t ==> type_positions(items, t, n).contains(i),
    decreases n,
{
    if n > 0 {
        lemma_type_positions_members(items, t, n - 1);
        let prev = type_positions(items, t, n - 1);
        let cur = type_positions(items, t, n);
        assert forall|k: int| 0 <= k < cur.len() implies 0 <= #[trigger] cur[k] < n && items[cur[k]].item_type == t by {
            if k < prev.len() {
                assert(cur[k] == prev[k]);
            }
        }
        assert forall|i: int| 0 <= i < n && items[i].item_type == t implies cur.contains(i) by {
            if i < n - 1 {
                assert(prev.contains(i));
                let k = choose|k: int| 0 <= k < prev.len() && prev[k] == i;
                assert(cur[k] == i);
            } else {
                assert(cur[prev.len() as int] == i);
            }
        }
    }
}

/// The entries of `incomplete_of` are those of the incomplete items among
/// the positions.
proof fn lemma_incomplete_of_members(g: KnowledgeGraph, ps: Seq<int>)
    ensures
        forall|k: int|
            0 <= k < incomplete_of(g, ps).len() ==> exists|j: int|
                0 <= j < ps.len() && !is_complete(g, g.nodes()[ps[j]]) && #[trigger] incomplete_of(g, ps)[k]
                    == entry_at(g, ps[j]),
        forall|j: int|
            0 <= j < ps.len() && !is_complete(g, g.nodes()[ps[j]]) ==> incomplete_of(g, ps).contains(
                entry_at(g, ps[j]),
            ),
    decreases ps.len(),
{
    if ps.len() > 0 {
        let prev_ps = ps.drop_last();
        lemma_incomplete_of_members(g, prev_ps);
        let prev = incomplete_of(g, prev_ps);
        let cur = incomplete_of(g, ps);
        assert forall|k: int| 0 <= k < cur.len() implies exists|j: int|
            0 <= j < ps.len() && !is_complete(g, g.nodes()[ps[j]]) && #[trigger] cur[k] == entry_at(g, ps[j]) by {
            if k < prev.len() {
                assert(cur[k] == prev[k]);
                let j = choose|j: int|
                    0 <= j < prev_ps.len() && !is_complete(g, g.nodes()[prev_ps[j]]) && prev[k] == entry_at(
                        g,
                        prev_ps[j],
                    );
                assert(ps[j] == prev_ps[j]);
            } else {
                assert(cur[k] == entry_at(g, ps[ps.len() - 1]));
            }
        }
        assert forall|j: int| 0 <= j < ps.len() && !is_complete(g, g.nodes()[ps[j]]) implies cur.contains(
            entry_at(g, ps[j]),
        ) by {
            if j < prev_ps.len() {
                assert(prev_ps[j] == ps[j]);
                let k = choose|k: int| 0 <= k < prev.len() && prev[k] == entry_at(g, prev_ps[j]);
                assert(cur[k] == prev[k]);
            } else {
                assert(cur[prev.len() as int] == entry_at(g, ps[j]));
            }
        }
    }
}

/// The entries of `incomplete_rows` over the types `ts` are those of the
/// incomplete items of these types.
proof fn lemma_incomplete_rows_members(g: KnowledgeGraph, ts: Seq<ItemType>)
    ensures
        forall|k: int|
            0 <= k < incomplete_rows(g, ts).len() ==> exists|p: int|
                0 <= p < g.nodes().len() && !is_complete(g, g.nodes()[p]) && #[trigger] incomplete_rows(g, ts)[k]
                    == entry_at(g, p),
        forall|p: int|
            0 <= p < g.nodes().len() && ts.contains(g.nodes()[p].item_type) && !is_complete(g, g.nodes()[p])
                ==> incomplete_rows(g, ts).contains(entry_at(g, p)),
    decreases ts.len(),
{
    if ts.len() > 0 {
        let pts = ts.drop_last();
        let t = ts.last();
        lemma_incomplete_rows_members(g, pts);
        let ps = of_type(g, t);
        lemma_type_positions_members(g.nodes(), t, g.nodes().len() as int);
        lemma_incomplete_of_members(g, ps);
        let a = incomplete_rows(g, pts);
        let b = incomplete_of(g, ps);
        let cur = incomplete_rows(g, ts);
        assert(cur == a + b);
        assert forall|k: int| 0 <= k < cur.len() implies exists|p: int|
            0 <= p < g.nodes().len() && !is_complete(g, g.nodes()[p]) && #[trigger] cur[k] == entry_at(g, p) by {
            if k < a.len() {
                assert(cur[k] == a[k]);
            } else {
                assert(cur[k] == b[k - a.len()]);
                let j = choose|j: int|
                    0 <= j < ps.len() && !is_complete(g, g.nodes()[ps[j]]) && b[k - a.len()] == entry_at(g, ps[j]);
                assert(0 <= ps[j] < g.nodes().len());
            }
        }
        assert forall|p: int|
            0 <= p < g.nodes().len() && ts.contains(g.nodes()[p].item_type) && !is_complete(g, g.nodes()[p])
                implies cur.contains(entry_at(g, p)) by {
            if g.nodes()[p].item_type == t {
                assert(ps.contains(p));
                let j = choose|j: int| 0 <= j < ps.len() && ps[j] == p;
                assert(b.contains(entry_at(g, ps[j])));
                let k = choose|k: int| 0 <= k < b.len() && b[k] == entry_at(g, p);
                assert(cur[a.len() + k] == b[k]);
            } else {
                let i = choose|i: int| 0 <= i < ts.len() && ts[i] == g.nodes()[p].item_type;
                assert(pts[i] == ts[i]);
                let k = choose|k: int| 0 <= k < a.len() && a[k] == entry_at(g, p);
                assert(cur[k] == a[k]);
            }
        }
    }
}

/// An item other than a solution is traced exactly when it declares an
/// upstream relationship: without one it is listed among the incomplete
/// items with its missing parent type, whatever downstream or peer
/// relationships it declares; with one (and identifiers unique) it is not
/// listed.
pub proof fn lemma_coverage_lists_parentless(g: KnowledgeGraph, i: int)
    requires
        0 <= i < g.nodes().len(),
        g.nodes()[i].item_type != ItemType::Solution,
    ensures
        without_upstream(g.nodes()[i]) ==> incomplete_rows(g, all_types()).contains(parentless_entry(g.nodes()[i])),
        !without_upstream(g.nodes()[i]) && unique_ids(g.nodes()) ==> forall|k: int|
            0 <= k < incomplete_rows(g, all_types()).len() ==> (#[trigger] incomplete_rows(g, all_types())[k]).0
                != g.nodes()[i].id@,
{
    let item = g.nodes()[i];
    lemma_incomplete_rows_members(g, all_types());
    lemma_all_types_has(item.item_type);
    if without_upstream(item) {
        assert(!has_upstream_rel(item.relationships@));
        assert(entry_at(g, i) == parentless_entry(item));
    } else {
        let j = choose|j: int|
            0 <= j < item.relationships@.len() && direction_of(item.relationships@[j].relationship_type)
                == RelationDirection::Upstream;
        assert(has_upstream_rel(item.relationships@));
        if unique_ids(g.nodes()) {
            assert forall|k: int| 0 <= k < incomplete_rows(g, all_types()).len() implies (
            #[trigger] incomplete_rows(g, all_types())[k]).0 != item.id@ by {
                let p = choose|p: int|
                    0 <= p < g.nodes().len() && !is_complete(g, g.nodes()[p]) && incomplete_rows(g, all_types())[k]
                        == entry_at(g, p);
                if p < i {
                    assert(g.nodes()[p].id@ != g.nodes()[i].id@);
                } else if p > i {
                    assert(g.nodes()[i].id@ != g.nodes()[p].id@);
                }
            }
        }
    }
}

impl CoverageReport {
    /// Generates the coverage report: for each item type with items, in
    /// hierarchy order, how many are complete, and every incomplete item
    /// with the reason.
    pub fn generate(graph: &KnowledgeGraph) -> (r: CoverageReport)
        requires
            graph.wf(),
        ensures
            r.by_type@.map_values(|c: TypeCoverage| coverage_view(c)) == coverage_rows(*graph, all_types()),
            forall|k: int|
                0 <= k < r.by_type@.len() ==> (#[trigger] r.by_type@[k]).type_label@ == type_display(
                    r.by_type@[k].item_type,
                ) && r.by_type@[k].incomplete + r.by_type@[k].complete == r.by_type@[k].total,
            r.incomplete_items@.map_values(|i: IncompleteItem| incomplete_view(i)) == incomplete_rows(
                *graph,
                all_types(),
            ),
            r.total_items == graph.nodes().len(),
            r.complete_items <= r.total_items,
            r.complete_items == rows_complete(coverage_rows(*graph, all_types())),
            r.incomplete_items@.len() + r.complete_items == r.total_items,
    {
        let types = ItemType::all();
        let mut by_type: Vec<TypeCoverage> = Vec::new();
        let mut incomplete_items: Vec<IncompleteItem> = Vec::new();
        let mut total_items: usize = 0;
        let mut complete_items: usize = 0;
        let mut i: usize = 0;
        while i < types.len()
            invariant
                graph.wf(),
                types@ == all_types(),
                i <= types.len(),
                by_type@.map_values(|c: TypeCoverage| coverage_view(c)) == coverage_rows(*graph, types@.take(i as int)),
                forall|k: int|
                    0 <= k < by_type@.len() ==> (#[trigger] by_type@[k]).type_label@ == type_display(
                        by_type@[k].item_type,
                    ) && by_type@[k].incomplete + by_type@[k].complete == by_type@[k].total,
                incomplete_items@.map_values(|i: IncompleteItem| incomplete_view(i)) == incomplete_rows(
                    *graph,
                    types@.take(i as int),
                ),
                complete_items <= total_items,
                total_items == type_total(graph.nodes(), types@.take(i as int)),
                complete_items == rows_complete(coverage_rows(*graph, types@.take(i as int))),
                type_total(graph.nodes(), types@.take(i as int)) <= graph.nodes().len(),
            decreases types.len() - i,
        {
            let t = types[i];
            let items = graph.items_by_type(t);
            let ghost ps = of_type(*graph, t);
            assert(types@.take(i + 1).drop_last() =~= types@.take(i as int));
            let ghost rows_before = by_type@.map_values(|c: TypeCoverage| coverage_view(c));
            let ghost inc_before = incomplete_items@.map_values(|i: IncompleteItem| incomplete_view(i));
            let total = items.len();
            if total == 0 {
                proof {
                    lemma_type_total_prefix(graph.nodes(), i as int + 1);
                }
                assert(coverage_rows(*graph, types@.take(i + 1)) =~= rows_before);
                assert(incomplete_of(*graph, ps) =~= Seq::<(Seq<char>, Seq<char>, Seq<char>, Seq<char>)>::empty());
                assert(incomplete_rows(*graph, types@.take(i + 1)) =~= inc_before);
                i += 1;
                continue;
            }
            let mut type_complete: usize = 0;
            let mut type_incomplete: usize = 0;
            let mut j: usize = 0;
            while j < items.len()
                invariant
                    graph.wf(),
                    j <= items.len(),
                    items@.len() == ps.len(),
                    forall|k: int| 0 <= k < items@.len() ==> *items@[k] == graph.nodes()[ps[k]],
                    type_complete == complete_count(*graph, ps.take(j as int)),
                    type_complete + type_incomplete == j,
                    incomplete_items@.map_values(|i: IncompleteItem| incomplete_view(i)) == inc_before
                        + incomplete_of(*graph, ps.take(j as int)),
                decreases items.len() - j,
            {
                let item = items[j];
                assert(ps.take(j + 1).drop_last() =~= ps.take(j as int));
                assert(ps.take(j + 1).last() == ps[j as int]);
                let ghost prev = incomplete_items@.map_values(|i: IncompleteItem| incomplete_view(i));
                if check_item_complete(item, graph) {
                    type_complete += 1;
                    assert(incomplete_of(*graph, ps.take(j + 1)) =~= incomplete_of(*graph, ps.take(j as int)));
                } else {
                    type_incomplete += 1;
                    let entry = create_incomplete_item(item, graph);
                    incomplete_items.push(entry);
                    assert(incomplete_items@.map_values(|i: IncompleteItem| incomplete_view(i)) =~= prev.push(
                        incomplete_view(entry),
                    ));
                }
                j += 1;
            }
            assert(ps.take(items.len() as int) =~= ps);
            proof {
                lemma_type_total_prefix(graph.nodes(), i as int + 1);
                lemma_complete_count_bound(*graph, ps);
            }
            let cov = TypeCoverage {
                item_type: t,
                type_label: t.display_name().to_owned(),
                total,
                complete: type_complete,
                incomplete: type_incomplete,
            };
            by_type.push(cov);
            assert(by_type@.map_values(|c: TypeCoverage| coverage_view(c)) =~= rows_before.push(coverage_view(cov)));
            assert(incomplete_rows(*graph, types@.take(i + 1)) =~= inc_before + incomplete_of(*graph, ps));
            proof {
                let rows0 = coverage_rows(*graph, types@.take(i as int));
                let row = (t, ps.len(), complete_count(*graph, ps));
                assert(coverage_rows(*graph, types@.take(i + 1)) == rows0 + seq![row]);
                assert((rows0 + seq![row]).drop_last() =~= rows0);
                assert(rows_complete(rows0 + seq![row]) == rows_complete(rows0) + row.2);
            }
            total_items = total_items + total;
            complete_items = complete_items + type_complete;
            i += 1;
        }
        assert(types@.take(types.len() as int) =~= types@);
        proof {
            lemma_type_total_all(graph.nodes(), graph.nodes().len() as int);
            lemma_total_upto_full(graph.nodes(), all_types());
            lemma_every_item_complete_or_listed(*graph);
            assert(incomplete_items@.map_values(|i: IncompleteItem| incomplete_view(i)).len()
                == incomplete_items@.len());
        }
        CoverageReport { by_type, incomplete_items, total_items, complete_items }
    }
}

} // verus!

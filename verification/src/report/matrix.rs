//! Traceability matrix: every item with the items it links to, and its
//! CSV form.
use vstd::prelude::*;

use crate::graph::knowledge_graph::{item_of, known, lemma_find_last, KnowledgeGraph};
use crate::model::item::{all_types, type_display, type_rank};
use crate::model::relationship::{direction_of, relation_id};
use crate::model::{Item, ItemType, RelationDirection, Relationship};
use crate::ordered::{insert_text, lemma_sorted_texts, sorted_by, sorted_texts, text_order};
use crate::text::{lemma_lex_total, chars_eq, chars_to_string, contains_char, extend_chars, replace_char, replace_chars, str_chars, str_views, views};

verus! {

/// A target in the traceability matrix.
pub struct MatrixTarget {
    /// Target item ID.
    pub id: String,
    /// Target item name.
    pub name: String,
    /// Target item type display name.
    pub target_type: String,
    /// Relation id.
    pub relationship: String,
}

/// A row in the traceability matrix.
pub struct MatrixRow {
    /// Source item ID.
    pub source_id: String,
    /// Source item name.
    pub source_name: String,
    /// Source item type display name.
    pub source_type: String,
    /// The items the source links to.
    pub targets: Vec<MatrixTarget>,
}

/// The complete traceability matrix.
pub struct TraceabilityMatrix {
    /// One row per item, in hierarchy order of types, then by ID.
    pub rows: Vec<MatrixRow>,
    /// Column headers: the item type display names.
    pub columns: Vec<String>,
    /// Total number of targets over all rows.
    pub total_relationships: usize,
}

/// A target as texts: id, name, type, relation.
pub type TargetView = (Seq<char>, Seq<char>, Seq<char>, Seq<char>);

/// A row as texts: id, name, type, and its targets.
pub type RowView = (Seq<char>, Seq<char>, Seq<char>, Seq<TargetView>);

/// The texts of a target.
pub open spec fn target_view(t: MatrixTarget) -> TargetView {
    (t.id@, t.name@, t.target_type@, t.relationship@)
}

/// The texts of targets.
pub open spec fn targets_view(ts: Seq<MatrixTarget>) -> Seq<TargetView> {
    ts.map_values(|t: MatrixTarget| target_view(t))
}

/// The texts of a row.
pub open spec fn row_view(r: MatrixRow) -> RowView {
    (r.source_id@, r.source_name@, r.source_type@, targets_view(r.targets@))
}

/// The texts of rows.
pub open spec fn rows_view(rs: Seq<MatrixRow>) -> Seq<RowView> {
    rs.map_values(|r: MatrixRow| row_view(r))
}

/// The targets of the relationships of direction `dir` in `rels` whose
/// target the graph knows, in declaration order.
pub open spec fn linked_targets(g: KnowledgeGraph, rels: Seq<Relationship>, dir: RelationDirection) -> Seq<TargetView>
    decreases rels.len(),
{
    if rels.len() == 0 {
        seq![]
    } else {
        let rel = rels.last();
        linked_targets(g, rels.drop_last(), dir) + if direction_of(rel.relationship_type) == dir && known(g, rel.to@) {
            seq![
                (
                    rel.to@,
                    item_of(g, rel.to@).name@,
                    type_display(item_of(g, rel.to@).item_type),
                    relation_id(rel.relationship_type),
                ),
            ]
        } else {
            seq![]
        }
    }
}

/// The row of an item: its upstream targets, then its downstream ones.
pub open spec fn row_of(g: KnowledgeGraph, item: Item) -> RowView {
    (
        item.id@,
        item.name@,
        type_display(item.item_type),
        linked_targets(g, item.relationships@, RelationDirection::Upstream) + linked_targets(
            g,
            item.relationships@,
            RelationDirection::Downstream,
        ),
    )
}

/// The rows of the items among the first `n` with type rank `r` and
/// identifier `id`, in graph order.
pub open spec fn key_rows(g: KnowledgeGraph, r: nat, id: Seq<char>, n: int) -> Seq<RowView>
    decreases n,
{
    if n <= 0 {
        seq![]
    } else {
        let item = g.nodes()[n - 1];
        key_rows(g, r, id, n - 1) + if type_rank(item.item_type) == r && item.id@ == id {
            seq![row_of(g, item)]
        } else {
            seq![]
        }
    }
}

/// The identifiers of the items among the first `n` with type rank `r`.
pub open spec fn rank_ids(g: KnowledgeGraph, r: nat, n: int) -> Set<Seq<char>> {
    Set::new(
        |id: Seq<char>|
            exists|k: int|
                0 <= k < n && type_rank(g.nodes()[k].item_type) == r && #[trigger] g.nodes()[k].id@ == id,
    )
}

/// The rows of rank `r`, identifier by identifier in the order of `ids`.
pub open spec fn rank_rows(g: KnowledgeGraph, r: nat, ids: Seq<Seq<char>>) -> Seq<RowView>
    decreases ids.len(),
{
    if ids.len() == 0 {
        seq![]
    } else {
        rank_rows(g, r, ids.drop_last()) + key_rows(g, r, ids.last(), g.nodes().len() as int)
    }
}

/// The rows of the ranks below `r`: rank by rank, by increasing
/// identifier, and items with the same type rank and identifier in graph
/// order (a stable sort by rank, then identifier).
pub open spec fn matrix_rows(g: KnowledgeGraph, r: nat) -> Seq<RowView>
    decreases r,
{
    if r == 0 {
        seq![]
    } else {
        let p = (r - 1) as nat;
        matrix_rows(g, p) + rank_rows(g, p, sorted_texts(rank_ids(g, p, g.nodes().len() as int)))
    }
}

/// The number of targets over the first `n` rows.
pub open spec fn rows_total(rows: Seq<RowView>, n: int) -> nat
    decreases n,
{
    if n <= 0 {
        0
    } else {
        rows_total(rows, n - 1) + rows[n - 1].3.len()
    }
}

/// The number of type ranks.
pub open spec fn rank_count() -> nat {
    10
}

/// The number of items among the first `n` with type rank `r`.
pub open spec fn count_rank(g: KnowledgeGraph, r: nat, n: int) -> nat
    decreases n,
{
    if n <= 0 {
        0
    } else {
        count_rank(g, r, n - 1) + if type_rank(g.nodes()[n - 1].item_type) == r {
            1nat
        } else {
            0nat
        }
    }
}

/// The number of items among the first `n` with type rank `r` and an
/// identifier listed in `l`.
pub open spec fn count_listed(g: KnowledgeGraph, r: nat, l: Seq<Seq<char>>, n: int) -> nat
    decreases n,
{
    if n <= 0 {
        0
    } else {
        count_listed(g, r, l, n - 1) + if type_rank(g.nodes()[n - 1].item_type) == r && l.contains(
            g.nodes()[n - 1].id@,
        ) {
            1nat
        } else {
            0nat
        }
    }
}

/// The number of items among the first `n` with a type rank below `rk`.
pub open spec fn count_ranks_below(g: KnowledgeGraph, rk: nat, n: int) -> nat
    decreases rk,
{
    if rk == 0 {
        0
    } else {
        count_ranks_below(g, (rk - 1) as nat, n) + count_rank(g, (rk - 1) as nat, n)
    }
}

/// Splitting the last identifier off the list splits the count.
proof fn lemma_count_listed_split(g: KnowledgeGraph, r: nat, l: Seq<Seq<char>>, n: int)
    requires
        l.len() > 0,
        l.no_duplicates(),
    ensures
        count_listed(g, r, l, n) == count_listed(g, r, l.drop_last(), n) + key_rows(g, r, l.last(), n).len(),
    decreases n,
{
    if n > 0 {
        lemma_count_listed_split(g, r, l, n - 1);
        let id = g.nodes()[n - 1].id@;
        if l.contains(id) && id != l.last() {
            let i = choose|i: int| 0 <= i < l.len() && l[i] == id;
            assert(l.drop_last()[i] == id);
        }
        if l.drop_last().contains(id) {
            let i = choose|i: int| 0 <= i < l.drop_last().len() && l.drop_last()[i] == id;
            assert(l[i] == id);
            if id == l.last() {
                assert(l[l.len() - 1] == id);
            }
        }
        if id == l.last() {
            assert(l.contains(l[l.len() - 1]));
        }
    }
}

/// The rows of a list of distinct identifiers are the listed items.
proof fn lemma_rank_rows_len(g: KnowledgeGraph, r: nat, l: Seq<Seq<char>>)
    requires
        l.no_duplicates(),
    ensures
        rank_rows(g, r, l).len() == count_listed(g, r, l, g.nodes().len() as int),
    decreases l.len(),
{
    if l.len() == 0 {
        lemma_count_listed_empty(g, r, l, g.nodes().len() as int);
    } else {
        assert(l.drop_last().no_duplicates()) by {
            assert forall|i: int, j: int| 0 <= i < l.drop_last().len() && 0 <= j < l.drop_last().len() && i != j
                implies l.drop_last()[i] != l.drop_last()[j] by {
                assert(l.drop_last()[i] == l[i] && l.drop_last()[j] == l[j]);
            }
        }
        lemma_rank_rows_len(g, r, l.drop_last());
        lemma_count_listed_split(g, r, l, g.nodes().len() as int);
    }
}

/// Nothing is listed in an empty list.
proof fn lemma_count_listed_empty(g: KnowledgeGraph, r: nat, l: Seq<Seq<char>>, n: int)
    requires
        l.len() == 0,
    ensures
        count_listed(g, r, l, n) == 0,
    decreases n,
{
    if n > 0 {
        lemma_count_listed_empty(g, r, l, n - 1);
    }
}

/// Listing every identifier of the rank counts every item of the rank.
proof fn lemma_count_listed_all(g: KnowledgeGraph, r: nat, l: Seq<Seq<char>>, n: int)
    requires
        n <= g.nodes().len(),
        l.to_set() == rank_ids(g, r, g.nodes().len() as int),
    ensures
        count_listed(g, r, l, n) == count_rank(g, r, n),
    decreases n,
{
    if n > 0 {
        lemma_count_listed_all(g, r, l, n - 1);
        if type_rank(g.nodes()[n - 1].item_type) == r {
            assert(rank_ids(g, r, g.nodes().len() as int).contains(g.nodes()[n - 1].id@));
            assert(l.to_set().contains(g.nodes()[n - 1].id@));
        }
    }
}

/// One more item adds one to the ranks below `rk` when its rank is below.
proof fn lemma_count_ranks_step(g: KnowledgeGraph, rk: nat, n: int)
    requires
        0 < n,
    ensures
        count_ranks_below(g, rk, n) == count_ranks_below(g, rk, n - 1) + if type_rank(
            g.nodes()[n - 1].item_type,
        ) < rk {
            1nat
        } else {
            0nat
        },
    decreases rk,
{
    if rk > 0 {
        lemma_count_ranks_step(g, (rk - 1) as nat, n);
    }
}

/// Every item has one of the ranks.
proof fn lemma_count_ranks_all(g: KnowledgeGraph, n: int)
    requires
        0 <= n,
    ensures
        count_ranks_below(g, rank_count(), n) == n,
    decreases n,
{
    if n > 0 {
        lemma_count_ranks_all(g, n - 1);
        lemma_count_ranks_step(g, rank_count(), n);
    } else {
        lemma_count_ranks_zero(g, rank_count(), n);
    }
}

/// No item comes before the first.
proof fn lemma_count_ranks_zero(g: KnowledgeGraph, rk: nat, n: int)
    requires
        n <= 0,
    ensures
        count_ranks_below(g, rk, n) == 0,
    decreases rk,
{
    if rk > 0 {
        lemma_count_ranks_zero(g, (rk - 1) as nat, n);
    }
}

/// Strictly sorted texts are distinct.
proof fn lemma_sorted_distinct(l: Seq<Seq<char>>)
    requires
        sorted_by(l, text_order()),
    ensures
        l.no_duplicates(),
{
    assert forall|i: int, j: int| 0 <= i < l.len() && 0 <= j < l.len() && i != j implies l[i] != l[j] by {
        if i < j {
            assert(text_order()(l[i], l[j]));
            lemma_lex_total(l[i], l[j]);
        } else {
            assert(text_order()(l[j], l[i]));
            lemma_lex_total(l[j], l[i]);
        }
    }
}

// ------------------------------------------------------------------ CSV

/// A CSV field: quoted, with quotes doubled, when it holds a comma, a
/// quote or a line feed.
pub open spec fn escape_csv(v: Seq<char>) -> Seq<char> {
    if v.contains(',') || v.contains('"') || v.contains('\n') {
        seq!['"'] + replace_char(v, '"', "\"\""@) + seq!['"']
    } else {
        v
    }
}

/// The CSV header line.
pub open spec fn csv_header() -> Seq<char> {
    "Source ID,Source Name,Source Type,Target ID,Target Name,Target Type,Relationship\n"@
}

/// The source fields of a row, separated by commas.
pub open spec fn csv_source(row: RowView) -> Seq<char> {
    escape_csv(row.0) + ","@ + escape_csv(row.1) + ","@ + escape_csv(row.2)
}

/// The lines of the first `n` targets of a row.
pub open spec fn csv_target_lines(row: RowView, n: int) -> Seq<char>
    decreases n,
{
    if n <= 0 {
        seq![]
    } else {
        let t = row.3[n - 1];
        csv_target_lines(row, n - 1) + csv_source(row) + ","@ + escape_csv(t.0) + ","@ + escape_csv(t.1)
            + ","@ + escape_csv(t.2) + ","@ + escape_csv(t.3) + "\n"@
    }
}

/// The lines of a row: one per target, or one with empty target fields.
pub open spec fn csv_row(row: RowView) -> Seq<char> {
    if row.3.len() == 0 {
        csv_source(row) + ",,,, \n"@
    } else {
        csv_target_lines(row, row.3.len() as int)
    }
}

/// The lines of the first `n` rows.
pub open spec fn csv_rows(rows: Seq<RowView>, n: int) -> Seq<char>
    decreases n,
{
    if n <= 0 {
        seq![]
    } else {
        csv_rows(rows, n - 1) + csv_row(rows[n - 1])
    }
}

/// The CSV text of rows.
pub open spec fn csv_text(rows: Seq<RowView>) -> Seq<char> {
    csv_header() + csv_rows(rows, rows.len() as int)
}

// --------------------------------------------------------------- building

/// The rank of a type in hierarchy order.
fn rank(t: ItemType) -> (r: u8)
    ensures
        r == type_rank(t),
{
    match t {
        ItemType::Solution => 0,
        ItemType::UseCase => 1,
        ItemType::Scenario => 2,
        ItemType::SystemRequirement => 3,
        ItemType::SystemArchitecture => 4,
        ItemType::HardwareRequirement => 5,
        ItemType::SoftwareRequirement => 6,
        ItemType::HardwareDetailedDesign => 7,
        ItemType::SoftwareDetailedDesign => 8,
        ItemType::ArchitectureDecisionRecord => 9,
    }
}

/// Appends the targets of the relationships of direction `dir`.
fn collect_targets(graph: &KnowledgeGraph, rels: &Vec<Relationship>, dir: RelationDirection, targets: &mut Vec<MatrixTarget>)
    ensures
        targets_view(final(targets)@) == targets_view(old(targets)@) + linked_targets(*graph, rels@, dir),
{
    let ghost g = *graph;
    let ghost start = targets_view(targets@);
    let mut i: usize = 0;
    while i < rels.len()
        invariant
            g == *graph,
            i <= rels.len(),
            targets_view(targets@) == start + linked_targets(g, rels@.take(i as int), dir),
        decreases rels.len() - i,
    {
        let rel = &rels[i];
        assert(rels@.take(i + 1).drop_last() =~= rels@.take(i as int));
        assert(rels@.take(i + 1).last() == rels@[i as int]);
        let ghost before = targets_view(targets@);
        proof {
            lemma_find_last(g.nodes(), rel.to@);
        }
        if rel.relationship_type.direction() == dir {
            match graph.get(&rel.to) {
                Some(target) => {
                    let t = MatrixTarget {
                        id: rel.to.as_str().to_owned(),
                        name: target.name.clone(),
                        target_type: target.item_type.display_name().to_owned(),
                        relationship: rel.relationship_type.as_str().to_owned(),
                    };
                    targets.push(t);
                    assert(targets_view(targets@) =~= before.push(target_view(t)));
                },
                None => {},
            }
        }
        assert(targets_view(targets@) =~= start + linked_targets(g, rels@.take(i + 1), dir));
        i += 1;
    }
    assert(rels@.take(rels.len() as int) =~= rels@);
}

/// Builds the row of an item.
fn build_row(graph: &KnowledgeGraph, item: &Item) -> (r: MatrixRow)
    ensures
        row_view(r) == row_of(*graph, *item),
{
    let mut targets: Vec<MatrixTarget> = Vec::new();
    collect_targets(graph, &item.relationships, RelationDirection::Upstream, &mut targets);
    collect_targets(graph, &item.relationships, RelationDirection::Downstream, &mut targets);
    MatrixRow {
        source_id: item.id.as_str().to_owned(),
        source_name: item.name.clone(),
        source_type: item.item_type.display_name().to_owned(),
        targets,
    }
}

/// The target that a relationship to a known item shows in the matrix:
/// the target's identifier, name and type name, and the relation.
pub open spec fn link_target(g: KnowledgeGraph, rel: Relationship) -> TargetView {
    (rel.to@, item_of(g, rel.to@).name@, type_display(item_of(g, rel.to@).item_type), relation_id(rel.relationship_type))
}

/// True if `t` is the target of a relationship of direction `dir` in
/// `rels` whose target the graph knows.
pub open spec fn from_link(g: KnowledgeGraph, rels: Seq<Relationship>, dir: RelationDirection, t: TargetView) -> bool {
    exists|j: int|
        0 <= j < rels.len() && direction_of(#[trigger] rels[j].relationship_type) == dir && known(g, rels[j].to@) && t
            == link_target(g, rels[j])
}

/// True if `ts` lists the links of `item`: every upstream or downstream
/// relationship of the item to a known item gives a target, and the
/// targets are those of upstream relationships, then those of downstream
/// ones; peer relationships and unknown targets give none.
pub open spec fn links_listed(g: KnowledgeGraph, item: Item, ts: Seq<TargetView>) -> bool {
    let rels = item.relationships@;
    &&& forall|j: int|
        0 <= j < rels.len() && direction_of(#[trigger] rels[j].relationship_type) != RelationDirection::Peer && known(
            g,
            rels[j].to@,
        ) ==> ts.contains(link_target(g, rels[j]))
    &&& exists|m: int| 0 <= m <= ts.len() && #[trigger] split_links(g, rels, ts, m)
}

/// True if the first `m` targets come from upstream relationships to known
/// items and the rest from downstream ones.
pub open spec fn split_links(g: KnowledgeGraph, rels: Seq<Relationship>, ts: Seq<TargetView>, m: int) -> bool {
    forall|a: int|
        0 <= a < ts.len() ==> if a < m {
            from_link(g, rels, RelationDirection::Upstream, #[trigger] ts[a])
        } else {
            from_link(g, rels, RelationDirection::Downstream, ts[a])
        }
}

/// True if a matrix row is that of `item`: its identifier, name and type
/// name, with its links listed.
pub open spec fn row_for(g: KnowledgeGraph, item: Item, row: RowView) -> bool {
    &&& row.0 == item.id@
    &&& row.1 == item.name@
    &&& row.2 == type_display(item.item_type)
    &&& links_listed(g, item, row.3)
}

/// Each target of `linked_targets` comes from a relationship of that
/// direction to a known item.
proof fn lemma_linked_source(g: KnowledgeGraph, rels: Seq<Relationship>, dir: RelationDirection, a: int) -> (j: int)
    requires
        0 <= a < linked_targets(g, rels, dir).len(),
    ensures
        0 <= j < rels.len(),
        direction_of(rels[j].relationship_type) == dir,
        known(g, rels[j].to@),
        linked_targets(g, rels, dir)[a] == link_target(g, rels[j]),
    decreases rels.len(),
{
    let prev = linked_targets(g, rels.drop_last(), dir);
    if a < prev.len() {
        let j = lemma_linked_source(g, rels.drop_last(), dir, a);
        assert(rels[j] == rels.drop_last()[j]);
        j
    } else {
        rels.len() - 1
    }
}

/// Every relationship of that direction to a known item gives a target of
/// `linked_targets`.
proof fn lemma_linked_listed(g: KnowledgeGraph, rels: Seq<Relationship>, dir: RelationDirection, j: int)
    requires
        0 <= j < rels.len(),
        direction_of(rels[j].relationship_type) == dir,
        known(g, rels[j].to@),
    ensures
        linked_targets(g, rels, dir).contains(link_target(g, rels[j])),
    decreases rels.len(),
{
    let prev = linked_targets(g, rels.drop_last(), dir);
    let cur = linked_targets(g, rels, dir);
    if j < rels.len() - 1 {
        assert(rels.drop_last()[j] == rels[j]);
        lemma_linked_listed(g, rels.drop_last(), dir, j);
        let k = choose|k: int| 0 <= k < prev.len() && prev[k] == link_target(g, rels[j]);
        assert(cur[k] == prev[k]);
    } else {
        assert(cur[prev.len() as int] == link_target(g, rels[j]));
    }
}

/// The row built for an item lists its links: every upstream or downstream
/// relationship to a known item gives a target, upstream ones first, and
/// nothing else does.
pub proof fn lemma_row_lists_links(g: KnowledgeGraph, item: Item)
    ensures
        row_for(g, item, row_of(g, item)),
{
    let rels = item.relationships@;
    let up = linked_targets(g, rels, RelationDirection::Upstream);
    let down = linked_targets(g, rels, RelationDirection::Downstream);
    let ts = row_of(g, item).3;
    assert(ts == up + down);
    assert forall|j: int|
        0 <= j < rels.len() && direction_of(#[trigger] rels[j].relationship_type) != RelationDirection::Peer && known(
            g,
            rels[j].to@,
        ) implies ts.contains(link_target(g, rels[j])) by {
        let dir = direction_of(rels[j].relationship_type);
        lemma_linked_listed(g, rels, dir, j);
        crate::graph::diff::lemma_add_contains(up, down, link_target(g, rels[j]));
    }
    assert forall|a: int| 0 <= a < ts.len() implies if a < up.len() {
        from_link(g, rels, RelationDirection::Upstream, #[trigger] ts[a])
    } else {
        from_link(g, rels, RelationDirection::Downstream, ts[a])
    } by {
        if a < up.len() {
            let j = lemma_linked_source(g, rels, RelationDirection::Upstream, a);
            assert(ts[a] == up[a]);
        } else {
            let j = lemma_linked_source(g, rels, RelationDirection::Downstream, a - up.len());
            assert(ts[a] == down[a - up.len()]);
        }
    }
    assert(split_links(g, rels, ts, up.len() as int));
}

/// The rows of an identifier and rank hold the row of each such item.
proof fn lemma_key_rows_has(g: KnowledgeGraph, r: nat, id: Seq<char>, n: int, i: int)
    requires
        0 <= i < n <= g.nodes().len(),
        type_rank(g.nodes()[i].item_type) == r,
        g.nodes()[i].id@ == id,
    ensures
        key_rows(g, r, id, n).contains(row_of(g, g.nodes()[i])),
    decreases n,
{
    let prev = key_rows(g, r, id, n - 1);
    let cur = key_rows(g, r, id, n);
    if i < n - 1 {
        lemma_key_rows_has(g, r, id, n - 1, i);
        let k = choose|k: int| 0 <= k < prev.len() && prev[k] == row_of(g, g.nodes()[i]);
        assert(cur[k] == prev[k]);
    } else {
        assert(cur[prev.len() as int] == row_of(g, g.nodes()[i]));
    }
}

/// The rows of a list of identifiers hold the row of each item of the
/// rank whose identifier is listed.
proof fn lemma_rank_rows_has(g: KnowledgeGraph, r: nat, ids: Seq<Seq<char>>, m: int, i: int)
    requires
        0 <= m < ids.len(),
        0 <= i < g.nodes().len(),
        type_rank(g.nodes()[i].item_type) == r,
        g.nodes()[i].id@ == ids[m],
    ensures
        rank_rows(g, r, ids).contains(row_of(g, g.nodes()[i])),
    decreases ids.len(),
{
    let prev = rank_rows(g, r, ids.drop_last());
    let last = key_rows(g, r, ids.last(), g.nodes().len() as int);
    let v = row_of(g, g.nodes()[i]);
    if m < ids.len() - 1 {
        assert(ids.drop_last()[m] == ids[m]);
        lemma_rank_rows_has(g, r, ids.drop_last(), m, i);
    } else {
        lemma_key_rows_has(g, r, ids.last(), g.nodes().len() as int, i);
    }
    crate::graph::diff::lemma_add_contains(prev, last, v);
}

/// The rows of the ranks below `rk` hold the row of every item of those
/// ranks.
proof fn lemma_matrix_rows_has(g: KnowledgeGraph, rk: nat, i: int)
    requires
        0 <= i < g.nodes().len(),
        type_rank(g.nodes()[i].item_type) < rk,
        forall|r: nat|
            r < rk ==> (#[trigger] sorted_texts(rank_ids(g, r, g.nodes().len() as int))).to_set() == rank_ids(
                g,
                r,
                g.nodes().len() as int,
            ),
    ensures
        matrix_rows(g, rk).contains(row_of(g, g.nodes()[i])),
    decreases rk,
{
    let p = (rk - 1) as nat;
    let ids = sorted_texts(rank_ids(g, p, g.nodes().len() as int));
    let prev = matrix_rows(g, p);
    let last = rank_rows(g, p, ids);
    let v = row_of(g, g.nodes()[i]);
    if type_rank(g.nodes()[i].item_type) < p {
        lemma_matrix_rows_has(g, p, i);
    } else {
        let id = g.nodes()[i].id@;
        assert(rank_ids(g, p, g.nodes().len() as int).contains(id));
        assert(ids.to_set().contains(id));
        let m = choose|m: int| 0 <= m < ids.len() && ids[m] == id;
        lemma_rank_rows_has(g, p, ids, m, i);
    }
    crate::graph::diff::lemma_add_contains(prev, last, v);
}

/// The full matrix has, for every item, a row with its identifier, name
/// and type name that lists its links.
proof fn lemma_matrix_lists_every_item(g: KnowledgeGraph, rows: Seq<RowView>)
    requires
        rows == matrix_rows(g, rank_count()),
        forall|r: nat|
            r < rank_count() ==> (#[trigger] sorted_texts(rank_ids(g, r, g.nodes().len() as int))).to_set()
                == rank_ids(g, r, g.nodes().len() as int),
    ensures
        forall|i: int|
            #![trigger g.nodes()[i]]
            0 <= i < g.nodes().len() ==> exists|k: int| 0 <= k < rows.len() && row_for(g, g.nodes()[i], #[trigger] rows[k]),
{
    assert forall|i: int| #![trigger g.nodes()[i]] 0 <= i < g.nodes().len() implies exists|k: int|
        0 <= k < rows.len() && row_for(g, g.nodes()[i], #[trigger] rows[k]) by {
        lemma_matrix_rows_has(g, rank_count(), i);
        lemma_row_lists_links(g, g.nodes()[i]);
        let k = choose|k: int| 0 <= k < rows.len() && rows[k] == row_of(g, g.nodes()[i]);
        assert(row_for(g, g.nodes()[i], rows[k]));
    }
}

/// The rank's identifiers grow by one item at a time.
proof fn lemma_rank_ids_step(g: KnowledgeGraph, r: nat, k: int)
    requires
        0 <= k < g.nodes().len(),
    ensures
        rank_ids(g, r, k + 1) == if type_rank(g.nodes()[k].item_type) == r {
            rank_ids(g, r, k).insert(g.nodes()[k].id@)
        } else {
            rank_ids(g, r, k)
        },
{
    let a = rank_ids(g, r, k);
    let b = rank_ids(g, r, k + 1);
    let x = g.nodes()[k].id@;
    assert forall|id: Seq<char>| b.contains(id) <==> (if type_rank(g.nodes()[k].item_type) == r {
        a.insert(x)
    } else {
        a
    }).contains(id) by {
        if b.contains(id) {
            let j = choose|j: int|
                0 <= j < k + 1 && type_rank(g.nodes()[j].item_type) == r && #[trigger] g.nodes()[j].id@ == id;
            if j < k {
                assert(a.contains(id));
            }
        }
        if a.contains(id) {
            let j = choose|j: int|
                0 <= j < k && type_rank(g.nodes()[j].item_type) == r && #[trigger] g.nodes()[j].id@ == id;
            assert(b.contains(id));
        }
        if id == x && type_rank(g.nodes()[k].item_type) == r {
            assert(b.contains(id));
        }
    }
    if type_rank(g.nodes()[k].item_type) == r {
        assert(b =~= a.insert(x));
    } else {
        assert(b =~= a);
    }
}

/// The sorted identifiers of the items of rank `r`.
fn rank_id_list(graph: &KnowledgeGraph, r: u8) -> (ids: Vec<Vec<char>>)
    ensures
        views(ids@) == sorted_texts(rank_ids(*graph, r as nat, graph.nodes().len() as int)),
        sorted_by(views(ids@), text_order()),
        views(ids@).to_set() == rank_ids(*graph, r as nat, graph.nodes().len() as int),
{
    let ghost g = *graph;
    let items = graph.items();
    let mut ids: Vec<Vec<char>> = Vec::new();
    let mut k: usize = 0;
    assert(rank_ids(g, r as nat, 0) =~= Set::<Seq<char>>::empty());
    assert(views(ids@).to_set() =~= Set::<Seq<char>>::empty());
    while k < items.len()
        invariant
            g == *graph,
            items@ == g.nodes(),
            k <= items.len(),
            sorted_by(views(ids@), text_order()),
            views(ids@).to_set() == rank_ids(g, r as nat, k as int),
        decreases items.len() - k,
    {
        proof {
            lemma_rank_ids_step(g, r as nat, k as int);
        }
        if rank(items[k].item_type) == r {
            insert_text(&mut ids, &str_chars(items[k].id.as_str()));
        }
        k += 1;
    }
    proof {
        lemma_sorted_texts(views(ids@));
    }
    ids
}

impl TraceabilityMatrix {
    /// Generates the matrix of a knowledge graph: a row per item, with the
    /// known targets of its upstream then downstream relationships, sorted
    /// by type in hierarchy order, then by ID (items with the same type and
    /// ID keep graph order); the type display names as columns; and the
    /// number of targets over all rows, saturating at `usize::MAX`.
    #[verifier::spinoff_prover]
    pub fn generate(graph: &KnowledgeGraph) -> (r: TraceabilityMatrix)
        ensures
            rows_view(r.rows@) == matrix_rows(*graph, rank_count()),
            r.rows@.len() == graph.nodes().len(),
            r.total_relationships == if rows_total(rows_view(r.rows@), r.rows@.len() as int) <= usize::MAX {
                rows_total(rows_view(r.rows@), r.rows@.len() as int)
            } else {
                usize::MAX as nat
            },
            str_views(r.columns@) == all_types().map_values(|t: ItemType| type_display(t)),
            forall|i: int|
                #![trigger graph.nodes()[i]]
                0 <= i < graph.nodes().len() ==> exists|k: int|
                    0 <= k < r.rows@.len() && row_for(*graph, graph.nodes()[i], #[trigger] rows_view(r.rows@)[k]),
    {
        let ghost g = *graph;
        let items = graph.items();
        let mut rows: Vec<MatrixRow> = Vec::new();
        let mut total: usize = 0;
        let mut rk: u8 = 0;
        while rk < 10
            invariant
                g == *graph,
                items@ == g.nodes(),
                rk <= 10,
                rows_view(rows@) == matrix_rows(g, rk as nat),
                rows@.len() == count_ranks_below(g, rk as nat, g.nodes().len() as int),
                total == if rows_total(rows_view(rows@), rows@.len() as int) <= usize::MAX {
                    rows_total(rows_view(rows@), rows@.len() as int)
                } else {
                    usize::MAX as nat
                },
                forall|r: nat|
                    r < rk ==> (#[trigger] sorted_texts(rank_ids(g, r, g.nodes().len() as int))).to_set()
                        == rank_ids(g, r, g.nodes().len() as int),
            decreases 10 - rk,
        {
            let ids = rank_id_list(graph, rk);
            let ghost idsv = views(ids@);
            let ghost base = matrix_rows(g, rk as nat);
            let mut j: usize = 0;
            while j < ids.len()
                invariant
                    g == *graph,
                    items@ == g.nodes(),
                    rk < 10,
                    idsv == views(ids@),
                    j <= ids.len(),
                    rows_view(rows@) == base + rank_rows(g, rk as nat, idsv.take(j as int)),
                    base.len() == count_ranks_below(g, rk as nat, g.nodes().len() as int),
                    total == if rows_total(rows_view(rows@), rows@.len() as int) <= usize::MAX {
                        rows_total(rows_view(rows@), rows@.len() as int)
                    } else {
                        usize::MAX as nat
                    },
                decreases ids.len() - j,
            {
                let ghost mid = rows_view(rows@);
                let mut k: usize = 0;
                while k < items.len()
                    invariant
                        g == *graph,
                        items@ == g.nodes(),
                        idsv == views(ids@),
                        j < ids.len(),
                        k <= items.len(),
                        rows_view(rows@) == mid + key_rows(g, rk as nat, idsv[j as int], k as int),
                        total == if rows_total(rows_view(rows@), rows@.len() as int) <= usize::MAX {
                            rows_total(rows_view(rows@), rows@.len() as int)
                        } else {
                            usize::MAX as nat
                        },
                    decreases items.len() - k,
                {
                    let ghost before = rows_view(rows@);
                    let id_chars = str_chars(items[k].id.as_str());
                    if rank(items[k].item_type) == rk && chars_eq(&id_chars, &ids[j]) {
                        let row = build_row(graph, &items[k]);
                        let n = row.targets.len();
                        rows.push(row);
                        let ghost after = rows_view(rows@);
                        assert(after =~= before.push(row_view(row)));
                        assert(after.take(after.len() - 1) =~= before);
                        assert forall|m: int| 0 <= m <= before.len() implies rows_total(after, m) == rows_total(before, m) by {
                            lemma_rows_total_prefix(after, before, m);
                        }
                        total = total.saturating_add(n);
                    }
                    k += 1;
                }
                assert(idsv.take(j + 1).drop_last() =~= idsv.take(j as int));
                assert(idsv.take(j + 1).last() == idsv[j as int]);
                assert(rows_view(rows@) =~= base + rank_rows(g, rk as nat, idsv.take(j + 1)));
                j += 1;
            }
            assert(idsv.take(ids.len() as int) =~= idsv);
            proof {
                lemma_sorted_distinct(idsv);
                lemma_rank_rows_len(g, rk as nat, idsv);
                lemma_count_listed_all(g, rk as nat, idsv, g.nodes().len() as int);
            }
            assert(rows@.len() == rows_view(rows@).len());
            rk += 1;
        }
        let types = ItemType::all();
        let mut columns: Vec<String> = Vec::new();
        let mut c: usize = 0;
        while c < types.len()
            invariant
                types@ == all_types(),
                c <= types.len(),
                str_views(columns@) == all_types().take(c as int).map_values(|t: ItemType| type_display(t)),
            decreases types.len() - c,
        {
            let ghost before = str_views(columns@);
            columns.push(types[c].display_name().to_owned());
            assert(str_views(columns@) =~= before.push(type_display(types@[c as int])));
            assert(all_types().take(c + 1).map_values(|t: ItemType| type_display(t)) =~= all_types().take(
                c as int,
            ).map_values(|t: ItemType| type_display(t)).push(type_display(types@[c as int])));
            c += 1;
        }
        assert(all_types().take(10) =~= all_types());
        proof {
            lemma_count_ranks_all(g, g.nodes().len() as int);
            lemma_matrix_lists_every_item(g, rows_view(rows@));
            assert(rows_view(rows@).len() == rows@.len());
        }
        TraceabilityMatrix { rows, columns, total_relationships: total }
    }

    /// The matrix as CSV: a header line, then per row one line per target
    /// with the source and target fields, or one line with empty target
    /// fields when the row has none. Fields with a comma, a quote or a
    /// line feed are quoted, with quotes doubled.
    pub fn to_csv(&self) -> (r: String)
        ensures
            r@ == csv_text(rows_view(self.rows@)),
    {
        let ghost rv = rows_view(self.rows@);
        let mut out = str_chars("Source ID,Source Name,Source Type,Target ID,Target Name,Target Type,Relationship\n");
        let mut i: usize = 0;
        while i < self.rows.len()
            invariant
                rv == rows_view(self.rows@),
                i <= self.rows.len(),
                out@ == csv_header() + csv_rows(rv, i as int),
            decreases self.rows.len() - i,
        {
            let row = &self.rows[i];
            let ghost rw = rv[i as int];
            assert(rw == row_view(*row));
            let mut source = escape_csv_chars(row.source_id.as_str());
            extend_chars(&mut source, &str_chars(","));
            extend_chars(&mut source, &escape_csv_chars(row.source_name.as_str()));
            extend_chars(&mut source, &str_chars(","));
            extend_chars(&mut source, &escape_csv_chars(row.source_type.as_str()));
            assert(source@ == csv_source(rw));
            let ghost prefix = out@;
            if row.targets.len() == 0 {
                extend_chars(&mut out, &source);
                extend_chars(&mut out, &str_chars(",,,, \n"));
                assert(out@ =~= prefix + csv_row(rw));
            } else {
                let mut t: usize = 0;
                while t < row.targets.len()
                    invariant
                        rw == row_view(*row),
                        source@ == csv_source(rw),
                        t <= row.targets.len(),
                        out@ == prefix + csv_target_lines(rw, t as int),
                    decreases row.targets.len() - t,
                {
                    let target = &row.targets[t];
                    assert(rw.3[t as int] == target_view(*target));
                    extend_chars(&mut out, &source);
                    extend_chars(&mut out, &str_chars(","));
                    extend_chars(&mut out, &escape_csv_chars(target.id.as_str()));
                    extend_chars(&mut out, &str_chars(","));
                    extend_chars(&mut out, &escape_csv_chars(target.name.as_str()));
                    extend_chars(&mut out, &str_chars(","));
                    extend_chars(&mut out, &escape_csv_chars(target.target_type.as_str()));
                    extend_chars(&mut out, &str_chars(","));
                    extend_chars(&mut out, &escape_csv_chars(target.relationship.as_str()));
                    extend_chars(&mut out, &str_chars("\n"));
                    assert(out@ =~= prefix + csv_target_lines(rw, t + 1));
                    t += 1;
                }
                assert(out@ =~= prefix + csv_row(rw));
            }
            assert(out@ =~= csv_header() + csv_rows(rv, i + 1));
            i += 1;
        }
        chars_to_string(&out)
    }
}

/// A row appended leaves the totals of the earlier rows unchanged.
proof fn lemma_rows_total_prefix(after: Seq<RowView>, before: Seq<RowView>, m: int)
    requires
        0 <= m <= before.len(),
        before.len() < after.len(),
        forall|i: int| 0 <= i < before.len() ==> after[i] == before[i],
    ensures
        rows_total(after, m) == rows_total(before, m),
    decreases m,
{
    if m > 0 {
        lemma_rows_total_prefix(after, before, m - 1);
    }
}

/// A CSV field.
fn escape_csv_chars(value: &str) -> (r: Vec<char>)
    ensures
        r@ == escape_csv(value@),
{
    let v = str_chars(value);
    if contains_char(&v, ',') || contains_char(&v, '"') || contains_char(&v, '\n') {
        let mut r: Vec<char> = Vec::new();
        r.push('"');
        extend_chars(&mut r, &replace_chars(&v, '"', &str_chars("\"\"")));
        r.push('"');
        r
    } else {
        v
    }
}

} // verus!

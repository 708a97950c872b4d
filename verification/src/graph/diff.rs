//! Comparing two knowledge graphs: added, removed and modified items and
//! relationships.
use vstd::prelude::*;

use super::builder::{items_edges, resolve_edges, IdEdge};
use super::knowledge_graph::{find_last, id_positions, is_last_of_id, lemma_find_last, KnowledgeGraph};
use crate::model::item::{entry_text, targets_of, type_display};
use crate::model::relationship::relation_debug;
use crate::model::{Item, ItemId, RelationshipType};
use crate::text::{join, opt_view};

verus! {

/// Representation of an item in a diff.
#[derive(Debug, Clone)]
pub struct ItemDiff {
    pub id: String,
    pub name: String,
    pub item_type: String,
    pub file_path: String,
}

/// A change to a specific field.
#[derive(Debug, Clone)]
pub struct FieldChange {
    pub field: String,
    pub old_value: String,
    pub new_value: String,
}

/// A modification to an item.
#[derive(Debug, Clone)]
pub struct ItemModification {
    pub id: String,
    pub name: String,
    pub item_type: String,
    pub changes: Vec<FieldChange>,
}

/// A relationship in a diff.
#[derive(Debug, Clone)]
pub struct RelationshipDiff {
    pub from_id: String,
    pub to_id: String,
    pub relationship_type: String,
}

/// Summary statistics for a diff.
#[derive(Debug, Clone, Default)]
pub struct DiffStats {
    pub items_added: usize,
    pub items_removed: usize,
    pub items_modified: usize,
    pub relationships_added: usize,
    pub relationships_removed: usize,
}

/// A diff between two knowledge graphs.
#[derive(Debug, Clone)]
pub struct GraphDiff {
    /// Items added (present in new, not in old).
    pub added_items: Vec<ItemDiff>,
    /// Items removed (present in old, not in new).
    pub removed_items: Vec<ItemDiff>,
    /// Items modified (present in both, but changed).
    pub modified_items: Vec<ItemModification>,
    /// Relationships added.
    pub added_relationships: Vec<RelationshipDiff>,
    /// Relationships removed.
    pub removed_relationships: Vec<RelationshipDiff>,
    /// Summary statistics.
    pub stats: DiffStats,
}

/// An item in a diff: identifier, name, type name and file path.
pub type ItemDiffView = (Seq<char>, Seq<char>, Seq<char>, Seq<char>);

/// A field change: field name, old value, new value.
pub type ChangeView = (Seq<char>, Seq<char>, Seq<char>);

/// How an item shows in a diff.
pub open spec fn item_diff_of(item: Item) -> ItemDiffView {
    (item.id@, item.name@, type_display(item.item_type), item.source.file_path@)
}

/// The view of an item diff.
pub open spec fn item_diff_view(d: ItemDiff) -> ItemDiffView {
    (d.id@, d.name@, d.item_type@, d.file_path@)
}

/// The view of a field change.
pub open spec fn change_view(c: FieldChange) -> ChangeView {
    (c.field@, c.old_value@, c.new_value@)
}

/// The views of field changes.
pub open spec fn change_views(v: Seq<FieldChange>) -> Seq<ChangeView> {
    v.map_values(|c: FieldChange| change_view(c))
}

/// The text of an optional value, empty when absent.
pub open spec fn text_or_empty(o: Option<Seq<char>>) -> Seq<char> {
    match o {
        Some(s) => s,
        None => seq![],
    }
}

/// The specification text of an item, if any.
pub open spec fn specification_of(item: Item) -> Option<Seq<char>> {
    match entry_text(item.attributes.entries(), "specification"@) {
        Some(s) => Some(s@),
        None => None,
    }
}

/// The upstream references of an item, grouped by relation (refines,
/// derives from, satisfies, justifies) and joined with ", ".
pub open spec fn upstream_text(item: Item) -> Seq<char> {
    join(
        targets_of(item.relationships@, RelationshipType::Refines) + targets_of(
            item.relationships@,
            RelationshipType::DerivesFrom,
        ) + targets_of(item.relationships@, RelationshipType::Satisfies) + targets_of(
            item.relationships@,
            RelationshipType::Justifies,
        ),
        ", "@,
    )
}

/// The downstream references of an item, grouped by relation (is refined
/// by, derives, is satisfied by, is justified by) and joined with ", ".
pub open spec fn downstream_text(item: Item) -> Seq<char> {
    join(
        targets_of(item.relationships@, RelationshipType::IsRefinedBy) + targets_of(
            item.relationships@,
            RelationshipType::Derives,
        ) + targets_of(item.relationships@, RelationshipType::IsSatisfiedBy) + targets_of(
            item.relationships@,
            RelationshipType::IsJustifiedBy,
        ),
        ", "@,
    )
}

/// The change of one field, when its two values differ.
pub open spec fn change_if(field: Seq<char>, differ: bool, old: Seq<char>, new: Seq<char>) -> Seq<ChangeView> {
    if differ {
        seq![(field, old, new)]
    } else {
        seq![]
    }
}

/// The fields that differ between two versions of an item: name,
/// description, specification, file path, upstream and downstream
/// references, in that order.
pub open spec fn field_changes(old: Item, new: Item) -> Seq<ChangeView> {
    change_if("name"@, old.name@ != new.name@, old.name@, new.name@) + change_if(
        "description"@,
        opt_view(old.description) != opt_view(new.description),
        text_or_empty(opt_view(old.description)),
        text_or_empty(opt_view(new.description)),
    ) + change_if(
        "specification"@,
        specification_of(old) != specification_of(new),
        text_or_empty(specification_of(old)),
        text_or_empty(specification_of(new)),
    ) + change_if(
        "file_path"@,
        old.source.file_path@ != new.source.file_path@,
        old.source.file_path@,
        new.source.file_path@,
    ) + change_if("upstream"@, upstream_text(old) != upstream_text(new), upstream_text(old), upstream_text(new))
        + change_if(
        "downstream"@,
        downstream_text(old) != downstream_text(new),
        downstream_text(old),
        downstream_text(new),
    )
}

/// The positions (among `ps`) of the items whose identifier names no item
/// of `other`.
pub open spec fn missing_from(items: Seq<Item>, ps: Seq<int>, other: Seq<Item>) -> Seq<int>
    decreases ps.len(),
{
    if ps.len() == 0 {
        seq![]
    } else {
        missing_from(items, ps.drop_last(), other) + if find_last(other, items[ps.last()].id@) is None {
            seq![ps.last()]
        } else {
            seq![]
        }
    }
}

/// The modified items: for each distinct identifier of `old` (in `ps`)
/// also in `new` with some changed field, its identifier, its new name and
/// type, and the changes.
pub open spec fn modifications(old: Seq<Item>, ps: Seq<int>, new: Seq<Item>) -> Seq<(Seq<char>, Seq<char>, Seq<char>, Seq<ChangeView>)>
    decreases ps.len(),
{
    if ps.len() == 0 {
        seq![]
    } else {
        modifications(old, ps.drop_last(), new) + match find_last(new, old[ps.last()].id@) {
            Some(q) => if field_changes(old[ps.last()], new[q]).len() > 0 {
                seq![
                    (
                        old[ps.last()].id@,
                        new[q].name@,
                        type_display(new[q].item_type),
                        field_changes(old[ps.last()], new[q]),
                    ),
                ]
            } else {
                seq![]
            },
            None => seq![],
        }
    }
}

/// The relationships of a graph as identifier triples.
pub open spec fn relationship_triples(g: KnowledgeGraph) -> Seq<IdEdge> {
    g.edges().map_values(
        |e: (usize, usize, RelationshipType)| (g.nodes()[e.0 as int].id@, g.nodes()[e.1 as int].id@, e.2),
    )
}

/// The distinct triples of `s` (first occurrences) that are not in `other`.
pub open spec fn new_triples(s: Seq<IdEdge>, other: Seq<IdEdge>) -> Seq<IdEdge>
    decreases s.len(),
{
    if s.len() == 0 {
        seq![]
    } else {
        new_triples(s.drop_last(), other) + if !other.contains(s.last()) && !s.drop_last().contains(
            s.last(),
        ) {
            seq![s.last()]
        } else {
            seq![]
        }
    }
}

/// The view of a relationship diff.
pub open spec fn relationship_diff_view(d: RelationshipDiff) -> (Seq<char>, Seq<char>, Seq<char>) {
    (d.from_id@, d.to_id@, d.relationship_type@)
}

/// How a relationship triple shows in a diff.
pub open spec fn triple_diff(t: IdEdge) -> (Seq<char>, Seq<char>, Seq<char>) {
    (t.0, t.1, relation_debug(t.2))
}

/// The view of a modification.
pub open spec fn modification_view(m: ItemModification) -> (Seq<char>, Seq<char>, Seq<char>, Seq<ChangeView>) {
    (m.id@, m.name@, m.item_type@, change_views(m.changes@))
}

/// What `GraphDiff::compute` gives for two graphs: the items and
/// relationships added and removed, and the items modified.
pub open spec fn diff_of(d: GraphDiff, old_graph: KnowledgeGraph, new_graph: KnowledgeGraph) -> bool {
    &&& d.added_items@.map_values(|x: ItemDiff| item_diff_view(x)) == missing_from(
        new_graph.nodes(),
        id_positions(new_graph.nodes(), new_graph.nodes().len() as int),
        old_graph.nodes(),
    ).map_values(|p: int| item_diff_of(new_graph.nodes()[p]))
    &&& d.removed_items@.map_values(|x: ItemDiff| item_diff_view(x)) == missing_from(
        old_graph.nodes(),
        id_positions(old_graph.nodes(), old_graph.nodes().len() as int),
        new_graph.nodes(),
    ).map_values(|p: int| item_diff_of(old_graph.nodes()[p]))
    &&& d.modified_items@.map_values(|m: ItemModification| modification_view(m)) == modifications(
        old_graph.nodes(),
        id_positions(old_graph.nodes(), old_graph.nodes().len() as int),
        new_graph.nodes(),
    )
    &&& d.added_relationships@.map_values(|x: RelationshipDiff| relationship_diff_view(x)) == new_triples(
        relationship_triples(new_graph),
        relationship_triples(old_graph),
    ).map_values(|t: IdEdge| triple_diff(t))
    &&& d.removed_relationships@.map_values(|x: RelationshipDiff| relationship_diff_view(x)) == new_triples(
        relationship_triples(old_graph),
        relationship_triples(new_graph),
    ).map_values(|t: IdEdge| triple_diff(t))
    &&& d.stats.items_added == d.added_items@.len()
    &&& d.stats.items_removed == d.removed_items@.len()
    &&& d.stats.items_modified == d.modified_items@.len()
    &&& d.stats.relationships_added == d.added_relationships@.len()
    &&& d.stats.relationships_removed == d.removed_relationships@.len()
}

/// Items whose identifiers all occur in the other graph are never missing.
proof fn lemma_none_missing(items: Seq<Item>, ps: Seq<int>)
    requires
        forall|k: int| 0 <= k < ps.len() ==> 0 <= #[trigger] ps[k] < items.len(),
    ensures
        missing_from(items, ps, items) == Seq::<int>::empty(),
    decreases ps.len(),
{
    if ps.len() > 0 {
        lemma_none_missing(items, ps.drop_last());
        let p = ps.last();
        assert(ps[ps.len() - 1] == p);
        lemma_find_last(items, items[p].id@);
    }
}

/// An item compared with itself has no changed field.
proof fn lemma_no_self_changes(item: Item)
    ensures
        field_changes(item, item) == Seq::<ChangeView>::empty(),
{
    assert(field_changes(item, item) =~= Seq::<ChangeView>::empty());
}

/// The last items of their identifiers, compared with the same graph, are
/// not modified.
proof fn lemma_no_self_modifications(items: Seq<Item>, ps: Seq<int>)
    requires
        forall|k: int| 0 <= k < ps.len() ==> 0 <= #[trigger] ps[k] < items.len(),
        forall|k: int| 0 <= k < ps.len() ==> is_last_of_id(items, #[trigger] ps[k]),
    ensures
        modifications(items, ps, items) == Seq::<(Seq<char>, Seq<char>, Seq<char>, Seq<ChangeView>)>::empty(),
    decreases ps.len(),
{
    if ps.len() > 0 {
        lemma_no_self_modifications(items, ps.drop_last());
        let p = ps.last();
        assert(ps[ps.len() - 1] == p);
        lemma_last_is_found(items, p);
        lemma_no_self_changes(items[p]);
    }
}

/// Triples that all occur in `other` are never new.
proof fn lemma_no_new_triples(t: Seq<IdEdge>, other: Seq<IdEdge>)
    requires
        forall|k: int| 0 <= k < t.len() ==> other.contains(#[trigger] t[k]),
    ensures
        new_triples(t, other) == Seq::<IdEdge>::empty(),
    decreases t.len(),
{
    if t.len() > 0 {
        assert(t[t.len() - 1] == t.last());
        lemma_no_new_triples(t.drop_last(), other);
    }
}

/// A graph compared with itself has no difference.
pub proof fn lemma_diff_self_empty(g: KnowledgeGraph)
    requires
        g.wf(),
    ensures
        forall|d: GraphDiff| #[trigger] diff_of(d, g, g) ==> {
            &&& d.added_items@.len() == 0
            &&& d.removed_items@.len() == 0
            &&& d.modified_items@.len() == 0
            &&& d.added_relationships@.len() == 0
            &&& d.removed_relationships@.len() == 0
        },
{
    let ps = id_positions(g.nodes(), g.nodes().len() as int);
    lemma_id_positions(g.nodes(), g.nodes().len() as int);
    lemma_none_missing(g.nodes(), ps);
    lemma_no_self_modifications(g.nodes(), ps);
    let t = relationship_triples(g);
    assert forall|k: int| 0 <= k < t.len() implies t.contains(#[trigger] t[k]) by {}
    lemma_no_new_triples(t, t);
    assert forall|d: GraphDiff| #[trigger] diff_of(d, g, g) implies {
        &&& d.added_items@.len() == 0
        &&& d.removed_items@.len() == 0
        &&& d.modified_items@.len() == 0
        &&& d.added_relationships@.len() == 0
        &&& d.removed_relationships@.len() == 0
    } by {
        assert(d.added_items@.map_values(|x: ItemDiff| item_diff_view(x)).len() == 0);
        assert(d.removed_items@.map_values(|x: ItemDiff| item_diff_view(x)).len() == 0);
        assert(d.modified_items@.map_values(|m: ItemModification| modification_view(m)).len() == 0);
        assert(d.added_relationships@.map_values(|x: RelationshipDiff| relationship_diff_view(x)).len() == 0);
        assert(d.removed_relationships@.map_values(|x: RelationshipDiff| relationship_diff_view(x)).len() == 0);
    }
}

/// Two graphs with the same items and the same edges have no difference,
/// whatever else (such as strict mode) tells them apart.
pub proof fn lemma_diff_same_contents(old_graph: KnowledgeGraph, new_graph: KnowledgeGraph)
    requires
        old_graph.wf(),
        new_graph.wf(),
        old_graph.nodes() == new_graph.nodes(),
        old_graph.edges() == new_graph.edges(),
    ensures
        forall|d: GraphDiff| #[trigger] diff_of(d, old_graph, new_graph) ==> {
            &&& d.added_items@.len() == 0
            &&& d.removed_items@.len() == 0
            &&& d.modified_items@.len() == 0
            &&& d.added_relationships@.len() == 0
            &&& d.removed_relationships@.len() == 0
            &&& d.stats.items_added == 0
            &&& d.stats.items_removed == 0
            &&& d.stats.items_modified == 0
            &&& d.stats.relationships_added == 0
            &&& d.stats.relationships_removed == 0
        },
{
    lemma_diff_self_empty(old_graph);
    assert(relationship_triples(new_graph) =~= relationship_triples(old_graph));
    assert forall|d: GraphDiff| #[trigger] diff_of(d, old_graph, new_graph) implies diff_of(
        d,
        old_graph,
        old_graph,
    ) by {}
}

/// Two graphs built from the same items, both with every inverse edge or
/// both with the declared edges alone (as `GraphBuilder::build` and
/// `KnowledgeGraphBuilder::build` state their results), have no
/// difference: no item or relationship added, removed or modified.
pub proof fn lemma_same_items_no_changes(
    items: Seq<Item>,
    all: bool,
    old_graph: KnowledgeGraph,
    new_graph: KnowledgeGraph,
)
    requires
        old_graph.wf(),
        new_graph.wf(),
        old_graph.nodes() == items,
        new_graph.nodes() == items,
        old_graph.edges() == resolve_edges(items, items_edges(items, all)),
        new_graph.edges() == resolve_edges(items, items_edges(items, all)),
    ensures
        forall|d: GraphDiff| #[trigger] diff_of(d, old_graph, new_graph) ==> {
            &&& d.added_items@.len() == 0
            &&& d.removed_items@.len() == 0
            &&& d.modified_items@.len() == 0
            &&& d.added_relationships@.len() == 0
            &&& d.removed_relationships@.len() == 0
            &&& d.stats.items_added == 0
            &&& d.stats.items_removed == 0
            &&& d.stats.items_modified == 0
            &&& d.stats.relationships_added == 0
            &&& d.stats.relationships_removed == 0
        },
{
    lemma_diff_same_contents(old_graph, new_graph);
}

/// True if any compared field differs between two versions of an item:
/// name, description, specification, file path, upstream or downstream
/// references.
pub open spec fn item_changed(o: Item, n: Item) -> bool {
    ||| o.name@ != n.name@
    ||| opt_view(o.description) != opt_view(n.description)
    ||| specification_of(o) != specification_of(n)
    ||| o.source.file_path@ != n.source.file_path@
    ||| upstream_text(o) != upstream_text(n)
    ||| downstream_text(o) != downstream_text(n)
}

/// True if the changes `cs` carry, for every field that differs between
/// `o` and `n`, the field's name with its old and its new value.
pub open spec fn lists_changed_fields(o: Item, n: Item, cs: Seq<ChangeView>) -> bool {
    &&& o.name@ != n.name@ ==> cs.contains(("name"@, o.name@, n.name@))
    &&& opt_view(o.description) != opt_view(n.description) ==> cs.contains(
        ("description"@, text_or_empty(opt_view(o.description)), text_or_empty(opt_view(n.description))),
    )
    &&& specification_of(o) != specification_of(n) ==> cs.contains(
        ("specification"@, text_or_empty(specification_of(o)), text_or_empty(specification_of(n))),
    )
    &&& o.source.file_path@ != n.source.file_path@ ==> cs.contains(
        ("file_path"@, o.source.file_path@, n.source.file_path@),
    )
    &&& upstream_text(o) != upstream_text(n) ==> cs.contains(("upstream"@, upstream_text(o), upstream_text(n)))
    &&& downstream_text(o) != downstream_text(n) ==> cs.contains(
        ("downstream"@, downstream_text(o), downstream_text(n)),
    )
}

/// An element of a concatenation is an element of one of its parts.
pub(crate) proof fn lemma_add_contains<A>(p: Seq<A>, q: Seq<A>, v: A)
    ensures
        (p + q).contains(v) <==> p.contains(v) || q.contains(v),
{
    if p.contains(v) {
        let k = choose|k: int| 0 <= k < p.len() && p[k] == v;
        assert((p + q)[k] == v);
    }
    if q.contains(v) {
        let k = choose|k: int| 0 <= k < q.len() && q[k] == v;
        assert((p + q)[p.len() + k] == v);
    }
    if (p + q).contains(v) {
        let k = choose|k: int| 0 <= k < (p + q).len() && (p + q)[k] == v;
        if k < p.len() {
            assert(p[k] == v);
        } else {
            assert(q[k - p.len()] == v);
        }
    }
}

/// The changes of a field, when it differs, hold that field's change.
proof fn lemma_change_if(field: Seq<char>, differ: bool, old: Seq<char>, new: Seq<char>)
    ensures
        differ ==> change_if(field, differ, old, new).contains((field, old, new)),
        change_if(field, differ, old, new).len() > 0 <==> differ,
{
    if differ {
        assert(change_if(field, differ, old, new)[0] == (field, old, new));
    }
}

/// The field changes of two versions are not empty exactly when a field
/// differs, and they carry every differing field.
proof fn lemma_field_changes_cover(o: Item, n: Item)
    ensures
        field_changes(o, n).len() > 0 <==> item_changed(o, n),
        lists_changed_fields(o, n, field_changes(o, n)),
{
    let a1 = change_if("name"@, o.name@ != n.name@, o.name@, n.name@);
    let a2 = change_if(
        "description"@,
        opt_view(o.description) != opt_view(n.description),
        text_or_empty(opt_view(o.description)),
        text_or_empty(opt_view(n.description)),
    );
    let a3 = change_if(
        "specification"@,
        specification_of(o) != specification_of(n),
        text_or_empty(specification_of(o)),
        text_or_empty(specification_of(n)),
    );
    let a4 = change_if(
        "file_path"@,
        o.source.file_path@ != n.source.file_path@,
        o.source.file_path@,
        n.source.file_path@,
    );
    let a5 = change_if("upstream"@, upstream_text(o) != upstream_text(n), upstream_text(o), upstream_text(n));
    let a6 = change_if(
        "downstream"@,
        downstream_text(o) != downstream_text(n),
        downstream_text(o),
        downstream_text(n),
    );
    lemma_change_if("name"@, o.name@ != n.name@, o.name@, n.name@);
    lemma_change_if(
        "description"@,
        opt_view(o.description) != opt_view(n.description),
        text_or_empty(opt_view(o.description)),
        text_or_empty(opt_view(n.description)),
    );
    lemma_change_if(
        "specification"@,
        specification_of(o) != specification_of(n),
        text_or_empty(specification_of(o)),
        text_or_empty(specification_of(n)),
    );
    lemma_change_if(
        "file_path"@,
        o.source.file_path@ != n.source.file_path@,
        o.source.file_path@,
        n.source.file_path@,
    );
    lemma_change_if("upstream"@, upstream_text(o) != upstream_text(n), upstream_text(o), upstream_text(n));
    lemma_change_if(
        "downstream"@,
        downstream_text(o) != downstream_text(n),
        downstream_text(o),
        downstream_text(n),
    );
    let fc = field_changes(o, n);
    assert(fc == a1 + a2 + a3 + a4 + a5 + a6);
    let c1 = ("name"@, o.name@, n.name@);
    let c2 = ("description"@, text_or_empty(opt_view(o.description)), text_or_empty(opt_view(n.description)));
    let c3 = ("specification"@, text_or_empty(specification_of(o)), text_or_empty(specification_of(n)));
    let c4 = ("file_path"@, o.source.file_path@, n.source.file_path@);
    let c5 = ("upstream"@, upstream_text(o), upstream_text(n));
    let c6 = ("downstream"@, downstream_text(o), downstream_text(n));
    lemma_add_contains(a1, a2, c1);
    lemma_add_contains(a1, a2, c2);
    lemma_add_contains(a1 + a2, a3, c1);
    lemma_add_contains(a1 + a2, a3, c2);
    lemma_add_contains(a1 + a2, a3, c3);
    lemma_add_contains(a1 + a2 + a3, a4, c1);
    lemma_add_contains(a1 + a2 + a3, a4, c2);
    lemma_add_contains(a1 + a2 + a3, a4, c3);
    lemma_add_contains(a1 + a2 + a3, a4, c4);
    lemma_add_contains(a1 + a2 + a3 + a4, a5, c1);
    lemma_add_contains(a1 + a2 + a3 + a4, a5, c2);
    lemma_add_contains(a1 + a2 + a3 + a4, a5, c3);
    lemma_add_contains(a1 + a2 + a3 + a4, a5, c4);
    lemma_add_contains(a1 + a2 + a3 + a4, a5, c5);
    lemma_add_contains(a1 + a2 + a3 + a4 + a5, a6, c1);
    lemma_add_contains(a1 + a2 + a3 + a4 + a5, a6, c2);
    lemma_add_contains(a1 + a2 + a3 + a4 + a5, a6, c3);
    lemma_add_contains(a1 + a2 + a3 + a4 + a5, a6, c4);
    lemma_add_contains(a1 + a2 + a3 + a4 + a5, a6, c5);
    lemma_add_contains(a1 + a2 + a3 + a4 + a5, a6, c6);
}

/// The last item of an identifier is among the identifier positions.
proof fn lemma_id_positions_has(items: Seq<Item>, n: int, i: int)
    requires
        0 <= i < n <= items.len(),
        is_last_of_id(items, i),
    ensures
        id_positions(items, n).contains(i),
    decreases n,
{
    if i < n - 1 {
        lemma_id_positions_has(items, n - 1, i);
        let prev = id_positions(items, n - 1);
        let k = choose|k: int| 0 <= k < prev.len() && prev[k] == i;
        assert(id_positions(items, n)[k] == i);
    } else {
        assert(id_positions(items, n)[id_positions(items, n - 1).len() as int] == i);
    }
}

/// The entry `modifications` gives for the old item at `p`, when the new
/// items hold its identifier.
spec fn modification_at(old: Seq<Item>, p: int, new: Seq<Item>) -> (Seq<char>, Seq<char>, Seq<char>, Seq<ChangeView>) {
    let q = find_last(new, old[p].id@)->0;
    (old[p].id@, new[q].name@, type_display(new[q].item_type), field_changes(old[p], new[q]))
}

/// True if the new items hold the identifier of the old item at `p` with
/// some changed field.
spec fn changed_at(old: Seq<Item>, p: int, new: Seq<Item>) -> bool {
    &&& find_last(new, old[p].id@) is Some
    &&& field_changes(old[p], new[find_last(new, old[p].id@)->0]).len() > 0
}

/// Each entry of `modifications` is that of an old item at one of the
/// positions that the new items hold with some changed field.
proof fn lemma_modification_source(old: Seq<Item>, ps: Seq<int>, new: Seq<Item>, k: int) -> (j: int)
    requires
        0 <= k < modifications(old, ps, new).len(),
    ensures
        0 <= j < ps.len(),
        changed_at(old, ps[j], new),
        modifications(old, ps, new)[k] == modification_at(old, ps[j], new),
    decreases ps.len(),
{
    let pps = ps.drop_last();
    let prev = modifications(old, pps, new);
    let p = ps.last();
    assert(modifications(old, ps, new) == prev + if changed_at(old, p, new) {
        seq![modification_at(old, p, new)]
    } else {
        seq![]
    });
    if k < prev.len() {
        let j = lemma_modification_source(old, pps, new, k);
        assert(ps[j] == pps[j]);
        j
    } else {
        ps.len() - 1
    }
}

/// The entry of every old item at the positions that the new items hold
/// with some changed field is among the `modifications`.
proof fn lemma_modification_listed(old: Seq<Item>, ps: Seq<int>, new: Seq<Item>, j: int)
    requires
        0 <= j < ps.len(),
        changed_at(old, ps[j], new),
    ensures
        modifications(old, ps, new).contains(modification_at(old, ps[j], new)),
    decreases ps.len(),
{
    let pps = ps.drop_last();
    let prev = modifications(old, pps, new);
    let cur = modifications(old, ps, new);
    let p = ps.last();
    assert(cur == prev + if changed_at(old, p, new) {
        seq![modification_at(old, p, new)]
    } else {
        seq![]
    });
    if j < pps.len() {
        assert(pps[j] == ps[j]);
        lemma_modification_listed(old, pps, new, j);
        let k = choose|k: int| 0 <= k < prev.len() && prev[k] == modification_at(old, pps[j], new);
        assert(cur[k] == prev[k]);
    } else {
        assert(cur[prev.len() as int] == modification_at(old, ps[j], new));
    }
}

/// An item that both graphs hold is reported modified exactly when one of
/// its compared fields (name, description, specification, file path,
/// upstream or downstream references) differs between its two versions,
/// and then its entry carries its identifier, its new name and type, and
/// for every differing field the field's name with the old and the new
/// value.
pub proof fn lemma_diff_reports_changed_fields(
    old_graph: KnowledgeGraph,
    new_graph: KnowledgeGraph,
    d: GraphDiff,
    x: Seq<char>,
)
    requires
        old_graph.wf(),
        diff_of(d, old_graph, new_graph),
        find_last(old_graph.nodes(), x) is Some,
        find_last(new_graph.nodes(), x) is Some,
    ensures
        ({
            let o = old_graph.nodes()[find_last(old_graph.nodes(), x)->0];
            let n = new_graph.nodes()[find_last(new_graph.nodes(), x)->0];
            &&& item_changed(o, n) ==> exists|k: int|
                0 <= k < d.modified_items@.len() && {
                    let m = #[trigger] modification_view(d.modified_items@[k]);
                    &&& m.0 == x
                    &&& m.1 == n.name@
                    &&& m.2 == type_display(n.item_type)
                    &&& lists_changed_fields(o, n, m.3)
                }
            &&& !item_changed(o, n) ==> forall|k: int|
                0 <= k < d.modified_items@.len() ==> (#[trigger] modification_view(d.modified_items@[k])).0 != x
        }),
{
    let olds = old_graph.nodes();
    let news = new_graph.nodes();
    let i = find_last(olds, x)->0;
    let q = find_last(news, x)->0;
    lemma_find_last(olds, x);
    lemma_find_last(news, x);
    let o = olds[i];
    let n = news[q];
    let ps = id_positions(olds, olds.len() as int);
    lemma_id_positions(olds, olds.len() as int);
    lemma_id_positions_has(olds, olds.len() as int, i);
    lemma_field_changes_cover(o, n);
    let mods = modifications(olds, ps, news);
    let views = d.modified_items@.map_values(|m: ItemModification| modification_view(m));
    assert(views == mods);
    assert(views.len() == d.modified_items@.len());
    let j0 = choose|j: int| 0 <= j < ps.len() && ps[j] == i;
    assert(modification_at(olds, ps[j0], news) == (x, n.name@, type_display(n.item_type), field_changes(o, n)));
    if item_changed(o, n) {
        assert(changed_at(olds, ps[j0], news));
        lemma_modification_listed(olds, ps, news, j0);
        let k = choose|k: int| 0 <= k < mods.len() && mods[k] == modification_at(olds, ps[j0], news);
        assert(views[k] == modification_view(d.modified_items@[k]));
    } else {
        assert forall|k: int| 0 <= k < d.modified_items@.len() implies (#[trigger] modification_view(
            d.modified_items@[k],
        )).0 != x by {
            assert(views[k] == modification_view(d.modified_items@[k]));
            let j = lemma_modification_source(olds, ps, news, k);
            if olds[ps[j]].id@ == x {
                lemma_last_is_found(olds, ps[j]);
            }
        }
    }
}

/// Comparing two graphs the other way round swaps what was added and what
/// was removed, items and relationships alike, and their counts.
pub proof fn lemma_diff_swap(a: KnowledgeGraph, b: KnowledgeGraph, d1: GraphDiff, d2: GraphDiff)
    requires
        diff_of(d1, a, b),
        diff_of(d2, b, a),
    ensures
        d1.added_items@.map_values(|x: ItemDiff| item_diff_view(x)) == d2.removed_items@.map_values(
            |x: ItemDiff| item_diff_view(x),
        ),
        d1.removed_items@.map_values(|x: ItemDiff| item_diff_view(x)) == d2.added_items@.map_values(
            |x: ItemDiff| item_diff_view(x),
        ),
        d1.added_relationships@.map_values(|x: RelationshipDiff| relationship_diff_view(x))
            == d2.removed_relationships@.map_values(|x: RelationshipDiff| relationship_diff_view(x)),
        d1.removed_relationships@.map_values(|x: RelationshipDiff| relationship_diff_view(x))
            == d2.added_relationships@.map_values(|x: RelationshipDiff| relationship_diff_view(x)),
        d1.stats.items_added == d2.stats.items_removed,
        d1.stats.items_removed == d2.stats.items_added,
        d1.stats.relationships_added == d2.stats.relationships_removed,
        d1.stats.relationships_removed == d2.stats.relationships_added,
{
    assert(d1.added_items@.map_values(|x: ItemDiff| item_diff_view(x)).len() == d1.added_items@.len());
    assert(d2.removed_items@.map_values(|x: ItemDiff| item_diff_view(x)).len() == d2.removed_items@.len());
    assert(d1.removed_items@.map_values(|x: ItemDiff| item_diff_view(x)).len() == d1.removed_items@.len());
    assert(d2.added_items@.map_values(|x: ItemDiff| item_diff_view(x)).len() == d2.added_items@.len());
    assert(d1.added_relationships@.map_values(|x: RelationshipDiff| relationship_diff_view(x)).len()
        == d1.added_relationships@.len());
    assert(d2.removed_relationships@.map_values(|x: RelationshipDiff| relationship_diff_view(x)).len()
        == d2.removed_relationships@.len());
    assert(d1.removed_relationships@.map_values(|x: RelationshipDiff| relationship_diff_view(x)).len()
        == d1.removed_relationships@.len());
    assert(d2.added_relationships@.map_values(|x: RelationshipDiff| relationship_diff_view(x)).len()
        == d2.added_relationships@.len());
}

/// The identifiers joined with ", ".
fn join_ids(ids: &Vec<&ItemId>) -> (r: String)
    ensures
        r@ == join(ids@.map_values(|i: &ItemId| i@), ", "@),
{
    let mut out: Vec<char> = Vec::new();
    let mut i: usize = 0;
    while i < ids.len()
        invariant
            i <= ids.len(),
            out@ == join(ids@.take(i as int).map_values(|i: &ItemId| i@), ", "@),
        decreases ids.len() - i,
    {
        let ghost prev = ids@.take(i as int).map_values(|i: &ItemId| i@);
        assert(ids@.take(i + 1).map_values(|i: &ItemId| i@) =~= prev.push(ids@[i as int]@));
        if i > 0 {
            crate::text::extend_str(&mut out, ", ");
        }
        crate::text::extend_str(&mut out, ids[i].as_str());
        proof {
            reveal_strlit(", ");
            let now = prev.push(ids@[i as int]@);
            if i > 0 {
                assert(now.drop_last() =~= prev);
            } else {
                assert(now.len() == 1);
            }
        }
        i += 1;
    }
    assert(ids@.take(ids.len() as int) =~= ids@);
    crate::text::chars_to_string(&out)
}

/// The references of the given relations, grouped by relation in order.
fn grouped_refs(item: &Item, rels: [RelationshipType; 4]) -> (r: Vec<&ItemId>)
    ensures
        r@.map_values(|i: &ItemId| i@) == targets_of(item.relationships@, rels[0]) + targets_of(
            item.relationships@,
            rels[1],
        ) + targets_of(item.relationships@, rels[2]) + targets_of(item.relationships@, rels[3]),
{
    let mut a = item.relationship_ids(rels[0]);
    let mut b = item.relationship_ids(rels[1]);
    let mut c = item.relationship_ids(rels[2]);
    let mut d = item.relationship_ids(rels[3]);
    let ghost (av, bv, cv, dv) = (a@, b@, c@, d@);
    a.append(&mut b);
    a.append(&mut c);
    a.append(&mut d);
    assert(a@ =~= av + bv + cv + dv);
    assert(a@.map_values(|i: &ItemId| i@) =~= av.map_values(|i: &ItemId| i@) + bv.map_values(
        |i: &ItemId| i@,
    ) + cv.map_values(|i: &ItemId| i@) + dv.map_values(|i: &ItemId| i@));
    a
}

/// The upstream references of an item as text.
fn upstream_string(item: &Item) -> (r: String)
    ensures
        r@ == upstream_text(*item),
{
    let refs = grouped_refs(
        item,
        [
            RelationshipType::Refines,
            RelationshipType::DerivesFrom,
            RelationshipType::Satisfies,
            RelationshipType::Justifies,
        ],
    );
    join_ids(&refs)
}

/// The downstream references of an item as text.
fn downstream_string(item: &Item) -> (r: String)
    ensures
        r@ == downstream_text(*item),
{
    let refs = grouped_refs(
        item,
        [
            RelationshipType::IsRefinedBy,
            RelationshipType::Derives,
            RelationshipType::IsSatisfiedBy,
            RelationshipType::IsJustifiedBy,
        ],
    );
    join_ids(&refs)
}

/// A copy of an optional text, empty when absent.
fn text_or_default(o: Option<&String>) -> (r: String)
    ensures
        r@ == text_or_empty(
            match o {
                Some(s) => Some(s@),
                None => None,
            },
        ),
{
    match o {
        Some(s) => s.clone(),
        None => String::new(),
    }
}

/// True if the two optional texts are equal.
fn same_text(a: Option<&String>, b: Option<&String>) -> (r: bool)
    ensures
        r == (match a {
            Some(s) => Some(s@),
            None => None,
        } == match b {
            Some(s) => Some(s@),
            None => None,
        }),
{
    match (a, b) {
        (Some(x), Some(y)) => {
            let e = *x == *y;
            e
        },
        (None, None) => true,
        _ => false,
    }
}

/// Appends the change of `field` when `differ` holds.
fn push_change(changes: &mut Vec<FieldChange>, field: &str, differ: bool, before: String, after: String)
    ensures
        change_views(final(changes)@) == change_views(old(changes)@) + change_if(field@, differ, before@, after@),
{
    if differ {
        changes.push(FieldChange { field: field.to_owned(), old_value: before, new_value: after });
        assert(change_views(changes@) =~= change_views(old(changes)@) + change_if(field@, differ, before@, after@));
    } else {
        assert(change_views(changes@) =~= change_views(old(changes)@) + change_if(field@, differ, before@, after@));
    }
}

/// Builds the diff entry of an item.
fn item_diff(item: &Item) -> (r: ItemDiff)
    ensures
        item_diff_view(r) == item_diff_of(*item),
{
    ItemDiff {
        id: item.id.as_str().to_owned(),
        name: item.name.clone(),
        item_type: item.item_type.display_name().to_owned(),
        file_path: item.source.file_path.clone(),
    }
}

impl GraphDiff {
    /// Computes the changes between two versions of the same item.
    pub fn compute_item_changes(old: &Item, new: &Item) -> (r: Vec<FieldChange>)
        ensures
            change_views(r@) == field_changes(*old, *new),
    {
        let mut changes: Vec<FieldChange> = Vec::new();
        let differ = old.name != new.name;
        push_change(&mut changes, "name", differ, old.name.clone(), new.name.clone());
        let od = match &old.description {
            Some(s) => Some(s),
            None => None,
        };
        let nd = match &new.description {
            Some(s) => Some(s),
            None => None,
        };
        let differ = !same_text(od, nd);
        push_change(&mut changes, "description", differ, text_or_default(od), text_or_default(nd));
        let os = old.attributes.specification();
        let ns = new.attributes.specification();
        let differ = !same_text(os, ns);
        push_change(&mut changes, "specification", differ, text_or_default(os), text_or_default(ns));
        let differ = old.source.file_path != new.source.file_path;
        push_change(
            &mut changes,
            "file_path",
            differ,
            old.source.file_path.clone(),
            new.source.file_path.clone(),
        );
        let ou = upstream_string(old);
        let nu = upstream_string(new);
        let differ = ou != nu;
        push_change(&mut changes, "upstream", differ, ou, nu);
        let odn = downstream_string(old);
        let ndn = downstream_string(new);
        let differ = odn != ndn;
        push_change(&mut changes, "downstream", differ, odn, ndn);
        proof {
            reveal_strlit("name");
            reveal_strlit("description");
            reveal_strlit("specification");
            reveal_strlit("file_path");
            reveal_strlit("upstream");
            reveal_strlit("downstream");
        }
        assert(change_views(changes@) =~= field_changes(*old, *new));
        changes
    }

    /// Computes the diff between two graphs: `old_graph` is the baseline,
    /// `new_graph` the target. Items are matched by identifier; items and
    /// relationships are listed in graph order, a relationship once however
    /// often it occurs.
    pub fn compute(old_graph: &KnowledgeGraph, new_graph: &KnowledgeGraph) -> (r: GraphDiff)
        requires
            old_graph.wf(),
            new_graph.wf(),
        ensures
            diff_of(r, *old_graph, *new_graph),
    {
        let added_items = missing_items(new_graph, old_graph);
        let removed_items = missing_items(old_graph, new_graph);
        let modified_items = modified(old_graph, new_graph);
        let old_rels = triples(old_graph);
        let new_rels = triples(new_graph);
        let added_relationships = relationship_changes(&new_rels, &old_rels);
        let removed_relationships = relationship_changes(&old_rels, &new_rels);
        let stats = DiffStats {
            items_added: added_items.len(),
            items_removed: removed_items.len(),
            items_modified: modified_items.len(),
            relationships_added: added_relationships.len(),
            relationships_removed: removed_relationships.len(),
        };
        GraphDiff {
            added_items,
            removed_items,
            modified_items,
            added_relationships,
            removed_relationships,
            stats,
        }
    }

    /// Returns true if there are no changes.
    pub fn is_empty(&self) -> (r: bool)
        ensures
            r == (self.added_items@.len() == 0 && self.removed_items@.len() == 0
                && self.modified_items@.len() == 0 && self.added_relationships@.len() == 0
                && self.removed_relationships@.len() == 0),
    {
        self.added_items.len() == 0 && self.removed_items.len() == 0 && self.modified_items.len() == 0
            && self.added_relationships.len() == 0 && self.removed_relationships.len() == 0
    }
}

/// The diff entries of the items of `graph` whose identifier is not in
/// `other`, one per distinct identifier, in graph order.
fn missing_items(graph: &KnowledgeGraph, other: &KnowledgeGraph) -> (r: Vec<ItemDiff>)
    requires
        graph.wf(),
    ensures
        r@.map_values(|d: ItemDiff| item_diff_view(d)) == missing_from(
            graph.nodes(),
            id_positions(graph.nodes(), graph.nodes().len() as int),
            other.nodes(),
        ).map_values(|p: int| item_diff_of(graph.nodes()[p])),
{
    let ids = graph.item_ids();
    let ghost ps = id_positions(graph.nodes(), graph.nodes().len() as int);
    let mut r: Vec<ItemDiff> = Vec::new();
    let mut i: usize = 0;
    proof {
        lemma_id_positions(graph.nodes(), graph.nodes().len() as int);
    }
    while i < ids.len()
        invariant
            i <= ids.len(),
            ids@.len() == ps.len(),
            ps == id_positions(graph.nodes(), graph.nodes().len() as int),
            forall|k: int| 0 <= k < ps.len() ==> 0 <= #[trigger] ps[k] < graph.nodes().len(),
            forall|k: int| 0 <= k < ps.len() ==> is_last_of_id(graph.nodes(), #[trigger] ps[k]),
            forall|k: int| 0 <= k < ids@.len() ==> *(#[trigger] ids@[k]) == graph.nodes()[ps[k]].id,
            r@.map_values(|d: ItemDiff| item_diff_view(d)) == missing_from(
                graph.nodes(),
                ps.take(i as int),
                other.nodes(),
            ).map_values(|p: int| item_diff_of(graph.nodes()[p])),
        decreases ids.len() - i,
    {
        let ghost before = missing_from(graph.nodes(), ps.take(i as int), other.nodes());
        assert(ps.take(i + 1).drop_last() =~= ps.take(i as int));
        assert(ps.take(i + 1).last() == ps[i as int]);
        let ghost view_before = r@.map_values(|d: ItemDiff| item_diff_view(d));
        if !other.contains(ids[i]) {
            proof {
                lemma_last_is_found(graph.nodes(), ps[i as int]);
            }
            let item = graph.get(ids[i]).unwrap();
            let d = item_diff(item);
            r.push(d);
            assert(missing_from(graph.nodes(), ps.take(i + 1), other.nodes()) == before + seq![ps[i as int]]);
            assert(r@.map_values(|d: ItemDiff| item_diff_view(d)) =~= view_before + seq![item_diff_of(graph.nodes()[ps[i as int]])]);
            assert(missing_from(graph.nodes(), ps.take(i + 1), other.nodes()).map_values(|p: int| item_diff_of(graph.nodes()[p]))
                =~= before.map_values(|p: int| item_diff_of(graph.nodes()[p])) + seq![item_diff_of(graph.nodes()[ps[i as int]])]);
        } else {
            assert(missing_from(graph.nodes(), ps.take(i + 1), other.nodes()) =~= before);
        }
        i += 1;
    }
    assert(ps.take(ids.len() as int) =~= ps);
    r
}

/// The positions listed by `id_positions` are valid, and each holds the
/// last item of its identifier.
proof fn lemma_id_positions(items: Seq<Item>, n: int)
    requires
        n <= items.len(),
    ensures
        forall|k: int|
            0 <= k < id_positions(items, n).len() ==> 0 <= #[trigger] id_positions(items, n)[k] < n,
        forall|k: int|
            0 <= k < id_positions(items, n).len() ==> is_last_of_id(items, #[trigger] id_positions(items, n)[k]),
    decreases n,
{
    if n > 0 {
        lemma_id_positions(items, n - 1);
        let prev = id_positions(items, n - 1);
        let cur = id_positions(items, n);
        assert forall|k: int| 0 <= k < cur.len() implies 0 <= #[trigger] cur[k] < n && is_last_of_id(items, cur[k]) by {
            if k < prev.len() {
                assert(cur[k] == prev[k]);
            }
        }
    }
}

/// The last item of an identifier is the one the graph finds for it.
proof fn lemma_last_is_found(items: Seq<Item>, p: int)
    requires
        0 <= p < items.len(),
        is_last_of_id(items, p),
    ensures
        find_last(items, items[p].id@) == Some(p),
{
    lemma_find_last(items, items[p].id@);
    match find_last(items, items[p].id@) {
        Some(q) => {
            if q < p {
                assert(items[p].id@ != items[p].id@);
            } else if q > p {
                assert(items[q].id@ != items[p].id@);
            }
        },
        None => {},
    }
}

/// The modifications of the items of `old_graph` that `new_graph` holds
/// with changed fields.
fn modified(old_graph: &KnowledgeGraph, new_graph: &KnowledgeGraph) -> (r: Vec<ItemModification>)
    requires
        old_graph.wf(),
    ensures
        r@.map_values(|m: ItemModification| modification_view(m)) == modifications(
            old_graph.nodes(),
            id_positions(old_graph.nodes(), old_graph.nodes().len() as int),
            new_graph.nodes(),
        ),
{
    let ids = old_graph.item_ids();
    let ghost ps = id_positions(old_graph.nodes(), old_graph.nodes().len() as int);
    let ghost olds = old_graph.nodes();
    let ghost news = new_graph.nodes();
    let mut r: Vec<ItemModification> = Vec::new();
    let mut i: usize = 0;
    proof {
        lemma_id_positions(olds, olds.len() as int);
    }
    while i < ids.len()
        invariant
            olds == old_graph.nodes(),
            news == new_graph.nodes(),
            i <= ids.len(),
            ids@.len() == ps.len(),
            ps == id_positions(olds, olds.len() as int),
            forall|k: int| 0 <= k < ps.len() ==> 0 <= #[trigger] ps[k] < olds.len(),
            forall|k: int| 0 <= k < ps.len() ==> is_last_of_id(olds, #[trigger] ps[k]),
            forall|k: int| 0 <= k < ids@.len() ==> *(#[trigger] ids@[k]) == olds[ps[k]].id,
            r@.map_values(|m: ItemModification| modification_view(m)) == modifications(
                olds,
                ps.take(i as int),
                news,
            ),
        decreases ids.len() - i,
    {
        let ghost before = modifications(olds, ps.take(i as int), news);
        assert(ps.take(i + 1).drop_last() =~= ps.take(i as int));
        assert(ps.take(i + 1).last() == ps[i as int]);
        let ghost view_before = r@.map_values(|m: ItemModification| modification_view(m));
        proof {
            lemma_last_is_found(olds, ps[i as int]);
            lemma_find_last(news, olds[ps[i as int]].id@);
        }
        let old_item = old_graph.get(ids[i]).unwrap();
        match new_graph.get(ids[i]) {
            Some(new_item) => {
                let changes = GraphDiff::compute_item_changes(old_item, new_item);
                if changes.len() > 0 {
                    let m = ItemModification {
                        id: ids[i].as_str().to_owned(),
                        name: new_item.name.clone(),
                        item_type: new_item.item_type.display_name().to_owned(),
                        changes,
                    };
                    r.push(m);
                    assert(r@.map_values(|m: ItemModification| modification_view(m)) =~= view_before
                        + seq![modification_view(m)]);
                } else {
                    assert(r@.map_values(|m: ItemModification| modification_view(m)) =~= view_before);
                }
            },
            None => {
                assert(r@.map_values(|m: ItemModification| modification_view(m)) =~= view_before);
            },
        }
        assert(r@.map_values(|m: ItemModification| modification_view(m)) =~= modifications(
            olds,
            ps.take(i + 1),
            news,
        ));
        i += 1;
    }
    assert(ps.take(ids.len() as int) =~= ps);
    r
}

/// The views of string triples.
pub open spec fn triple_views(v: Seq<(String, String, RelationshipType)>) -> Seq<IdEdge> {
    v.map_values(|t: (String, String, RelationshipType)| (t.0@, t.1@, t.2))
}

/// The relationships of a graph as string triples.
fn triples(graph: &KnowledgeGraph) -> (r: Vec<(String, String, RelationshipType)>)
    requires
        graph.wf(),
    ensures
        triple_views(r@) == relationship_triples(*graph),
{
    let rels = graph.relationships();
    let mut r: Vec<(String, String, RelationshipType)> = Vec::new();
    let mut i: usize = 0;
    while i < rels.len()
        invariant
            i <= rels.len(),
            rels@.len() == graph.edges().len(),
            forall|k: int|
                0 <= k < rels@.len() ==> {
                    &&& (#[trigger] rels@[k]).0@ == graph.nodes()[graph.edges()[k].0 as int].id@
                    &&& rels@[k].1@ == graph.nodes()[graph.edges()[k].1 as int].id@
                    &&& rels@[k].2 == graph.edges()[k].2
                },
            triple_views(r@) == relationship_triples(*graph).take(i as int),
        decreases rels.len() - i,
    {
        let ghost prev = triple_views(r@);
        let t = (rels[i].0.as_str().to_owned(), rels[i].1.as_str().to_owned(), rels[i].2);
        assert(rels@[i as int].0@ == graph.nodes()[graph.edges()[i as int].0 as int].id@);
        r.push(t);
        assert(triple_views(r@) =~= prev.push((t.0@, t.1@, t.2)));
        assert(relationship_triples(*graph)[i as int] == (
            graph.nodes()[graph.edges()[i as int].0 as int].id@,
            graph.nodes()[graph.edges()[i as int].1 as int].id@,
            graph.edges()[i as int].2,
        ));
        assert(triple_views(r@) =~= relationship_triples(*graph).take(i + 1));
        i += 1;
    }
    assert(relationship_triples(*graph).take(rels.len() as int) =~= relationship_triples(*graph));
    r
}

/// True if the triple is among the first `n` of `v`.
fn has_triple(v: &Vec<(String, String, RelationshipType)>, n: usize, t: &(String, String, RelationshipType)) -> (r: bool)
    requires
        n <= v@.len(),
    ensures
        r == triple_views(v@).take(n as int).contains((t.0@, t.1@, t.2)),
{
    let ghost target = (t.0@, t.1@, t.2);
    let mut i: usize = 0;
    while i < n
        invariant
            i <= n <= v@.len(),
            target == (t.0@, t.1@, t.2),
            forall|k: int| 0 <= k < i ==> triple_views(v@)[k] != target,
        decreases n - i,
    {
        assert(triple_views(v@)[i as int] == (v@[i as int].0@, v@[i as int].1@, v@[i as int].2));
        if v[i].0 == t.0 && v[i].1 == t.1 && v[i].2 == t.2 {
            assert(triple_views(v@).take(n as int)[i as int] == target);
            return true;
        }
        i += 1;
    }
    assert forall|k: int| 0 <= k < n implies triple_views(v@).take(n as int)[k] != target by {
        assert(triple_views(v@).take(n as int)[k] == triple_views(v@)[k]);
    }
    false
}

/// The diff entries of the distinct triples of `s` not in `other`.
fn relationship_changes(
    s: &Vec<(String, String, RelationshipType)>,
    other: &Vec<(String, String, RelationshipType)>,
) -> (r: Vec<RelationshipDiff>)
    ensures
        r@.map_values(|d: RelationshipDiff| relationship_diff_view(d)) == new_triples(
            triple_views(s@),
            triple_views(other@),
        ).map_values(|t: IdEdge| triple_diff(t)),
{
    let ghost sv = triple_views(s@);
    let ghost ov = triple_views(other@);
    let mut r: Vec<RelationshipDiff> = Vec::new();
    let mut i: usize = 0;
    while i < s.len()
        invariant
            i <= s.len(),
            sv == triple_views(s@),
            ov == triple_views(other@),
            r@.map_values(|d: RelationshipDiff| relationship_diff_view(d)) == new_triples(
                sv.take(i as int),
                ov,
            ).map_values(|t: IdEdge| triple_diff(t)),
        decreases s.len() - i,
    {
        let ghost before = new_triples(sv.take(i as int), ov);
        let ghost view_before = r@.map_values(|d: RelationshipDiff| relationship_diff_view(d));
        assert(sv.take(i + 1).drop_last() =~= sv.take(i as int));
        assert(sv.take(i + 1).last() == sv[i as int]);
        let t = &s[i];
        let in_other = has_triple(other, other.len(), t);
        let seen = has_triple(s, i, t);
        assert(triple_views(other@).take(other.len() as int) =~= ov);
        if !in_other && !seen {
            let d = RelationshipDiff {
                from_id: t.0.clone(),
                to_id: t.1.clone(),
                relationship_type: t.2.debug_name(),
            };
            r.push(d);
            assert(r@.map_values(|d: RelationshipDiff| relationship_diff_view(d)) =~= view_before
                + seq![triple_diff(sv[i as int])]);
            assert(new_triples(sv.take(i + 1), ov) == before + seq![sv[i as int]]);
            assert(new_triples(sv.take(i + 1), ov).map_values(|t: IdEdge| triple_diff(t)) =~= before.map_values(
                |t: IdEdge| triple_diff(t),
            ) + seq![triple_diff(sv[i as int])]);
        } else {
            assert(new_triples(sv.take(i + 1), ov) =~= before);
        }
        i += 1;
    }
    assert(sv.take(s.len() as int) =~= sv);
    r
}

} // verus!

//! The graph as the `check` and `parse` commands export it: every item with
//! its identity, type, name, specification and file, and every
//! relationship as a pair of identifiers with the relation's name.
use vstd::prelude::*;

use crate::graph::KnowledgeGraph;
use crate::model::item::{entry_text, type_display};
use crate::model::relationship::relation_id;
use crate::model::Item;
use crate::text::opt_view;

verus! {

/// An exported item.
pub struct ItemExport {
    /// The identifier.
    pub id: String,
    /// The display name of the type.
    pub item_type: String,
    /// The name.
    pub name: String,
    /// The description (never exported).
    pub description: Option<String>,
    /// The specification, when the item has one.
    pub specification: Option<String>,
    /// The file, relative to its repository.
    pub file: String,
}

/// An exported relationship.
pub struct RelationshipExport {
    /// The identifier of the item the relationship starts from.
    pub from: String,
    /// The identifier of the item it points to.
    pub to: String,
    /// The relation's name.
    pub relationship_type: String,
}

/// The exported graph.
pub struct GraphExport {
    /// The items, in graph order.
    pub items: Vec<ItemExport>,
    /// The relationships, in graph order.
    pub relationships: Vec<RelationshipExport>,
}

/// An exported item as plain values.
pub type ItemExportView = (Seq<char>, Seq<char>, Seq<char>, Option<Seq<char>>, Option<Seq<char>>, Seq<char>);

/// The plain values of an exported item.
pub open spec fn item_export_view(e: ItemExport) -> ItemExportView {
    (e.id@, e.item_type@, e.name@, opt_view(e.description), opt_view(e.specification), e.file@)
}

/// What an item exports as.
pub open spec fn exported_item(item: Item) -> ItemExportView {
    (
        item.id@,
        type_display(item.item_type),
        item.name@,
        None,
        opt_view(entry_text(item.attributes.entries(), "specification"@)),
        item.source.file_path@,
    )
}

/// The plain values of an exported relationship.
pub open spec fn relationship_export_view(e: RelationshipExport) -> (Seq<char>, Seq<char>, Seq<char>) {
    (e.from@, e.to@, e.relationship_type@)
}

/// What the edges of a graph export as.
pub open spec fn exported_relationships(g: KnowledgeGraph) -> Seq<(Seq<char>, Seq<char>, Seq<char>)> {
    g.edges().map_values(
        |e: (usize, usize, crate::model::RelationshipType)|
            (g.nodes()[e.0 as int].id@, g.nodes()[e.1 as int].id@, relation_id(e.2)),
    )
}

/// Builds the export of a graph: its items, then its relationships, each
/// in graph order.
pub fn build_graph_export(graph: &KnowledgeGraph) -> (r: GraphExport)
    requires
        graph.wf(),
    ensures
        r.items@.map_values(|e: ItemExport| item_export_view(e)) == graph.nodes().map_values(
            |i: Item| exported_item(i),
        ),
        r.relationships@.map_values(|e: RelationshipExport| relationship_export_view(e))
            == exported_relationships(*graph),
{
    let items = graph.items();
    let mut out: Vec<ItemExport> = Vec::new();
    let mut i: usize = 0;
    while i < items.len()
        invariant
            items@ == graph.nodes(),
            i <= items.len(),
            out@.len() == i,
            forall|k: int| 0 <= k < i ==> item_export_view(#[trigger] out@[k]) == exported_item(items@[k]),
        decreases items.len() - i,
    {
        let item = &items[i];
        let specification = match item.attributes.specification() {
            Some(s) => Some(s.clone()),
            None => None,
        };
        let e = ItemExport {
            id: item.id.as_str().to_owned(),
            item_type: item.item_type.display_name().to_owned(),
            name: item.name.clone(),
            description: None,
            specification,
            file: item.source.file_path.clone(),
        };
        out.push(e);
        i += 1;
    }
    assert(out@.map_values(|e: ItemExport| item_export_view(e)) =~= graph.nodes().map_values(
        |i: Item| exported_item(i),
    ));
    let rels = graph.relationships();
    let mut rout: Vec<RelationshipExport> = Vec::new();
    let mut j: usize = 0;
    while j < rels.len()
        invariant
            graph.wf(),
            rels@.len() == graph.edges().len(),
            forall|k: int|
                0 <= k < rels@.len() ==> {
                    &&& (#[trigger] rels@[k]).0@ == graph.nodes()[graph.edges()[k].0 as int].id@
                    &&& rels@[k].1@ == graph.nodes()[graph.edges()[k].1 as int].id@
                    &&& rels@[k].2 == graph.edges()[k].2
                },
            j <= rels.len(),
            rout@.len() == j,
            forall|k: int|
                0 <= k < j ==> relationship_export_view(#[trigger] rout@[k]) == exported_relationships(*graph)[k],
        decreases rels.len() - j,
    {
        let (from, to, rel) = &rels[j];
        let e = RelationshipExport {
            from: from.as_str().to_owned(),
            to: to.as_str().to_owned(),
            relationship_type: rel.as_str().to_owned(),
        };
        assert(rels@[j as int].0@ == graph.nodes()[graph.edges()[j as int].0 as int].id@);
        rout.push(e);
        j += 1;
    }
    assert(rout@.map_values(|e: RelationshipExport| relationship_export_view(e)) =~= exported_relationships(*graph));
    GraphExport { items: out, relationships: rout }
}

} // verus!

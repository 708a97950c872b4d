//! Types describing edits of item metadata.
use indexmap::IndexMap;
use vstd::prelude::*;

use super::item::{targets_of, traceability_field_of, FieldName, Item, ItemType};
use super::relationship::RelationshipType;
use crate::text::str_views;

verus! {

/// A change to a single field.
pub struct FieldChange {
    /// Field name (display name).
    pub field: String,
    /// Old value (formatted for display).
    pub old_value: String,
    /// New value (formatted for display).
    pub new_value: String,
}

impl FieldChange {
    /// Creates a new field change.
    pub fn new(field: &str, old_value: &str, new_value: &str) -> (r: FieldChange)
        ensures
            r.field@ == field@,
            r.old_value@ == old_value@,
            r.new_value@ == new_value@,
    {
        FieldChange { field: field.to_owned(), old_value: old_value.to_owned(), new_value: new_value.to_owned() }
    }

    /// Returns true if the value changed.
    pub fn is_changed(&self) -> (r: bool)
        ensures
            r == (self.old_value@ != self.new_value@),
    {
        !(self.old_value == self.new_value)
    }
}

/// A summary of the changes of an edit.
pub struct EditSummary {
    /// The item ID being edited.
    pub item_id: String,
    /// The file path of the item.
    pub file_path: String,
    /// List of field changes.
    pub changes: Vec<FieldChange>,
}

/// The positions of the changes whose value changed, among the first `n`.
pub open spec fn changed_positions(c: Seq<FieldChange>, n: int) -> Seq<int>
    decreases n,
{
    if n <= 0 {
        seq![]
    } else {
        changed_positions(c, n - 1) + if c[n - 1].old_value@ != c[n - 1].new_value@ {
            seq![n - 1]
        } else {
            seq![]
        }
    }
}

impl EditSummary {
    /// Returns true if any field actually changed.
    pub fn has_changes(&self) -> (r: bool)
        ensures
            r == exists|i: int|
                0 <= i < self.changes@.len() && (#[trigger] self.changes@[i]).old_value@
                    != self.changes@[i].new_value@,
    {
        let mut i: usize = 0;
        while i < self.changes.len()
            invariant
                i <= self.changes.len(),
                forall|j: int|
                    0 <= j < i ==> (#[trigger] self.changes@[j]).old_value@ == self.changes@[j].new_value@,
            decreases self.changes.len() - i,
        {
            if self.changes[i].is_changed() {
                return true;
            }
            i += 1;
        }
        false
    }

    /// Returns only the changes whose value changed, in order.
    pub fn actual_changes(&self) -> (r: Vec<&FieldChange>)
        ensures
            r@.len() == changed_positions(self.changes@, self.changes@.len() as int).len(),
            forall|k: int|
                0 <= k < r@.len() ==> *r@[k] == self.changes@[changed_positions(
                    self.changes@,
                    self.changes@.len() as int,
                )[k]],
    {
        let mut r: Vec<&FieldChange> = Vec::new();
        let mut i: usize = 0;
        while i < self.changes.len()
            invariant
                i <= self.changes.len(),
                r@.len() == changed_positions(self.changes@, i as int).len(),
                forall|k: int|
                    0 <= k < r@.len() ==> *r@[k] == self.changes@[changed_positions(
                        self.changes@,
                        i as int,
                    )[k]],
            decreases self.changes.len() - i,
        {
            let ghost before = changed_positions(self.changes@, i as int);
            if self.changes[i].is_changed() {
                r.push(&self.changes[i]);
                assert(changed_positions(self.changes@, i + 1) == before + seq![i as int]);
            } else {
                assert(changed_positions(self.changes@, i + 1) =~= before);
            }
            i += 1;
        }
        r
    }
}

/// The entries of a links map: each relation with its target IDs, in
/// insertion order.
pub uninterp spec fn link_entries(m: IndexMap<RelationshipType, Vec<String>>) -> Seq<(RelationshipType, Seq<Seq<char>>)>;

/// Position of the entry of relation `r`, if any.
pub open spec fn link_position(e: Seq<(RelationshipType, Seq<Seq<char>>)>, r: RelationshipType) -> Option<int>
    decreases e.len(),
{
    if e.len() == 0 {
        None
    } else {
        match link_position(e.drop_last(), r) {
            Some(p) => Some(p),
            None => if e.last().0 == r {
                Some(e.len() - 1)
            } else {
                None
            },
        }
    }
}

/// The target IDs stored for relation `r`: none when it has no entry.
pub open spec fn links_of(e: Seq<(RelationshipType, Seq<Seq<char>>)>, r: RelationshipType) -> Seq<Seq<char>> {
    match link_position(e, r) {
        Some(p) => e[p].1,
        None => seq![],
    }
}

/// The entries after setting the targets of relation `r`: an existing
/// entry keeps its place and gets the new targets; a new one is appended.
pub open spec fn set_links(
    e: Seq<(RelationshipType, Seq<Seq<char>>)>,
    r: RelationshipType,
    ids: Seq<Seq<char>>,
) -> Seq<(RelationshipType, Seq<Seq<char>>)> {
    match link_position(e, r) {
        Some(p) => e.update(p, (r, ids)),
        None => e.push((r, ids)),
    }
}

/// `IndexMap::new` for a links map.
#[verifier::external_body]
fn links_new() -> (m: IndexMap<RelationshipType, Vec<String>>)
    ensures
        link_entries(m) == Seq::<(RelationshipType, Seq<Seq<char>>)>::empty(),
{
    IndexMap::new()
}

/// `IndexMap::insert` for a links map: an existing relation keeps its
/// place and gets the new IDs; a new one is appended.
#[verifier::external_body]
fn links_insert(m: &mut IndexMap<RelationshipType, Vec<String>>, r: RelationshipType, ids: Vec<String>)
    ensures
        match link_position(link_entries(*old(m)), r) {
            Some(p) => link_entries(*final(m)) == link_entries(*old(m)).update(p, (r, str_views(ids@))),
            None => link_entries(*final(m)) == link_entries(*old(m)).push((r, str_views(ids@))),
        },
{
    m.insert(r, ids);
}

/// `IndexMap::get` for a links map.
#[verifier::external_body]
fn links_get(m: &IndexMap<RelationshipType, Vec<String>>, rel: RelationshipType) -> (r: Option<&Vec<String>>)
    ensures
        match link_position(link_entries(*m), rel) {
            Some(p) => r is Some && str_views(r->0@) == link_entries(*m)[p].1,
            None => r is None,
        },
{
    m.get(&rel)
}

/// `IndexMap::get_index` for a links map.
#[verifier::external_body]
fn links_get_index(m: &IndexMap<RelationshipType, Vec<String>>, i: usize) -> (r: Option<(&RelationshipType, &Vec<String>)>)
    ensures
        i < link_entries(*m).len() ==> (r is Some && *(r->0).0 == link_entries(*m)[i as int].0
            && str_views((r->0).1@) == link_entries(*m)[i as int].1),
        i >= link_entries(*m).len() ==> r is None,
{
    m.get_index(i)
}

/// `IndexMap::len` for a links map.
#[verifier::external_body]
fn links_len(m: &IndexMap<RelationshipType, Vec<String>>) -> (n: usize)
    ensures
        n == link_entries(*m).len(),
{
    m.len()
}

/// Traceability links of an item, keyed by relation in insertion order.
pub struct TraceabilityLinks {
    links: IndexMap<RelationshipType, Vec<String>>,
}

impl Default for TraceabilityLinks {
    /// No links.
    fn default() -> (r: TraceabilityLinks)
        ensures
            r.entries() == Seq::<(RelationshipType, Seq<Seq<char>>)>::empty(),
    {
        TraceabilityLinks::new()
    }
}

/// The relations an item of type `t` declares toward other items: its
/// upstream relation, if any.
pub open spec fn declared_relations(t: ItemType) -> Seq<RelationshipType> {
    match traceability_field_of(t) {
        Some(FieldName::Refines) => seq![RelationshipType::Refines],
        Some(FieldName::DerivesFrom) => seq![RelationshipType::DerivesFrom],
        Some(FieldName::Satisfies) => seq![RelationshipType::Satisfies],
        Some(FieldName::Justifies) => seq![RelationshipType::Justifies],
        _ => seq![],
    }
}

impl TraceabilityLinks {
    /// The entries: each relation with its target IDs.
    pub closed spec fn entries(&self) -> Seq<(RelationshipType, Seq<Seq<char>>)> {
        link_entries(self.links)
    }

    /// Creates empty traceability links.
    pub fn new() -> (r: TraceabilityLinks)
        ensures
            r.entries() == Seq::<(RelationshipType, Seq<Seq<char>>)>::empty(),
    {
        TraceabilityLinks { links: links_new() }
    }

    /// Returns the target IDs of a relation (empty when it has none).
    pub fn get(&self, relation: RelationshipType) -> (r: Vec<String>)
        ensures
            str_views(r@) == links_of(self.entries(), relation),
    {
        match links_get(&self.links, relation) {
            Some(ids) => crate::text::clone_strings(ids),
            None => Vec::new(),
        }
    }

    /// Sets the target IDs of a relation, replacing any previous ones.
    pub fn set(&mut self, relation: RelationshipType, ids: Vec<String>)
        ensures
            final(self).entries() == set_links(old(self).entries(), relation, str_views(ids@)),
    {
        links_insert(&mut self.links, relation, ids);
    }

    /// Appends target IDs to a relation, creating its entry when missing.
    pub fn extend(&mut self, relation: RelationshipType, ids: Vec<String>)
        ensures
            match link_position(old(self).entries(), relation) {
                Some(p) => final(self).entries() == old(self).entries().update(
                    p,
                    (relation, old(self).entries()[p].1 + str_views(ids@)),
                ),
                None => final(self).entries() == old(self).entries().push((relation, str_views(ids@))),
            },
    {
        let mut current = self.get(relation);
        let ghost cur = str_views(current@);
        let mut more = ids;
        let ghost mv = str_views(more@);
        current.append(&mut more);
        assert(str_views(current@) =~= cur + mv);
        proof {
            lemma_link_position_valid(self.entries(), relation);
        }
        links_insert(&mut self.links, relation, current);
    }

    /// Returns the entry at position `i`, if any.
    pub fn entry_at(&self, i: usize) -> (r: Option<(RelationshipType, Vec<String>)>)
        ensures
            i < self.entries().len() ==> (r matches Some((rel, ids)) && rel == self.entries()[i as int].0
                && str_views(ids@) == self.entries()[i as int].1),
            i >= self.entries().len() ==> r is None,
    {
        match links_get_index(&self.links, i) {
            Some((rel, ids)) => Some((*rel, crate::text::clone_strings(ids))),
            None => None,
        }
    }

    /// Returns true if no relation has any target.
    pub fn is_empty(&self) -> (r: bool)
        ensures
            r == forall|i: int| 0 <= i < self.entries().len() ==> (#[trigger] self.entries()[i]).1.len() == 0,
    {
        let n = links_len(&self.links);
        let mut i: usize = 0;
        while i < n
            invariant
                n == self.entries().len(),
                i <= n,
                forall|j: int| 0 <= j < i ==> (#[trigger] self.entries()[j]).1.len() == 0,
            decreases n - i,
        {
            match links_get_index(&self.links, i) {
                Some((_, ids)) => {
                    if ids.len() > 0 {
                        assert(self.entries()[i as int].1.len() > 0);
                        return false;
                    }
                },
                None => {},
            }
            i += 1;
        }
        true
    }

    /// The links an item declares: for each relation its type declares, the
    /// targets of its relationships of that relation.
    pub fn from_item(item: &Item) -> (r: TraceabilityLinks)
        ensures
            r.entries() == declared_relations(item.item_type).map_values(
                |rel: RelationshipType| (rel, targets_of(item.relationships@, rel)),
            ),
    {
        let mut links = TraceabilityLinks::new();
        let rel = match item.item_type.traceability_field() {
            Some(FieldName::Refines) => Some(RelationshipType::Refines),
            Some(FieldName::DerivesFrom) => Some(RelationshipType::DerivesFrom),
            Some(FieldName::Satisfies) => Some(RelationshipType::Satisfies),
            Some(FieldName::Justifies) => Some(RelationshipType::Justifies),
            _ => None,
        };
        if let Some(rel) = rel {
            let refs = item.relationship_ids(rel);
            let mut ids: Vec<String> = Vec::new();
            let mut i: usize = 0;
            while i < refs.len()
                invariant
                    i <= refs.len(),
                    str_views(ids@) == refs@.take(i as int).map_values(|id: &super::item::ItemId| id@),
                decreases refs.len() - i,
            {
                let ghost prev = ids@;
                ids.push(refs[i].as_str().to_owned());
                assert(str_views(ids@) =~= str_views(prev).push(refs@[i as int]@));
                assert(refs@.take(i + 1).map_values(|id: &super::item::ItemId| id@) =~= refs@.take(i as int).map_values(|id: &super::item::ItemId| id@).push(refs@[i as int]@));
                i += 1;
            }
            assert(refs@.take(refs.len() as int) =~= refs@);
            links.set(rel, ids);
        }
        assert(links.entries() =~= declared_relations(item.item_type).map_values(
            |rel: RelationshipType| (rel, targets_of(item.relationships@, rel)),
        ));
        links
    }
}

/// The position found for a relation holds that relation.
pub proof fn lemma_link_position_valid(e: Seq<(RelationshipType, Seq<Seq<char>>)>, r: RelationshipType)
    ensures
        link_position(e, r) matches Some(p) ==> 0 <= p < e.len() && e[p].0 == r,
    decreases e.len(),
{
    if e.len() > 0 {
        lemma_link_position_valid(e.drop_last(), r);
    }
}

/// Replacing an entry by one of the same relation leaves every position
/// search unchanged.
proof fn lemma_link_position_update(
    e: Seq<(RelationshipType, Seq<Seq<char>>)>,
    p: int,
    v: (RelationshipType, Seq<Seq<char>>),
    k: RelationshipType,
)
    requires
        0 <= p < e.len(),
        v.0 == e[p].0,
    ensures
        link_position(e.update(p, v), k) == link_position(e, k),
    decreases e.len(),
{
    let u = e.update(p, v);
    if p == e.len() - 1 {
        assert(u.drop_last() =~= e.drop_last());
    } else {
        assert(u.drop_last() =~= e.drop_last().update(p, v));
        lemma_link_position_update(e.drop_last(), p, v, k);
    }
}

/// Appending an entry finds it only when no earlier entry has its relation.
proof fn lemma_link_position_push(
    e: Seq<(RelationshipType, Seq<Seq<char>>)>,
    v: (RelationshipType, Seq<Seq<char>>),
    k: RelationshipType,
)
    ensures
        link_position(e.push(v), k) == match link_position(e, k) {
            Some(p) => Some(p),
            None => if v.0 == k {
                Some(e.len() as int)
            } else {
                None
            },
        },
{
    assert(e.push(v).drop_last() =~= e);
}

/// Reading the targets of a relation after setting them gives back what
/// was set, and every other relation keeps its targets.
pub proof fn lemma_links_set_get(
    e: Seq<(RelationshipType, Seq<Seq<char>>)>,
    r: RelationshipType,
    ids: Seq<Seq<char>>,
    other: RelationshipType,
)
    ensures
        links_of(set_links(e, r, ids), r) == ids,
        other != r ==> links_of(set_links(e, r, ids), other) == links_of(e, other),
{
    lemma_link_position_valid(e, r);
    lemma_link_position_valid(e, other);
    match link_position(e, r) {
        Some(p) => {
            lemma_link_position_update(e, p, (r, ids), r);
            lemma_link_position_update(e, p, (r, ids), other);
        },
        None => {
            lemma_link_position_push(e, (r, ids), r);
            lemma_link_position_push(e, (r, ids), other);
        },
    }
}

} // verus!

//! Builder for constructing `Item` instances.
use vstd::prelude::*;

use super::adr::{status_id, AdrStatus};
use super::field::FieldValue;
use super::item::{entry_value, is_requirement, Item, ItemAttributes, ItemId, ItemType};
use super::metadata::SourceLocation;
use super::relationship::Relationship;
use crate::error::SaraError;

verus! {

/// The attribute fields an item of type `t` must carry: the specification
/// for requirements; the status and the deciders for decision records.
pub open spec fn required_fields(t: ItemType) -> Seq<Seq<char>> {
    if is_requirement(t) {
        seq!["specification"@]
    } else if t == ItemType::ArchitectureDecisionRecord {
        seq!["status"@, "deciders"@]
    } else {
        seq![]
    }
}

/// True if the entry under `field` is present, and non-empty when a list.
pub open spec fn field_satisfied(e: Seq<(String, FieldValue)>, field: Seq<char>) -> bool {
    match entry_value(e, field) {
        Some(FieldValue::List(l)) => l@.len() > 0,
        Some(_) => true,
        None => false,
    }
}

/// The first of `fields` that is not satisfied, if any.
pub open spec fn first_unsatisfied(e: Seq<(String, FieldValue)>, fields: Seq<Seq<char>>) -> Option<Seq<char>>
    decreases fields.len(),
{
    if fields.len() == 0 {
        None
    } else if !field_satisfied(e, fields[0]) {
        Some(fields[0])
    } else {
        first_unsatisfied(e, fields.drop_first())
    }
}

/// The list under `field` after appending `value`: the existing list
/// extended, or a new one-element list when the entry is absent or not a
/// list.
pub open spec fn appended_list(e: Seq<(String, FieldValue)>, field: Seq<char>, value: FieldValue) -> Seq<FieldValue> {
    match entry_value(e, field) {
        Some(FieldValue::List(l)) => l@.push(value),
        _ => seq![value],
    }
}

/// Appends `value` to the list stored under `field`, creating the list if
/// the entry is absent and replacing a value that is not a list. The
/// entry keeps its place; the other entries are unchanged.
pub fn push_value(attrs: &mut ItemAttributes, field: &str, value: FieldValue)
    ensures
        entry_value(final(attrs).entries(), field@) matches Some(FieldValue::List(l)) && l@
            == appended_list(old(attrs).entries(), field@, value),
        forall|k: Seq<char>|
            k != field@ ==> #[trigger] entry_value(final(attrs).entries(), k) == entry_value(
                old(attrs).entries(),
                k,
            ),
{
    let ghost e0 = attrs.entries();
    let previous = attrs.insert(field.to_owned(), FieldValue::List(Vec::new()));
    let ghost e1 = attrs.entries();
    let mut list: Vec<FieldValue> = match previous {
        Some(FieldValue::List(existing)) => existing,
        _ => Vec::new(),
    };
    proof {
        super::attribute_map::lemma_key_position_valid(e0, field@);
    }
    assert(list@ == match entry_value(e0, field@) {
        Some(FieldValue::List(l)) => l@,
        _ => Seq::<FieldValue>::empty(),
    });
    list.push(value);
    let ghost l = list@;
    attrs.insert(field.to_owned(), FieldValue::List(list));
    assert(l == appended_list(e0, field@, value));
}

/// The file path of an optional source, empty when there is none.
pub open spec fn source_path(s: Option<SourceLocation>) -> Seq<char> {
    match s {
        Some(s) => s.file_path@,
        None => Seq::<char>::empty(),
    }
}

/// Builder for constructing `Item` instances from parsed frontmatter.
pub struct ItemBuilder {
    id: Option<ItemId>,
    item_type: Option<ItemType>,
    name: Option<String>,
    description: Option<String>,
    source: Option<SourceLocation>,
    relationships: Vec<Relationship>,
    attributes: ItemAttributes,
}

impl ItemBuilder {
    /// The identifier set so far.
    pub closed spec fn id_of(&self) -> Option<ItemId> {
        self.id
    }

    /// The type set so far.
    pub closed spec fn type_of(&self) -> Option<ItemType> {
        self.item_type
    }

    /// The name set so far.
    pub closed spec fn name_of(&self) -> Option<String> {
        self.name
    }

    /// The description set so far.
    pub closed spec fn description_of(&self) -> Option<String> {
        self.description
    }

    /// The source location set so far.
    pub closed spec fn source_of(&self) -> Option<SourceLocation> {
        self.source
    }

    /// The relationships added so far.
    pub closed spec fn relationships_of(&self) -> Seq<Relationship> {
        self.relationships@
    }

    /// The attributes accumulated so far.
    pub closed spec fn attributes_of(&self) -> ItemAttributes {
        self.attributes
    }

    /// True if `other` has the same settings as `self` except the
    /// attributes.
    pub open spec fn same_but_attributes(&self, other: &ItemBuilder) -> bool {
        &&& other.id_of() == self.id_of()
        &&& other.type_of() == self.type_of()
        &&& other.name_of() == self.name_of()
        &&& other.description_of() == self.description_of()
        &&& other.source_of() == self.source_of()
        &&& other.relationships_of() == self.relationships_of()
    }

    /// Creates a new `ItemBuilder` with nothing set.
    pub fn new() -> (r: ItemBuilder)
        ensures
            r.id_of() is None,
            r.type_of() is None,
            r.name_of() is None,
            r.description_of() is None,
            r.source_of() is None,
            r.relationships_of() == Seq::<Relationship>::empty(),
            r.attributes_of().entries() == Seq::<(String, FieldValue)>::empty(),
    {
        ItemBuilder {
            id: None,
            item_type: None,
            name: None,
            description: None,
            source: None,
            relationships: Vec::new(),
            attributes: ItemAttributes::new(),
        }
    }

    /// Sets the item ID.
    pub fn id(self, id: ItemId) -> (r: ItemBuilder)
        ensures
            r.id_of() == Some(id),
            r.type_of() == self.type_of(),
            r.name_of() == self.name_of(),
            r.description_of() == self.description_of(),
            r.source_of() == self.source_of(),
            r.relationships_of() == self.relationships_of(),
            r.attributes_of() == self.attributes_of(),
    {
        ItemBuilder { id: Some(id), ..self }
    }

    /// Sets the item type.
    pub fn item_type(self, item_type: ItemType) -> (r: ItemBuilder)
        ensures
            r.type_of() == Some(item_type),
            r.id_of() == self.id_of(),
            r.name_of() == self.name_of(),
            r.description_of() == self.description_of(),
            r.source_of() == self.source_of(),
            r.relationships_of() == self.relationships_of(),
            r.attributes_of() == self.attributes_of(),
    {
        ItemBuilder { item_type: Some(item_type), ..self }
    }

    /// Sets the item name.
    pub fn name(self, name: &str) -> (r: ItemBuilder)
        ensures
            r.name_of() matches Some(n) && n@ == name@,
            r.id_of() == self.id_of(),
            r.type_of() == self.type_of(),
            r.description_of() == self.description_of(),
            r.source_of() == self.source_of(),
            r.relationships_of() == self.relationships_of(),
            r.attributes_of() == self.attributes_of(),
    {
        ItemBuilder { name: Some(name.to_owned()), ..self }
    }

    /// Sets the item description.
    pub fn description(self, desc: &str) -> (r: ItemBuilder)
        ensures
            r.description_of() matches Some(d) && d@ == desc@,
            r.id_of() == self.id_of(),
            r.type_of() == self.type_of(),
            r.name_of() == self.name_of(),
            r.source_of() == self.source_of(),
            r.relationships_of() == self.relationships_of(),
            r.attributes_of() == self.attributes_of(),
    {
        ItemBuilder { description: Some(desc.to_owned()), ..self }
    }

    /// Sets the source location.
    pub fn source(self, source: SourceLocation) -> (r: ItemBuilder)
        ensures
            r.source_of() == Some(source),
            r.id_of() == self.id_of(),
            r.type_of() == self.type_of(),
            r.name_of() == self.name_of(),
            r.description_of() == self.description_of(),
            r.relationships_of() == self.relationships_of(),
            r.attributes_of() == self.attributes_of(),
    {
        ItemBuilder { source: Some(source), ..self }
    }

    /// Adds relationships for this item, after those already added.
    pub fn relationships(self, relationships: Vec<Relationship>) -> (r: ItemBuilder)
        ensures
            r.relationships_of() == self.relationships_of() + relationships@,
            r.id_of() == self.id_of(),
            r.type_of() == self.type_of(),
            r.name_of() == self.name_of(),
            r.description_of() == self.description_of(),
            r.source_of() == self.source_of(),
            r.attributes_of() == self.attributes_of(),
    {
        let mut rels = self.relationships;
        let mut more = relationships;
        rels.append(&mut more);
        ItemBuilder { relationships: rels, ..self }
    }

    /// Sets one attribute, keeping everything else.
    fn with_attribute(self, name: &str, value: FieldValue) -> (r: ItemBuilder)
        ensures
            self.same_but_attributes(&r),
            entry_value(r.attributes_of().entries(), name@) == Some(value),
            forall|k: Seq<char>|
                k != name@ ==> #[trigger] entry_value(r.attributes_of().entries(), k) == entry_value(
                    self.attributes_of().entries(),
                    k,
                ),
    {
        let mut attributes = self.attributes;
        attributes.insert(name.to_owned(), value);
        ItemBuilder { attributes, ..self }
    }

    /// Appends a value to one list attribute, keeping everything else.
    fn with_appended(self, name: &str, value: FieldValue) -> (r: ItemBuilder)
        ensures
            self.same_but_attributes(&r),
            entry_value(r.attributes_of().entries(), name@) matches Some(FieldValue::List(l)) && l@
                == appended_list(self.attributes_of().entries(), name@, value),
            forall|k: Seq<char>|
                k != name@ ==> #[trigger] entry_value(r.attributes_of().entries(), k) == entry_value(
                    self.attributes_of().entries(),
                    k,
                ),
    {
        let mut attributes = self.attributes;
        push_value(&mut attributes, name, value);
        ItemBuilder { attributes, ..self }
    }

    /// Sets the specification text (for requirement types).
    pub fn specification(self, spec: &str) -> (r: ItemBuilder)
        ensures
            self.same_but_attributes(&r),
            entry_value(r.attributes_of().entries(), "specification"@) matches Some(
                FieldValue::Text(t),
            ) && t@ == spec@,
            forall|k: Seq<char>|
                k != "specification"@ ==> #[trigger] entry_value(r.attributes_of().entries(), k)
                    == entry_value(self.attributes_of().entries(), k),
    {
        self.with_attribute("specification", FieldValue::Text(spec.to_owned()))
    }

    /// Sets the platform (for `SystemArchitecture`).
    pub fn platform(self, platform: &str) -> (r: ItemBuilder)
        ensures
            self.same_but_attributes(&r),
            entry_value(r.attributes_of().entries(), "platform"@) matches Some(FieldValue::Text(t))
                && t@ == platform@,
            forall|k: Seq<char>|
                k != "platform"@ ==> #[trigger] entry_value(r.attributes_of().entries(), k)
                    == entry_value(self.attributes_of().entries(), k),
    {
        self.with_attribute("platform", FieldValue::Text(platform.to_owned()))
    }

    /// Adds a peer dependency: a reference appended to the `depends_on`
    /// list attribute.
    pub fn depends_on(self, id: ItemId) -> (r: ItemBuilder)
        ensures
            self.same_but_attributes(&r),
            entry_value(r.attributes_of().entries(), "depends_on"@) matches Some(FieldValue::List(l))
                && l@ == appended_list(self.attributes_of().entries(), "depends_on"@, FieldValue::ItemRef(id)),
            forall|k: Seq<char>|
                k != "depends_on"@ ==> #[trigger] entry_value(r.attributes_of().entries(), k)
                    == entry_value(self.attributes_of().entries(), k),
    {
        self.with_appended("depends_on", FieldValue::ItemRef(id))
    }

    /// Sets the ADR status, stored as its identifier.
    pub fn status(self, status: AdrStatus) -> (r: ItemBuilder)
        ensures
            self.same_but_attributes(&r),
            entry_value(r.attributes_of().entries(), "status"@) matches Some(FieldValue::Enum(t))
                && t@ == status_id(status),
            forall|k: Seq<char>|
                k != "status"@ ==> #[trigger] entry_value(r.attributes_of().entries(), k)
                    == entry_value(self.attributes_of().entries(), k),
    {
        self.with_attribute("status", FieldValue::Enum(status.as_str().to_owned()))
    }

    /// Adds a decider (for ADR), appended to the `deciders` list.
    pub fn decider(self, decider: &str) -> (r: ItemBuilder)
        ensures
            self.same_but_attributes(&r),
            entry_value(r.attributes_of().entries(), "deciders"@) matches Some(FieldValue::List(l))
                && l@.drop_last() == match entry_value(self.attributes_of().entries(), "deciders"@) {
                    Some(FieldValue::List(l0)) => l0@,
                    _ => Seq::<FieldValue>::empty(),
                } && l@.len() > 0
                && (l@.last() matches FieldValue::Text(t) && t@ == decider@),
            forall|k: Seq<char>|
                k != "deciders"@ ==> #[trigger] entry_value(r.attributes_of().entries(), k)
                    == entry_value(self.attributes_of().entries(), k),
    {
        let v = FieldValue::Text(decider.to_owned());
        let r = self.with_appended("deciders", v);
        r
    }

    /// Sets the deciders (for ADR), replacing any earlier ones.
    pub fn deciders(self, deciders: Vec<String>) -> (r: ItemBuilder)
        ensures
            self.same_but_attributes(&r),
            entry_value(r.attributes_of().entries(), "deciders"@) matches Some(FieldValue::List(l))
                && super::item::text_values(l@) == super::item::string_views(deciders@)
                && l@.len() == deciders@.len(),
            forall|k: Seq<char>|
                k != "deciders"@ ==> #[trigger] entry_value(r.attributes_of().entries(), k)
                    == entry_value(self.attributes_of().entries(), k),
    {
        let mut list: Vec<FieldValue> = Vec::new();
        let mut rest = deciders;
        let ghost all = rest@;
        while rest.len() > 0
            invariant
                list@.len() + rest@.len() == all.len(),
                rest@ == all.skip(list@.len() as int),
                super::item::text_values(list@) == super::item::string_views(all.take(list@.len() as int)),
            decreases rest.len(),
        {
            let ghost before = list@;
            let d = rest.remove(0);
            assert(d == all[before.len() as int]);
            list.push(FieldValue::Text(d));
            assert(list@.drop_last() =~= before);
            assert(all.take(list@.len() as int).drop_last() =~= all.take(before.len() as int));
            assert(super::item::string_views(all.take(list@.len() as int)) =~= super::item::string_views(
                all.take(before.len() as int),
            ).push(all[before.len() as int]@));
            assert(rest@ =~= all.skip(list@.len() as int));
        }
        assert(all.take(list@.len() as int) =~= all);
        let ghost l = list@;
        let r = self.with_attribute("deciders", FieldValue::List(list));
        r
    }

    /// Adds a supersession: a reference appended to the `supersedes` list
    /// attribute.
    pub fn supersedes(self, id: ItemId) -> (r: ItemBuilder)
        ensures
            self.same_but_attributes(&r),
            entry_value(r.attributes_of().entries(), "supersedes"@) matches Some(FieldValue::List(l))
                && l@ == appended_list(self.attributes_of().entries(), "supersedes"@, FieldValue::ItemRef(id)),
            forall|k: Seq<char>|
                k != "supersedes"@ ==> #[trigger] entry_value(r.attributes_of().entries(), k)
                    == entry_value(self.attributes_of().entries(), k),
    {
        self.with_appended("supersedes", FieldValue::ItemRef(id))
    }

    /// Adds supersessions toward several older ADRs, in order.
    pub fn supersedes_all(self, ids: Vec<ItemId>) -> (r: ItemBuilder)
        ensures
            self.same_but_attributes(&r),
            ids@.len() > 0 ==> (entry_value(r.attributes_of().entries(), "supersedes"@) matches Some(
                FieldValue::List(l),
            ) && super::item::ref_ids(l@) == super::item::entry_ref_ids(
                self.attributes_of().entries(),
                "supersedes"@,
            ) + super::item::id_views(ids@)),
            ids@.len() == 0 ==> r.attributes_of().entries() == self.attributes_of().entries(),
            forall|k: Seq<char>|
                k != "supersedes"@ ==> #[trigger] entry_value(r.attributes_of().entries(), k)
                    == entry_value(self.attributes_of().entries(), k),
    {
        let mut b = self;
        let mut rest = ids;
        let ghost all = rest@;
        let ghost b0 = b;
        assert(all.len() == rest.len());
        let mut added: usize = 0;
        while rest.len() > 0
            invariant
                rest@ == all.skip(added as int),
                added + rest@.len() == all.len(),
                all.len() <= usize::MAX,
                b0.same_but_attributes(&b),
                forall|k: Seq<char>|
                    k != "supersedes"@ ==> #[trigger] entry_value(b.attributes_of().entries(), k)
                        == entry_value(b0.attributes_of().entries(), k),
                added == 0 ==> b.attributes_of().entries() == b0.attributes_of().entries(),
                added > 0 ==> (entry_value(b.attributes_of().entries(), "supersedes"@) matches Some(
                    FieldValue::List(l),
                ) && super::item::ref_ids(l@) == super::item::entry_ref_ids(
                    b0.attributes_of().entries(),
                    "supersedes"@,
                ) + super::item::id_views(all.take(added as int))),
            decreases rest.len(),
        {
            let ghost bb = b;
            let d = rest.remove(0);
            assert(d == all[added as int]);
            let ghost dv = d@;
            b = b.supersedes(d);
            proof {
                let l = match entry_value(b.attributes_of().entries(), "supersedes"@) {
                    Some(FieldValue::List(l)) => l@,
                    _ => seq![],
                };
                assert(l == appended_list(bb.attributes_of().entries(), "supersedes"@, FieldValue::ItemRef(all[added as int])));
                assert(l.drop_last() == match entry_value(bb.attributes_of().entries(), "supersedes"@) {
                    Some(FieldValue::List(l0)) => l0@,
                    _ => Seq::<FieldValue>::empty(),
                });
                assert(super::item::ref_ids(l) == super::item::ref_ids(l.drop_last()) + seq![dv]);
                assert(super::item::id_views(all.take(added + 1)) =~= super::item::id_views(all.take(added as int)).push(dv));
                if added == 0 {
                    assert(super::item::id_views(all.take(0)) =~= Seq::<Seq<char>>::empty());
                    assert(super::item::ref_ids(l.drop_last()) == super::item::entry_ref_ids(bb.attributes_of().entries(), "supersedes"@));
                }
            }
            added += 1;
            assert(rest@ =~= all.skip(added as int));
        }
        assert(all.take(added as int) =~= all);
        b
    }

    /// Appends one item reference per identifier of `ids` to the list
    /// attribute `field`, keeping everything else.
    pub(crate) fn push_refs(self, field: &str, ids: &Vec<String>) -> (r: ItemBuilder)
        ensures
            self.same_but_attributes(&r),
            super::item::entry_ref_ids(r.attributes_of().entries(), field@) == super::item::entry_ref_ids(
                self.attributes_of().entries(),
                field@,
            ) + crate::text::str_views(ids@),
            forall|k: Seq<char>|
                k != field@ ==> #[trigger] entry_value(r.attributes_of().entries(), k) == entry_value(
                    self.attributes_of().entries(),
                    k,
                ),
    {
        let mut b = self;
        let ghost b0 = b;
        let mut i: usize = 0;
        while i < ids.len()
            invariant
                i <= ids.len(),
                b0.same_but_attributes(&b),
                super::item::entry_ref_ids(b.attributes_of().entries(), field@) == super::item::entry_ref_ids(
                    b0.attributes_of().entries(),
                    field@,
                ) + crate::text::str_views(ids@.take(i as int)),
                forall|k: Seq<char>|
                    k != field@ ==> #[trigger] entry_value(b.attributes_of().entries(), k) == entry_value(
                        b0.attributes_of().entries(),
                        k,
                    ),
            decreases ids.len() - i,
        {
            let ghost bb = b;
            let id = ItemId::from_string(ids[i].clone());
            let ghost idv = id@;
            b = b.with_appended(field, FieldValue::ItemRef(id));
            proof {
                let l = appended_list(bb.attributes_of().entries(), field@, FieldValue::ItemRef(id));
                assert(l.drop_last() == match entry_value(bb.attributes_of().entries(), field@) {
                    Some(FieldValue::List(l0)) => l0@,
                    _ => Seq::<FieldValue>::empty(),
                });
                assert(super::item::ref_ids(l) == super::item::ref_ids(l.drop_last()) + seq![idv]);
                assert(crate::text::str_views(ids@.take(i + 1)) =~= crate::text::str_views(ids@.take(i as int)).push(ids@[i as int]@));
            }
            i += 1;
        }
        assert(ids@.take(ids.len() as int) =~= ids@);
        b
    }

    /// Sets the value of a declared field by name.
    pub fn attribute(self, name: &str, value: FieldValue) -> (r: ItemBuilder)
        ensures
            self.same_but_attributes(&r),
            entry_value(r.attributes_of().entries(), name@) == Some(value),
            forall|k: Seq<char>|
                k != name@ ==> #[trigger] entry_value(r.attributes_of().entries(), k) == entry_value(
                    self.attributes_of().entries(),
                    k,
                ),
    {
        self.with_attribute(name, value)
    }

    /// Replaces the entire attribute map with the supplied one.
    pub fn attributes(self, attrs: ItemAttributes) -> (r: ItemBuilder)
        ensures
            self.same_but_attributes(&r),
            r.attributes_of() == attrs,
    {
        ItemBuilder { attributes: attrs, ..self }
    }

    /// Checks the attribute fields the item type requires; a required list
    /// must also be non-empty.
    fn validate_required_attributes(&self, item_type: ItemType, file: &str) -> (r: Result<(), SaraError>)
        ensures
            match first_unsatisfied(self.attributes_of().entries(), required_fields(item_type)) {
                None => r is Ok,
                Some(f) => r matches Err(SaraError::MissingField { field: g, file: h }) && g@ == f
                    && h@ == file@,
            },
    {
        let ghost e = self.attributes.entries();
        let fields: Vec<&str> = if item_type.requires_specification() {
            vec!["specification"]
        } else if item_type.is_adr() {
            vec!["status", "deciders"]
        } else {
            Vec::new()
        };
        proof {
            reveal_strlit("specification");
            reveal_strlit("status");
            reveal_strlit("deciders");
        }
        assert(fields@.map_values(|f: &str| f@) =~= required_fields(item_type));
        assert(required_fields(item_type).skip(0) =~= required_fields(item_type));
        let mut i: usize = 0;
        while i < fields.len()
            invariant
                e == self.attributes.entries(),
                i <= fields.len(),
                fields@.map_values(|f: &str| f@) == required_fields(item_type),
                first_unsatisfied(e, required_fields(item_type)) == first_unsatisfied(
                    e,
                    required_fields(item_type).skip(i as int),
                ),
            decreases fields.len() - i,
        {
            let f = fields[i];
            let satisfied = match self.attributes.get(f) {
                Some(FieldValue::List(values)) => values.len() > 0,
                Some(_) => true,
                None => false,
            };
            let ghost rest = required_fields(item_type).skip(i as int);
            assert(rest[0] == f@);
            if !satisfied {
                return Err(SaraError::MissingField { field: f.to_owned(), file: file.to_owned() });
            }
            assert(rest.drop_first() =~= required_fields(item_type).skip(i + 1));
            i += 1;
        }
        Ok(())
    }

    /// The file path of the source, empty when there is none.
    fn source_file(&self) -> (r: String)
        ensures
            r@ == source_path(self.source_of()),
    {
        match &self.source {
            Some(s) => s.file_path.clone(),
            None => String::new(),
        }
    }

    /// Builds the `Item`. A missing id, type, name or source gives
    /// `MissingField` naming it (with the source's file when there is one),
    /// checked in that order; then the attributes the type requires are
    /// checked in the same way.
    pub fn build(self) -> (r: Result<Item, SaraError>)
        ensures
            self.id_of() is None ==> (r matches Err(SaraError::MissingField { field: f, file: p })
                && f@ == "id"@ && p@ == source_path(self.source_of())),
            self.id_of() is Some && self.type_of() is None ==> (r matches Err(
                SaraError::MissingField { field: f, file: p },
            ) && f@ == "type"@ && p@ == source_path(self.source_of())),
            self.id_of() is Some && self.type_of() is Some && self.name_of() is None ==> (r matches Err(
                SaraError::MissingField { field: f, file: p },
            ) && f@ == "name"@ && p@ == source_path(self.source_of())),
            self.id_of() is Some && self.type_of() is Some && self.name_of() is Some
                && self.source_of() is None ==> (r matches Err(
                SaraError::MissingField { field: f, file: p },
            ) && f@ == "source"@ && p@ == Seq::<char>::empty()),
            self.id_of() is Some && self.type_of() is Some && self.name_of() is Some
                && self.source_of() is Some ==> match first_unsatisfied(
                self.attributes_of().entries(),
                required_fields(self.type_of()->0),
            ) {
                Some(f) => r matches Err(SaraError::MissingField { field: g, file: p }) && g@ == f
                    && p@ == self.source_of()->0.file_path@,
                None => r matches Ok(item) && item.id == self.id_of()->0 && item.item_type
                    == self.type_of()->0 && item.name == self.name_of()->0 && item.description
                    == self.description_of() && item.source == self.source_of()->0
                    && item.relationships@ == self.relationships_of() && item.attributes
                    == self.attributes_of(),
            },
    {
        proof {
            reveal_strlit("id");
            reveal_strlit("type");
            reveal_strlit("name");
            reveal_strlit("source");
        }
        if self.id.is_none() {
            let file = self.source_file();
            return Err(SaraError::MissingField { field: "id".to_owned(), file });
        }
        if self.item_type.is_none() {
            let file = self.source_file();
            return Err(SaraError::MissingField { field: "type".to_owned(), file });
        }
        if self.name.is_none() {
            let file = self.source_file();
            return Err(SaraError::MissingField { field: "name".to_owned(), file });
        }
        if self.source.is_none() {
            return Err(SaraError::MissingField { field: "source".to_owned(), file: String::new() });
        }
        let item_type = self.item_type.unwrap();
        let file_path = self.source_file();
        match self.validate_required_attributes(item_type, file_path.as_str()) {
            Ok(()) => {},
            Err(e) => return Err(e),
        }
        let ItemBuilder { id, item_type: _, name, description, source, relationships, attributes } =
            self;
        Ok(
            Item {
                id: id.unwrap(),
                item_type,
                name: name.unwrap(),
                description,
                source: source.unwrap(),
                relationships,
                attributes,
            },
        )
    }
}

} // verus!

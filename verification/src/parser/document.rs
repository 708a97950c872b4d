//! Items from parsed frontmatter: the fields each item type keeps, and the
//! relationships the frontmatter declares.
use vstd::prelude::*;

use super::frontmatter::{body_text, extract_body, extract_frontmatter, frontmatter_text, is_delimiter_line};
use crate::text::lines;
use crate::error::SaraError;
use crate::init::service::rel_views;
use crate::model::adr::status_id;
use crate::model::item::{entry_ref_ids, entry_value, is_requirement, string_views, text_values, valid_id_chars};
use crate::model::relationship::{all_relations, direction_of, relation_id};
use crate::model::{
    AdrStatus, FieldValue, Item, ItemBuilder, ItemId, ItemType, RelationDirection, Relationship,
    RelationshipType, SourceLocation,
};
use crate::text::{chars_to_string, extend_str, opt_view, str_views};

verus! {

/// The frontmatter of a document, as read from its YAML.
pub struct RawFrontmatter {
    /// Unique identifier (required).
    pub id: String,
    /// Item type (required).
    pub item_type: ItemType,
    /// Human-readable name (required).
    pub name: String,
    /// Description.
    pub description: Option<String>,
    /// Specification statement (requirements).
    pub specification: Option<String>,
    /// Target platform (system architectures).
    pub platform: Option<String>,
    /// Peer requirements this one depends on.
    pub depends_on: Vec<String>,
    /// Decision status (decision records).
    pub status: Option<AdrStatus>,
    /// Decision makers (decision records).
    pub deciders: Vec<String>,
    /// Older decision records this one supersedes.
    pub supersedes: Vec<String>,
    /// The relation entries: each key with its target IDs, in order.
    pub relations: Vec<(String, Vec<String>)>,
}

/// The relation entries as texts.
pub open spec fn relation_entries(v: Seq<(String, Vec<String>)>) -> Seq<(Seq<char>, Seq<Seq<char>>)> {
    v.map_values(|e: (String, Vec<String>)| (e.0@, str_views(e.1@)))
}

/// The targets of the first entry with key `k`, if any.
pub open spec fn entry_targets(e: Seq<(Seq<char>, Seq<Seq<char>>)>, k: Seq<char>) -> Option<Seq<Seq<char>>>
    decreases e.len(),
{
    if e.len() == 0 {
        None
    } else if e[0].0 == k {
        Some(e[0].1)
    } else {
        entry_targets(e.drop_first(), k)
    }
}

/// The relationships toward `ids` of relation `r`.
pub open spec fn relations_to(ids: Seq<Seq<char>>, r: RelationshipType) -> Seq<(Seq<char>, RelationshipType)>
    decreases ids.len(),
{
    if ids.len() == 0 {
        seq![]
    } else {
        relations_to(ids.drop_last(), r).push((ids.last(), r))
    }
}

/// The relationships declared by the entries, relation by relation in
/// catalog order among the first `n` relations: for each upstream or
/// downstream relation, the targets of the entry under its id. Peer
/// relations are kept as attributes instead.
pub open spec fn declared_relations_upto(e: Seq<(Seq<char>, Seq<Seq<char>>)>, n: int) -> Seq<(Seq<char>, RelationshipType)>
    decreases n,
{
    if n <= 0 {
        seq![]
    } else {
        let r = all_relations()[n - 1];
        declared_relations_upto(e, n - 1) + if direction_of(r) != RelationDirection::Peer {
            match entry_targets(e, relation_id(r)) {
                Some(ids) => relations_to(ids, r),
                None => seq![],
            }
        } else {
            seq![]
        }
    }
}

/// The relationships the frontmatter declares.
pub open spec fn frontmatter_relations(fm: RawFrontmatter) -> Seq<(Seq<char>, RelationshipType)> {
    declared_relations_upto(relation_entries(fm.relations@), 12)
}

impl RawFrontmatter {
    /// The targets under key `k`, when an entry has it.
    fn targets_of(&self, k: &str) -> (r: Option<&Vec<String>>)
        ensures
            match entry_targets(relation_entries(self.relations@), k@) {
                Some(ids) => r matches Some(v) && str_views(v@) == ids,
                None => r is None,
            },
    {
        let ghost e = relation_entries(self.relations@);
        let kc = crate::text::str_chars(k);
        let mut i: usize = 0;
        assert(e.skip(0) =~= e);
        while i < self.relations.len()
            invariant
                e == relation_entries(self.relations@),
                kc@ == k@,
                i <= self.relations.len(),
                entry_targets(e, k@) == entry_targets(e.skip(i as int), k@),
            decreases self.relations.len() - i,
        {
            assert(e.skip(i as int)[0] == e[i as int]);
            assert(e[i as int] == (self.relations@[i as int].0@, str_views(self.relations@[i as int].1@)));
            if crate::text::chars_eq(&crate::text::str_chars(self.relations[i].0.as_str()), &kc) {
                return Some(&self.relations[i].1);
            }
            assert(e.skip(i as int).drop_first() =~= e.skip(i + 1));
            i += 1;
        }
        None
    }

    /// The relationships the frontmatter declares: for each upstream or
    /// downstream relation, in catalog order, one relationship per target
    /// of the entry under the relation's id.
    pub fn to_relationships(&self) -> (r: Vec<Relationship>)
        ensures
            rel_views(r@) == frontmatter_relations(*self),
    {
        let ghost e = relation_entries(self.relations@);
        let all = RelationshipType::all();
        let mut rels: Vec<Relationship> = Vec::new();
        let mut i: usize = 0;
        while i < all.len()
            invariant
                e == relation_entries(self.relations@),
                all@ == all_relations(),
                i <= all.len(),
                rel_views(rels@) == declared_relations_upto(e, i as int),
            decreases all.len() - i,
        {
            let r = all[i];
            let ghost before = rel_views(rels@);
            if !r.is_peer() {
                match self.targets_of(r.as_str()) {
                    Some(ids) => {
                        let mut j: usize = 0;
                        while j < ids.len()
                            invariant
                                j <= ids.len(),
                                rel_views(rels@) == before + relations_to(str_views(ids@).take(j as int), r),
                            decreases ids.len() - j,
                        {
                            let ghost mid = rel_views(rels@);
                            rels.push(Relationship::new(ItemId::new_unchecked(ids[j].as_str()), r));
                            assert(rel_views(rels@) =~= mid.push((ids@[j as int]@, r)));
                            assert(str_views(ids@).take(j + 1).drop_last() =~= str_views(ids@).take(j as int));
                            j += 1;
                        }
                        assert(str_views(ids@).take(ids.len() as int) =~= str_views(ids@));
                    },
                    None => {},
                }
            }
            assert(rel_views(rels@) =~= declared_relations_upto(e, i + 1));
            i += 1;
        }
        rels
    }
}

/// The field an item built from the frontmatter misses: the
/// specification of a requirement; the status, then the deciders, of a
/// decision record.
pub open spec fn missing_field(fm: RawFrontmatter) -> Option<Seq<char>> {
    if is_requirement(fm.item_type) {
        if fm.specification is None {
            Some("specification"@)
        } else {
            None
        }
    } else if fm.item_type == ItemType::ArchitectureDecisionRecord {
        if fm.status is None {
            Some("status"@)
        } else if fm.deciders@.len() == 0 {
            Some("deciders"@)
        } else {
            None
        }
    } else {
        None
    }
}

/// The attribute keys an item of type `t` takes from its frontmatter.
pub open spec fn parsed_keys(t: ItemType) -> Set<Seq<char>> {
    if is_requirement(t) {
        set!["specification"@, "depends_on"@]
    } else if t == ItemType::SystemArchitecture {
        set!["platform"@]
    } else if t == ItemType::ArchitectureDecisionRecord {
        set!["status"@, "deciders"@, "supersedes"@]
    } else {
        set![]
    }
}

/// True if the attribute entries hold what the frontmatter gives the
/// item's type: its specification and dependencies for a requirement, its
/// platform for a system architecture, its status, deciders and
/// supersessions for a decision record, and nothing else.
pub open spec fn parsed_attributes(fm: RawFrontmatter, e: Seq<(String, FieldValue)>) -> bool {
    &&& forall|k: Seq<char>| !parsed_keys(fm.item_type).contains(k) ==> #[trigger] entry_value(e, k) is None
    &&& is_requirement(fm.item_type) ==> {
        &&& match fm.specification {
            Some(s) => entry_value(e, "specification"@) matches Some(FieldValue::Text(t)) && t@ == s@,
            None => entry_value(e, "specification"@) is None,
        }
        &&& if fm.depends_on@.len() > 0 {
            entry_value(e, "depends_on"@) matches Some(FieldValue::List(_)) && entry_ref_ids(e, "depends_on"@)
                == str_views(fm.depends_on@)
        } else {
            entry_value(e, "depends_on"@) is None
        }
    }
    &&& fm.item_type == ItemType::SystemArchitecture ==> match fm.platform {
        Some(p) => entry_value(e, "platform"@) matches Some(FieldValue::Text(t)) && t@ == p@,
        None => entry_value(e, "platform"@) is None,
    }
    &&& fm.item_type == ItemType::ArchitectureDecisionRecord ==> {
        &&& match fm.status {
            Some(s) => entry_value(e, "status"@) matches Some(FieldValue::Enum(t)) && t@ == status_id(s),
            None => entry_value(e, "status"@) is None,
        }
        &&& entry_value(e, "deciders"@) matches Some(FieldValue::List(l)) && text_values(l@) == string_views(
            fm.deciders@,
        ) && l@.len() == fm.deciders@.len()
        &&& if fm.supersedes@.len() > 0 {
            entry_value(e, "supersedes"@) matches Some(FieldValue::List(_)) && entry_ref_ids(e, "supersedes"@)
                == str_views(fm.supersedes@)
        } else {
            entry_value(e, "supersedes"@) is None
        }
    }
}

/// Why an identifier is not a valid item ID.
pub open spec fn id_error_reason(id: Seq<char>) -> Seq<char> {
    if id.len() == 0 {
        "Item ID cannot be empty"@
    } else {
        "Item ID must contain only alphanumeric characters, hyphens, and underscores"@
    }
}

/// Gives the builder the attributes the frontmatter holds for a
/// requirement.
fn requirement_attributes(b: ItemBuilder, fm: &RawFrontmatter) -> (r: ItemBuilder)
    requires
        is_requirement(fm.item_type),
        b.attributes_of().entries() == Seq::<(String, FieldValue)>::empty(),
    ensures
        b.same_but_attributes(&r),
        parsed_attributes(*fm, r.attributes_of().entries()),
{
    proof {
        reveal_strlit("specification");
        reveal_strlit("depends_on");
        assert("specification"@.len() != "depends_on"@.len());
    }
    let ghost empty = Seq::<(String, FieldValue)>::empty();
    assert(forall|k: Seq<char>| #[trigger] entry_value(empty, k) is None);
    let mut r = b;
    match &fm.specification {
        Some(spec) => {
            r = r.specification(spec.as_str());
        },
        None => {},
    }
    let ghost spec_entry = entry_value(r.attributes_of().entries(), "specification"@);
    assert(entry_value(r.attributes_of().entries(), "depends_on"@) is None);
    let mut j: usize = 0;
    while j < fm.depends_on.len()
        invariant
            "specification"@ != "depends_on"@,
            b.same_but_attributes(&r),
            spec_entry == entry_value(r.attributes_of().entries(), "specification"@),
            match fm.specification {
                Some(s) => spec_entry matches Some(FieldValue::Text(t)) && t@ == s@,
                None => spec_entry is None,
            },
            j <= fm.depends_on.len(),
            forall|k: Seq<char>|
                k != "specification"@ && k != "depends_on"@ ==> #[trigger] entry_value(
                    r.attributes_of().entries(),
                    k,
                ) is None,
            j == 0 ==> entry_value(r.attributes_of().entries(), "depends_on"@) is None,
            j > 0 ==> (entry_value(r.attributes_of().entries(), "depends_on"@) matches Some(FieldValue::List(_))
                && entry_ref_ids(r.attributes_of().entries(), "depends_on"@) == str_views(
                fm.depends_on@.take(j as int),
            )),
        decreases fm.depends_on.len() - j,
    {
        let ghost before = r.attributes_of().entries();
        let id = ItemId::new_unchecked(fm.depends_on[j].as_str());
        r = r.depends_on(id);
        let ghost after = r.attributes_of().entries();
        assert(entry_value(after, "specification"@) == entry_value(before, "specification"@));
        let ghost l = match entry_value(after, "depends_on"@) {
            Some(FieldValue::List(l)) => l@,
            _ => seq![],
        };
        assert(l.drop_last() =~= match entry_value(before, "depends_on"@) {
            Some(FieldValue::List(l0)) => l0@,
            _ => Seq::<FieldValue>::empty(),
        });
        assert(crate::model::item::ref_ids(l) == crate::model::item::ref_ids(l.drop_last()) + seq![
            fm.depends_on@[j as int]@,
        ]);
        assert(str_views(fm.depends_on@.take(j + 1)) =~= str_views(fm.depends_on@.take(j as int)).push(
            fm.depends_on@[j as int]@,
        ));
        if j == 0 {
            assert(crate::model::item::ref_ids(l.drop_last()) =~= Seq::<Seq<char>>::empty());
        }
        j += 1;
    }
    assert(fm.depends_on@.take(fm.depends_on.len() as int) =~= fm.depends_on@);
    r
}

/// Gives the builder the attributes the frontmatter holds for a decision
/// record.
fn decision_attributes(b: ItemBuilder, fm: &RawFrontmatter) -> (r: ItemBuilder)
    requires
        fm.item_type == ItemType::ArchitectureDecisionRecord,
        b.attributes_of().entries() == Seq::<(String, FieldValue)>::empty(),
    ensures
        b.same_but_attributes(&r),
        parsed_attributes(*fm, r.attributes_of().entries()),
{
    let mut ids: Vec<ItemId> = Vec::new();
    let mut j: usize = 0;
    while j < fm.supersedes.len()
        invariant
            j <= fm.supersedes.len(),
            crate::model::item::id_views(ids@) == str_views(fm.supersedes@.take(j as int)),
        decreases fm.supersedes.len() - j,
    {
        let ghost before = crate::model::item::id_views(ids@);
        ids.push(ItemId::new_unchecked(fm.supersedes[j].as_str()));
        assert(crate::model::item::id_views(ids@) =~= before.push(fm.supersedes@[j as int]@));
        assert(str_views(fm.supersedes@.take(j + 1)) =~= str_views(fm.supersedes@.take(j as int)).push(
            fm.supersedes@[j as int]@,
        ));
        j += 1;
    }
    assert(fm.supersedes@.take(fm.supersedes.len() as int) =~= fm.supersedes@);
    proof {
        reveal_strlit("status");
        reveal_strlit("deciders");
        reveal_strlit("supersedes");
        assert("status"@.len() != "deciders"@.len());
        assert("status"@.len() != "supersedes"@.len());
        assert("deciders"@.len() != "supersedes"@.len());
    }
    let ghost empty = Seq::<(String, FieldValue)>::empty();
    assert(forall|k: Seq<char>| #[trigger] entry_value(empty, k) is None);
    let r0 = b;
    let r1 = match fm.status {
        Some(s) => r0.status(s),
        None => r0,
    };
    let ghost e1 = r1.attributes_of().entries();
    assert(forall|k: Seq<char>| k != "status"@ ==> #[trigger] entry_value(e1, k) is None);
    let r2 = r1.deciders(crate::text::clone_strings(&fm.deciders));
    let ghost e2 = r2.attributes_of().entries();
    assert(entry_value(e2, "status"@) == entry_value(e1, "status"@));
    assert(entry_value(e2, "supersedes"@) is None);
    let r3 = r2.supersedes_all(ids);
    let ghost e3 = r3.attributes_of().entries();
    assert(entry_value(e3, "status"@) == entry_value(e1, "status"@));
    assert(entry_value(e3, "deciders"@) == entry_value(e2, "deciders"@));
    assert(crate::model::item::entry_ref_ids(e2, "supersedes"@) =~= Seq::<Seq<char>>::empty());
    assert(forall|k: Seq<char>| k != "status"@ && k != "deciders"@ && k != "supersedes"@ ==> #[trigger] entry_value(e3, k) is None);
    r3
}

/// Gives the builder the attributes the frontmatter holds for its type.
fn type_attributes(b: ItemBuilder, fm: &RawFrontmatter) -> (r: ItemBuilder)
    requires
        b.attributes_of().entries() == Seq::<(String, FieldValue)>::empty(),
    ensures
        b.same_but_attributes(&r),
        parsed_attributes(*fm, r.attributes_of().entries()),
{
    proof {
        reveal_strlit("platform");
    }
    match fm.item_type {
        ItemType::SystemRequirement | ItemType::SoftwareRequirement | ItemType::HardwareRequirement => {
            requirement_attributes(b, fm)
        },
        ItemType::SystemArchitecture => {
            match &fm.platform {
                Some(p) => b.platform(p.as_str()),
                None => b,
            }
        },
        ItemType::ArchitectureDecisionRecord => decision_attributes(b, fm),
        _ => b,
    }
}

/// The attributes of the frontmatter satisfy the required fields exactly
/// when nothing is missing.
proof fn lemma_missing_field(fm: RawFrontmatter, e: Seq<(String, FieldValue)>)
    requires
        parsed_attributes(fm, e),
    ensures
        crate::model::builder::first_unsatisfied(e, crate::model::builder::required_fields(fm.item_type))
            == missing_field(fm),
{
    let fields = crate::model::builder::required_fields(fm.item_type);
    let none = Seq::<Seq<char>>::empty();
    assert(crate::model::builder::first_unsatisfied(e, none) is None);
    if is_requirement(fm.item_type) {
        assert(fields.drop_first() =~= none);
        assert(crate::model::builder::field_satisfied(e, "specification"@) == fm.specification is Some);
    } else if fm.item_type == ItemType::ArchitectureDecisionRecord {
        let rest = seq!["deciders"@];
        assert(fields.drop_first() =~= rest);
        assert(rest.drop_first() =~= none);
        assert(crate::model::builder::field_satisfied(e, "status"@) == fm.status is Some);
        assert(crate::model::builder::field_satisfied(e, "deciders"@) == (fm.deciders@.len() > 0));
        assert(crate::model::builder::first_unsatisfied(e, rest) == if fm.deciders@.len() > 0 {
            None
        } else {
            Some("deciders"@)
        });
    } else {
        assert(fields =~= none);
    }
}

/// What building the item of `fm` gives: an invalid ID gives
/// `InvalidFrontmatter` with the reason `Invalid item ID: …`; a missing
/// required field gives `InvalidFrontmatter` with the missing-field
/// message; otherwise the item, whose source is the file in the repository
/// from line 1.
pub open spec fn markdown_item_outcome(
    fm: RawFrontmatter,
    file_path: Seq<char>,
    repository: Seq<char>,
    r: Result<Item, SaraError>,
) -> bool {
    if !(fm.id@.len() > 0 && valid_id_chars(fm.id@)) {
        r matches Err(SaraError::InvalidFrontmatter { file: f, reason: m }) && f@ == file_path && m@
            == "Invalid item ID: "@ + ("Invalid item ID '"@ + fm.id@ + "': "@ + id_error_reason(fm.id@))
    } else {
        match missing_field(fm) {
            Some(k) => r matches Err(SaraError::InvalidFrontmatter { file: f, reason: m }) && f@ == file_path
                && m@ == "Missing required field '"@ + k + "' in "@ + file_path,
            None => r matches Ok(item) && {
                &&& item.id@ == fm.id@
                &&& item.item_type == fm.item_type
                &&& item.name@ == fm.name@
                &&& opt_view(item.description) == opt_view(fm.description)
                &&& item.source.repository@ == repository
                &&& item.source.file_path@ == file_path
                &&& item.source.line == 1
                &&& item.source.git_ref is None
                &&& rel_views(item.relationships@) == frontmatter_relations(fm)
                &&& parsed_attributes(fm, item.attributes.entries())
            },
        }
    }
}

/// Builds the item a document's frontmatter describes (see
/// `markdown_item_outcome`).
pub fn parse_markdown_file(fm: &RawFrontmatter, file_path: &str, repository: &str) -> (r: Result<Item, SaraError>)
    ensures
        markdown_item_outcome(*fm, file_path@, repository@, r),
{
    let item_id = match ItemId::new(fm.id.as_str()) {
        Ok(i) => i,
        Err(e) => {
            let mut reason = crate::text::str_chars("Invalid item ID: ");
            extend_str(&mut reason, e.message().as_str());
            return Err(
                SaraError::InvalidFrontmatter { file: file_path.to_owned(), reason: chars_to_string(&reason) },
            );
        },
    };
    let source = SourceLocation::new(repository, file_path, 1);
    let rels = fm.to_relationships();
    let mut b = ItemBuilder::new().id(item_id).item_type(fm.item_type).name(fm.name.as_str()).source(
        source,
    ).relationships(rels);
    assert(b.relationships_of() =~= rels@);
    match &fm.description {
        Some(d) => {
            b = b.description(d.as_str());
        },
        None => {},
    }
    let b = type_attributes(b, fm);
    proof {
        lemma_missing_field(*fm, b.attributes_of().entries());
    }
    match b.build() {
        Ok(item) => Ok(item),
        Err(e) => Err(SaraError::InvalidFrontmatter { file: file_path.to_owned(), reason: e.message() }),
    }
}

/// A parsed document: its item and the body after the frontmatter.
pub struct ParsedDocument {
    /// The extracted item.
    pub item: Item,
    /// The Markdown body after the frontmatter.
    pub body: String,
}

/// Parses a document whose frontmatter was read as `fm`: without a
/// frontmatter block it fails as `extract_frontmatter` does; otherwise it
/// gives the item `parse_markdown_file` builds (or its error) and the body
/// after the block.
pub fn parse_document(content: &str, fm: &RawFrontmatter, file_path: &str, repository: &str) -> (r: Result<ParsedDocument, SaraError>)
    ensures
        frontmatter_text(content@) is None ==> if lines(content@).len() == 0 || !is_delimiter_line(
            lines(content@)[0],
        ) {
            r matches Err(SaraError::MissingFrontmatter { file: f }) && f@ == file_path@
        } else {
            r matches Err(SaraError::InvalidFrontmatter { file: f, reason: m }) && f@ == file_path@ && m@
                == "Missing closing `---` delimiter"@
        },
        frontmatter_text(content@) is Some ==> markdown_item_outcome(
            *fm,
            file_path@,
            repository@,
            match r {
                Ok(d) => Ok(d.item),
                Err(e) => Err(e),
            },
        ),
        r matches Ok(d) ==> d.body@ == body_text(content@),
{
    match extract_frontmatter(content, file_path) {
        Err(e) => Err(e),
        Ok(_) => match parse_markdown_file(fm, file_path, repository) {
            Err(e) => Err(e),
            Ok(item) => Ok(ParsedDocument { item, body: extract_body(content) }),
        },
    }
}

} // verus!

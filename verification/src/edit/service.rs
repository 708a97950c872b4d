//! Editing an item: validating the requested changes, merging them with
//! the current values, summarizing them and writing the new frontmatter.
use vstd::prelude::*;

use super::options::{EditOptions, EditedValues};
use crate::error::{EditError, SaraError};
use crate::graph::knowledge_graph::{find_last, similar_ids, KnowledgeGraph};
use crate::model::edit::{links_of, FieldChange, TraceabilityLinks};
use crate::model::item::{entry_text, is_requirement, type_display, type_id};
use crate::model::metadata::join_path;
use crate::model::{Item, ItemType, RelationshipType};
use crate::parser::frontmatter::{update_frontmatter, updated_content};
use crate::text::{chars_to_string, clone_opt, extend_str, join, opt_view, replace_char, str_chars, str_views};

verus! {

/// Result of an edit.
pub struct EditResult {
    /// The edited item's ID.
    pub item_id: String,
    /// The edited file.
    pub file_path: String,
    /// The fields that changed.
    pub changes: Vec<FieldChange>,
}

impl EditResult {
    /// Returns true if any field changed.
    pub fn has_changes(&self) -> (r: bool)
        ensures
            r == (self.changes@.len() > 0),
    {
        self.changes.len() > 0
    }

    /// Returns the number of changed fields.
    pub fn change_count(&self) -> (r: usize)
        ensures
            r == self.changes@.len(),
    {
        self.changes.len()
    }
}

/// The current values of an item being edited.
pub struct ItemContext {
    /// The item's ID.
    pub id: String,
    /// The item's type.
    pub item_type: ItemType,
    /// The item's name.
    pub name: String,
    /// The item's description.
    pub description: Option<String>,
    /// The item's specification.
    pub specification: Option<String>,
    /// The item's platform.
    pub platform: Option<String>,
    /// The item's traceability links.
    pub traceability: TraceabilityLinks,
    /// The item's file.
    pub file_path: String,
}

/// True if `c` holds the current values of `item`: its ID, type, name,
/// description, specification, platform, declared links and full path.
pub open spec fn is_context_of(c: ItemContext, item: Item) -> bool {
    &&& c.id@ == item.id@
    &&& c.item_type == item.item_type
    &&& c.name@ == item.name@
    &&& opt_view(c.description) == opt_view(item.description)
    &&& opt_view(c.specification) == opt_view(entry_text(item.attributes.entries(), "specification"@))
    &&& opt_view(c.platform) == opt_view(entry_text(item.attributes.entries(), "platform"@))
    &&& c.traceability.entries() == crate::model::edit::declared_relations(item.item_type).map_values(
        |rel: RelationshipType| (rel, crate::model::item::targets_of(item.relationships@, rel)),
    )
    &&& c.file_path@ == join_path(item.source.repository@, item.source.file_path@)
}

/// True if `v` holds the values after an edit: each requested value, else
/// the current one.
pub open spec fn is_merge_of(v: EditedValues, opts: EditOptions, current: ItemContext) -> bool {
    &&& v.name@ == match opts.name {
        Some(n) => n@,
        None => current.name@,
    }
    &&& opt_view(v.description) == match opts.description {
        Some(d) => Some(d@),
        None => opt_view(current.description),
    }
    &&& opt_view(v.specification) == match opts.specification {
        Some(d) => Some(d@),
        None => opt_view(current.specification),
    }
    &&& opt_view(v.platform) == match opts.platform {
        Some(d) => Some(d@),
        None => opt_view(current.platform),
    }
    &&& links_of(v.traceability.entries(), RelationshipType::Refines) == match opts.refines {
        Some(l) => str_views(l@),
        None => links_of(current.traceability.entries(), RelationshipType::Refines),
    }
    &&& links_of(v.traceability.entries(), RelationshipType::DerivesFrom) == match opts.derives_from {
        Some(l) => str_views(l@),
        None => links_of(current.traceability.entries(), RelationshipType::DerivesFrom),
    }
    &&& links_of(v.traceability.entries(), RelationshipType::Satisfies) == match opts.satisfies {
        Some(l) => str_views(l@),
        None => links_of(current.traceability.entries(), RelationshipType::Satisfies),
    }
}

impl ItemContext {
    /// Collects the current values of an item.
    pub fn from_item(item: &Item) -> (r: ItemContext)
        ensures
            is_context_of(r, *item),
    {
        let specification = match item.attributes.specification() {
            Some(s) => Some(s.clone()),
            None => None,
        };
        let platform = match item.attributes.platform() {
            Some(s) => Some(s.clone()),
            None => None,
        };
        ItemContext {
            id: item.id.as_str().to_owned(),
            item_type: item.item_type,
            name: item.name.clone(),
            description: clone_opt(&item.description),
            specification,
            platform,
            traceability: TraceabilityLinks::from_item(item),
            file_path: item.source.full_path(),
        }
    }
}

/// A change view: field, old value, new value.
pub type ChangeView = (Seq<char>, Seq<char>, Seq<char>);

/// The views of field changes.
pub open spec fn change_views(v: Seq<FieldChange>) -> Seq<ChangeView> {
    v.map_values(|c: FieldChange| (c.field@, c.old_value@, c.new_value@))
}

/// A value for display: the text, or `(none)`.
pub open spec fn or_none(o: Option<Seq<char>>) -> Seq<char> {
    match o {
        Some(s) => s,
        None => "(none)"@,
    }
}

/// References for display: joined with ", ", or `(none)`.
pub open spec fn joined_or_none(ids: Seq<Seq<char>>) -> Seq<char> {
    if ids.len() == 0 {
        "(none)"@
    } else {
        join(ids, ", "@)
    }
}

/// The change of a traceability field, when either side has references.
pub open spec fn traceability_change(field: Seq<char>, old: Seq<Seq<char>>, new: Seq<Seq<char>>) -> Seq<ChangeView> {
    if old.len() == 0 && new.len() == 0 {
        seq![]
    } else {
        seq![(field, joined_or_none(old), joined_or_none(new))]
    }
}

/// The change of an optional field, when either side has a value.
pub open spec fn optional_change(field: Seq<char>, old: Option<Seq<char>>, new: Option<Seq<char>>) -> Seq<ChangeView> {
    if old is Some || new is Some {
        seq![(field, or_none(old), or_none(new))]
    } else {
        seq![]
    }
}

/// The change summary of an edit: name and description always; refines,
/// derives from and satisfies when either side has references;
/// specification and platform when either side has a value.
pub open spec fn change_summary(old: ItemContext, new: EditedValues) -> Seq<ChangeView> {
    seq![
        ("Name"@, old.name@, new.name@),
        ("Description"@, or_none(opt_view(old.description)), or_none(opt_view(new.description))),
    ] + traceability_change(
        "Refines"@,
        links_of(old.traceability.entries(), RelationshipType::Refines),
        links_of(new.traceability.entries(), RelationshipType::Refines),
    ) + traceability_change(
        "Derives from"@,
        links_of(old.traceability.entries(), RelationshipType::DerivesFrom),
        links_of(new.traceability.entries(), RelationshipType::DerivesFrom),
    ) + traceability_change(
        "Satisfies"@,
        links_of(old.traceability.entries(), RelationshipType::Satisfies),
        links_of(new.traceability.entries(), RelationshipType::Satisfies),
    ) + optional_change("Specification"@, opt_view(old.specification), opt_view(new.specification))
        + optional_change("Platform"@, opt_view(old.platform), opt_view(new.platform))
}

/// The changes whose old and new values differ, in order.
pub open spec fn actual_changes(c: Seq<ChangeView>) -> Seq<ChangeView>
    decreases c.len(),
{
    if c.len() == 0 {
        seq![]
    } else {
        actual_changes(c.drop_last()) + if c.last().1 != c.last().2 {
            seq![c.last()]
        } else {
            seq![]
        }
    }
}

/// A text with each `"` escaped as `\"`.
pub open spec fn escape_quotes(s: Seq<char>) -> Seq<char> {
    replace_char(s, '"', seq!['\\', '"'])
}

/// The YAML list lines of the references.
pub open spec fn id_lines(ids: Seq<Seq<char>>) -> Seq<char>
    decreases ids.len(),
{
    if ids.len() == 0 {
        seq![]
    } else {
        id_lines(ids.drop_last()) + "  - \""@ + ids.last() + "\"\n"@
    }
}

/// The YAML block of a traceability field: nothing when it has no
/// references.
pub open spec fn traceability_yaml(field: Seq<char>, ids: Seq<Seq<char>>) -> Seq<char> {
    if ids.len() == 0 {
        seq![]
    } else {
        field + ":\n"@ + id_lines(ids)
    }
}

/// A quoted YAML line for an optional value: nothing when unset.
pub open spec fn quoted_line(field: Seq<char>, v: Option<Seq<char>>) -> Seq<char> {
    match v {
        Some(s) => field + ": \""@ + escape_quotes(s) + "\"\n"@,
        None => seq![],
    }
}

/// The frontmatter YAML written for an edited item.
pub open spec fn frontmatter_yaml(id: Seq<char>, t: ItemType, v: EditedValues) -> Seq<char> {
    "id: \""@ + id + "\"\ntype: "@ + type_id(t) + "\nname: \""@ + escape_quotes(v.name@) + "\"\n"@
        + quoted_line("description"@, opt_view(v.description)) + traceability_yaml(
        "refines"@,
        links_of(v.traceability.entries(), RelationshipType::Refines),
    ) + traceability_yaml("derives_from"@, links_of(v.traceability.entries(), RelationshipType::DerivesFrom))
        + traceability_yaml("satisfies"@, links_of(v.traceability.entries(), RelationshipType::Satisfies))
        + quoted_line("specification"@, opt_view(v.specification)) + quoted_line(
        "platform"@,
        opt_view(v.platform),
    )
}

/// The views of identifier lists.
fn joined(ids: &Vec<String>) -> (r: String)
    ensures
        r@ == joined_or_none(str_views(ids@)),
{
    if ids.len() == 0 {
        return "(none)".to_owned();
    }
    let mut out: Vec<char> = Vec::new();
    crate::error::push_joined(&mut out, ids, ", ");
    assert(crate::error::texts(ids@) =~= str_views(ids@));
    chars_to_string(&out)
}

/// A value for display: the text, or `(none)`.
fn display_or_none(o: &Option<String>) -> (r: String)
    ensures
        r@ == or_none(opt_view(*o)),
{
    match o {
        Some(s) => s.clone(),
        None => "(none)".to_owned(),
    }
}

/// Appends `field: "value"` (escaped) and a line feed.
fn push_quoted(out: &mut Vec<char>, field: &str, value: &str)
    ensures
        final(out)@ == old(out)@ + field@ + ": \""@ + escape_quotes(value@) + "\"\n"@,
{
    extend_str(out, field);
    extend_str(out, ": \"");
    let v = str_chars(value);
    let q = str_chars("\\\"");
    proof {
        reveal_strlit("\\\"");
    }
    assert(q@ =~= seq!['\\', '"']);
    let esc = crate::text::replace_chars(&v, '"', &q);
    crate::text::extend_chars(out, &esc);
    extend_str(out, "\"\n");
}

/// Appends the quoted line of an optional value, when set.
fn push_optional(out: &mut Vec<char>, field: &str, value: &Option<String>)
    ensures
        final(out)@ == old(out)@ + quoted_line(field@, opt_view(*value)),
{
    match value {
        Some(v) => push_quoted(out, field, v.as_str()),
        None => {
            assert(out@ =~= old(out)@ + quoted_line(field@, opt_view(*value)));
        },
    }
}

/// The item editing service.
pub struct EditService;

impl EditService {
    /// Creates a new edit service.
    pub fn new() -> (r: EditService) {
        EditService
    }

    /// Looks up the item to edit; a missing item gives `ItemNotFound` with
    /// up to three similar IDs.
    pub fn lookup_item<'a>(&self, graph: &'a KnowledgeGraph, item_id: &str) -> (r: Result<&'a Item, EditError>)
        ensures
            match find_last(graph.nodes(), item_id@) {
                Some(i) => r == Ok::<&Item, EditError>(&graph.nodes()[i]),
                None => r matches Err(EditError::ItemNotFound { id, suggestions }) && id@ == item_id@
                    && str_views(suggestions@) == similar_ids(graph.nodes(), item_id@, 3).map_values(
                    |s: crate::graph::knowledge_graph::Scored| s.0,
                ),
            },
    {
        match graph.lookup_or_suggest(item_id) {
            Ok(item) => Ok(item),
            Err(SaraError::ItemNotFound { id, suggestions }) => {
                assert(str_views(suggestions@) =~= similar_ids(graph.nodes(), item_id@, 3).map_values(
                    |s: crate::graph::knowledge_graph::Scored| s.0,
                ));
                Err(EditError::ItemNotFound { id, suggestions })
            },
            Err(_) => vstd::pervasive::unreached(),
        }
    }

    /// Collects the current values of an item.
    pub fn get_item_context(&self, item: &Item) -> (r: ItemContext)
        ensures
            is_context_of(r, *item),
    {
        ItemContext::from_item(item)
    }

    /// Checks that the requested changes suit the item type: a
    /// specification only for requirements, a platform only for system
    /// architectures.
    pub fn validate_options(&self, opts: &EditOptions, item_type: ItemType) -> (r: Result<(), EditError>)
        ensures
            (opts.specification is Some && !is_requirement(item_type)) ==> (r matches Err(
                EditError::IoError(m),
            ) && m@ == "--specification is only valid for requirement types, not "@ + type_display(
                item_type,
            )),
            !(opts.specification is Some && !is_requirement(item_type)) && opts.platform is Some
                && item_type != ItemType::SystemArchitecture ==> (r matches Err(EditError::IoError(m))
                && m@ == "--platform is only valid for System Architecture items"@),
            !(opts.specification is Some && !is_requirement(item_type)) && !(opts.platform is Some
                && item_type != ItemType::SystemArchitecture) ==> r is Ok,
    {
        if opts.specification.is_some() && !item_type.requires_specification() {
            let mut m = str_chars("--specification is only valid for requirement types, not ");
            extend_str(&mut m, item_type.display_name());
            return Err(EditError::IoError(chars_to_string(&m)));
        }
        if opts.platform.is_some() && item_type != ItemType::SystemArchitecture {
            return Err(EditError::IoError("--platform is only valid for System Architecture items".to_owned()));
        }
        Ok(())
    }

    /// The values after the edit: each requested value, else the current
    /// one.
    pub fn merge_values(&self, opts: &EditOptions, current: &ItemContext) -> (r: EditedValues)
        ensures
            is_merge_of(r, *opts, *current),
    {
        let name = match &opts.name {
            Some(n) => n.clone(),
            None => current.name.clone(),
        };
        let description = match &opts.description {
            Some(d) => Some(d.clone()),
            None => clone_opt(&current.description),
        };
        let specification = match &opts.specification {
            Some(d) => Some(d.clone()),
            None => clone_opt(&current.specification),
        };
        let platform = match &opts.platform {
            Some(d) => Some(d.clone()),
            None => clone_opt(&current.platform),
        };
        let refines = match &opts.refines {
            Some(v) => crate::text::clone_strings(v),
            None => current.traceability.get(RelationshipType::Refines),
        };
        let derives_from = match &opts.derives_from {
            Some(v) => crate::text::clone_strings(v),
            None => current.traceability.get(RelationshipType::DerivesFrom),
        };
        let satisfies = match &opts.satisfies {
            Some(v) => crate::text::clone_strings(v),
            None => current.traceability.get(RelationshipType::Satisfies),
        };
        let mut links = TraceabilityLinks::new();
        let ghost (rv, dv, sv) = (str_views(refines@), str_views(derives_from@), str_views(satisfies@));
        let ghost e0 = links.entries();
        links.set(RelationshipType::Refines, refines);
        let ghost e1 = links.entries();
        assert(e1 =~= seq![(RelationshipType::Refines, rv)]);
        assert(e1.drop_last() =~= e0);
        assert(e0.len() == 0);
        assert(crate::model::edit::link_position(e0, RelationshipType::DerivesFrom) is None);
        assert(crate::model::edit::link_position(e0, RelationshipType::Satisfies) is None);
        assert(crate::model::edit::link_position(e0, RelationshipType::Refines) is None);
        assert(crate::model::edit::link_position(e1, RelationshipType::DerivesFrom) is None);
        assert(crate::model::edit::link_position(e1, RelationshipType::Satisfies) is None);
        links.set(RelationshipType::DerivesFrom, derives_from);
        let ghost e2 = links.entries();
        assert(e2.drop_last() =~= e1);
        assert(crate::model::edit::link_position(e2, RelationshipType::Satisfies) is None);
        links.set(RelationshipType::Satisfies, satisfies);
        proof {
            let e = links.entries();
            assert(e.drop_last() =~= e2);
            assert(crate::model::edit::link_position(e1, RelationshipType::Refines) == Some(0int));
            assert(crate::model::edit::link_position(e2, RelationshipType::Refines) == Some(0int));
            assert(crate::model::edit::link_position(e, RelationshipType::Refines) == Some(0int));
            assert(crate::model::edit::link_position(e2, RelationshipType::DerivesFrom) == Some(1int));
            assert(crate::model::edit::link_position(e, RelationshipType::DerivesFrom) == Some(1int));
            assert(crate::model::edit::link_position(e, RelationshipType::Satisfies) == Some(2int));
        }
        EditedValues { name, description, specification, platform, traceability: links }
    }

    /// Appends the change of a traceability field when either side has
    /// references.
    fn add_traceability_change(&self, changes: &mut Vec<FieldChange>, field: &str, before: &Vec<String>, after: &Vec<String>)
        ensures
            change_views(final(changes)@) == change_views(old(changes)@) + traceability_change(
                field@,
                str_views(before@),
                str_views(after@),
            ),
    {
        if before.len() == 0 && after.len() == 0 {
            assert(change_views(changes@) =~= change_views(old(changes)@) + Seq::<ChangeView>::empty());
            return;
        }
        let old_str = joined(before);
        let new_str = joined(after);
        changes.push(FieldChange::new(field, old_str.as_str(), new_str.as_str()));
        assert(change_views(changes@) =~= change_views(old(changes)@) + traceability_change(
            field@,
            str_views(before@),
            str_views(after@),
        ));
    }

    /// Appends the change of an optional field when either side has a
    /// value.
    fn add_optional_change(&self, changes: &mut Vec<FieldChange>, field: &str, before: &Option<String>, after: &Option<String>)
        ensures
            change_views(final(changes)@) == change_views(old(changes)@) + optional_change(
                field@,
                opt_view(*before),
                opt_view(*after),
            ),
    {
        if before.is_some() || after.is_some() {
            let o = display_or_none(before);
            let n = display_or_none(after);
            changes.push(FieldChange::new(field, o.as_str(), n.as_str()));
        }
        assert(change_views(changes@) =~= change_views(old(changes)@) + optional_change(
            field@,
            opt_view(*before),
            opt_view(*after),
        ));
    }

    /// Summarizes the changes of an edit, listing every compared field.
    pub fn build_change_summary(&self, old: &ItemContext, new: &EditedValues) -> (r: Vec<FieldChange>)
        ensures
            change_views(r@) == change_summary(*old, *new),
    {
        let mut changes: Vec<FieldChange> = Vec::new();
        changes.push(FieldChange::new("Name", old.name.as_str(), new.name.as_str()));
        let od = display_or_none(&old.description);
        let nd = display_or_none(&new.description);
        changes.push(FieldChange::new("Description", od.as_str(), nd.as_str()));
        assert(change_views(changes@) =~= seq![
            ("Name"@, old.name@, new.name@),
            ("Description"@, or_none(opt_view(old.description)), or_none(opt_view(new.description))),
        ]);
        let o = old.traceability.get(RelationshipType::Refines);
        let n = new.traceability.get(RelationshipType::Refines);
        self.add_traceability_change(&mut changes, "Refines", &o, &n);
        let o = old.traceability.get(RelationshipType::DerivesFrom);
        let n = new.traceability.get(RelationshipType::DerivesFrom);
        self.add_traceability_change(&mut changes, "Derives from", &o, &n);
        let o = old.traceability.get(RelationshipType::Satisfies);
        let n = new.traceability.get(RelationshipType::Satisfies);
        self.add_traceability_change(&mut changes, "Satisfies", &o, &n);
        self.add_optional_change(&mut changes, "Specification", &old.specification, &new.specification);
        self.add_optional_change(&mut changes, "Platform", &old.platform, &new.platform);
        changes
    }

    /// Appends the YAML block of a traceability field.
    fn append_traceability_yaml(&self, yaml: &mut Vec<char>, field: &str, ids: &Vec<String>)
        ensures
            final(yaml)@ == old(yaml)@ + traceability_yaml(field@, str_views(ids@)),
    {
        if ids.len() == 0 {
            return;
        }
        extend_str(yaml, field);
        extend_str(yaml, ":\n");
        let ghost head = yaml@;
        let mut i: usize = 0;
        while i < ids.len()
            invariant
                i <= ids.len(),
                yaml@ == head + id_lines(str_views(ids@.take(i as int))),
            decreases ids.len() - i,
        {
            extend_str(yaml, "  - \"");
            extend_str(yaml, ids[i].as_str());
            extend_str(yaml, "\"\n");
            assert(str_views(ids@.take(i + 1)).drop_last() =~= str_views(ids@.take(i as int)));
            assert(str_views(ids@.take(i + 1)).last() == ids@[i as int]@);
            i += 1;
        }
        assert(ids@.take(ids.len() as int) =~= ids@);
    }

    /// Builds the frontmatter YAML for the edited item: id, type and name;
    /// the description; the refines, derives from and satisfies lists; the
    /// specification and the platform; quotes escaped in free texts.
    pub fn build_frontmatter_yaml(&self, item_id: &str, item_type: ItemType, values: &EditedValues) -> (r: String)
        ensures
            r@ == frontmatter_yaml(item_id@, item_type, *values),
    {
        let mut yaml: Vec<char> = Vec::new();
        extend_str(&mut yaml, "id: \"");
        extend_str(&mut yaml, item_id);
        extend_str(&mut yaml, "\"\ntype: ");
        extend_str(&mut yaml, item_type.as_str());
        extend_str(&mut yaml, "\nname: \"");
        let v = str_chars(values.name.as_str());
        let q = str_chars("\\\"");
        proof {
            reveal_strlit("\\\"");
        }
        assert(q@ =~= seq!['\\', '"']);
        let esc = crate::text::replace_chars(&v, '"', &q);
        crate::text::extend_chars(&mut yaml, &esc);
        extend_str(&mut yaml, "\"\n");
        let ghost head = yaml@;
        assert(head =~= "id: \""@ + item_id@ + "\"\ntype: "@ + type_id(item_type) + "\nname: \""@
            + escape_quotes(values.name@) + "\"\n"@);
        push_optional(&mut yaml, "description", &values.description);
        let ghost h1 = yaml@;
        let refs = values.traceability.get(RelationshipType::Refines);
        self.append_traceability_yaml(&mut yaml, "refines", &refs);
        let refs = values.traceability.get(RelationshipType::DerivesFrom);
        self.append_traceability_yaml(&mut yaml, "derives_from", &refs);
        let refs = values.traceability.get(RelationshipType::Satisfies);
        self.append_traceability_yaml(&mut yaml, "satisfies", &refs);
        let ghost h2 = yaml@;
        push_optional(&mut yaml, "specification", &values.specification);
        push_optional(&mut yaml, "platform", &values.platform);
        assert(yaml@ =~= frontmatter_yaml(item_id@, item_type, *values));
        chars_to_string(&yaml)
    }

    /// Performs an edit on the item's file content: looks the item up,
    /// checks the options, merges the values, and returns the changed
    /// fields together with the content carrying the new frontmatter.
    pub fn edit(&self, graph: &KnowledgeGraph, opts: &EditOptions, content: &str) -> (r: Result<(EditResult, String), EditError>)
        ensures
            find_last(graph.nodes(), opts.item_id@) is None ==> r matches Err(EditError::ItemNotFound { .. }),
            r matches Ok((res, new_content)) ==> {
                &&& find_last(graph.nodes(), opts.item_id@) matches Some(i) && res.item_id@
                    == graph.nodes()[i].id@
                &&& exists|cur: ItemContext, vals: EditedValues|
                    #![trigger change_summary(cur, vals)]
                    is_context_of(cur, graph.nodes()[find_last(graph.nodes(), opts.item_id@)->0])
                        && is_merge_of(vals, *opts, cur) && res.file_path@ == cur.file_path@
                        && cur.id@ == res.item_id@ && change_views(res.changes@) == actual_changes(
                        change_summary(cur, vals),
                    ) && new_content@ == updated_content(
                        content@,
                        frontmatter_yaml(cur.id@, cur.item_type, vals),
                    )
            },
    {
        let item = match self.lookup_item(graph, opts.item_id.as_str()) {
            Ok(item) => item,
            Err(e) => return Err(e),
        };
        let ctx = self.get_item_context(item);
        match self.validate_options(opts, ctx.item_type) {
            Ok(()) => {},
            Err(e) => return Err(e),
        }
        let new_values = self.merge_values(opts, &ctx);
        let all = self.build_change_summary(&ctx, &new_values);
        let ghost cs = change_views(all@);
        let mut all = all;
        let mut kept: Vec<FieldChange> = Vec::new();
        let ghost total = all@;
        assert(total.len() == all.len());
        let mut idx: usize = 0;
        while all.len() > 0
            invariant
                cs == change_views(total),
                all@ == total.skip(idx as int),
                idx + all@.len() == total.len(),
                total.len() <= usize::MAX,
                change_views(kept@) == actual_changes(cs.take(idx as int)),
            decreases all.len(),
        {
            let c = all.remove(0);
            assert(c == total[idx as int]);
            let ghost before = change_views(kept@);
            assert(cs.take(idx + 1).drop_last() =~= cs.take(idx as int));
            assert(cs.take(idx + 1).last() == (c.field@, c.old_value@, c.new_value@));
            if c.is_changed() {
                kept.push(c);
                assert(change_views(kept@) =~= before.push(cs[idx as int]));
            }
            idx += 1;
            assert(all@ =~= total.skip(idx as int));
        }
        assert(cs.take(total.len() as int) =~= cs);
        let yaml = self.build_frontmatter_yaml(ctx.id.as_str(), ctx.item_type, &new_values);
        let new_content = update_frontmatter(content, yaml.as_str());
        let result = EditResult { item_id: ctx.id.clone(), file_path: ctx.file_path.clone(), changes: kept };
        assert(change_summary(ctx, new_values) == cs);
        Ok((result, new_content))
    }
}

} // verus!

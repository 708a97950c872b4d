//! The decisions of interactive item creation: input checks, the choices
//! offered, and the summary shown before confirming. The prompts
//! themselves run in the terminal, outside the library.
use vstd::prelude::*;

use crate::graph::knowledge_graph::KnowledgeGraph;
use crate::model::edit::{links_of, set_links, TraceabilityLinks};
use crate::model::item::{field_name_str, required_parent, traceability_field_of, type_display};
use crate::model::{FieldName, Item, ItemType, RelationshipType};
use crate::text::{
    alphanumeric, char_is_alphanumeric, chars_to_string, extend_str, join, opt_view,
    replace_char, replace_chars, str_byte_len, str_chars, str_views, trim, trim_chars, utf8_len,
};

verus! {

/// Fields given beforehand on the command line: their prompts are skipped.
pub struct PrefilledFields {
    pub file: Option<String>,
    pub item_type: Option<ItemType>,
    pub id: Option<String>,
    pub name: Option<String>,
    pub description: Option<String>,
    pub refines: Vec<String>,
    pub derives_from: Vec<String>,
    pub satisfies: Vec<String>,
    pub specification: Option<String>,
    pub platform: Option<String>,
}

impl Default for PrefilledFields {
    /// Nothing given.
    fn default() -> (r: PrefilledFields)
        ensures
            r.file is None && r.item_type is None && r.id is None && r.name is None,
            r.description is None && r.specification is None && r.platform is None,
            r.refines@.len() == 0 && r.derives_from@.len() == 0 && r.satisfies@.len() == 0,
    {
        PrefilledFields {
            file: None,
            item_type: None,
            id: None,
            name: None,
            description: None,
            refines: Vec::new(),
            derives_from: Vec::new(),
            satisfies: Vec::new(),
            specification: None,
            platform: None,
        }
    }
}

/// Type-specific fields.
pub struct TypeSpecificInput {
    /// For requirement types.
    pub specification: Option<String>,
    /// For SystemArchitecture.
    pub platform: Option<String>,
}

impl Default for TypeSpecificInput {
    /// Neither field.
    fn default() -> (r: TypeSpecificInput)
        ensures
            r.specification is None && r.platform is None,
    {
        TypeSpecificInput { specification: None, platform: None }
    }
}

/// Collected input of an interactive session.
pub struct InteractiveInput {
    pub file: String,
    pub item_type: ItemType,
    pub id: String,
    pub name: String,
    pub description: Option<String>,
    pub traceability: TraceabilityLinks,
    pub type_specific: TypeSpecificInput,
}

/// An option offered in a selection: an item's ID and name.
pub struct SelectOption {
    /// Item ID (e.g., "SOL-001").
    pub id: String,
    /// Item name for display.
    pub name: String,
}

impl SelectOption {
    /// The option as shown: `ID - name`.
    pub fn label(&self) -> (r: String)
        ensures
            r@ == self.id@ + " - "@ + self.name@,
    {
        let mut v = str_chars(self.id.as_str());
        extend_str(&mut v, " - ");
        extend_str(&mut v, self.name.as_str());
        chars_to_string(&v)
    }
}

/// The outcome of checking an answer.
pub enum InputCheck {
    /// The answer is accepted.
    Valid,
    /// The answer is refused, with the reason shown.
    Invalid(String),
}

/// True for the characters an ID may hold: letters, digits, `-` and `_`.
pub open spec fn id_char(c: char) -> bool {
    alphanumeric(c) || c == '-' || c == '_'
}

/// Checks an ID answer: not empty, and only letters, digits, hyphens and
/// underscores.
pub fn check_id(input: &str) -> (r: InputCheck)
    ensures
        input@.len() == 0 ==> (r matches InputCheck::Invalid(m) && m@ == "ID cannot be empty"@),
        input@.len() > 0 && !(forall|i: int| 0 <= i < input@.len() ==> id_char(#[trigger] input@[i])) ==> (
        r matches InputCheck::Invalid(m) && m@
            == "ID must contain only letters, numbers, hyphens, and underscores"@),
        r is Valid <==> (input@.len() > 0 && forall|i: int| 0 <= i < input@.len() ==> id_char(#[trigger] input@[i])),
{
    let v = str_chars(input);
    if v.len() == 0 {
        return InputCheck::Invalid("ID cannot be empty".to_owned());
    }
    let mut i: usize = 0;
    while i < v.len()
        invariant
            v@ == input@,
            i <= v.len(),
            forall|j: int| 0 <= j < i ==> id_char(#[trigger] v@[j]),
        decreases v.len() - i,
    {
        let c = v[i];
        if !(char_is_alphanumeric(c) || c == '-' || c == '_') {
            assert(!id_char(input@[i as int]));
            return InputCheck::Invalid("ID must contain only letters, numbers, hyphens, and underscores".to_owned());
        }
        i += 1;
    }
    InputCheck::Valid
}

/// Checks a name answer: not blank, and at most 200 bytes once trimmed.
pub fn check_name(input: &str) -> (r: InputCheck)
    ensures
        trim(input@).len() == 0 ==> (r matches InputCheck::Invalid(m) && m@ == "Name is required"@),
        trim(input@).len() > 0 && utf8_len(trim(input@)) > 200 ==> (r matches InputCheck::Invalid(m) && m@
            == "Name must be 200 characters or less"@),
        r is Valid <==> (trim(input@).len() > 0 && utf8_len(trim(input@)) <= 200),
{
    let t = trim_chars(&str_chars(input));
    if t.len() == 0 {
        return InputCheck::Invalid("Name is required".to_owned());
    }
    let s = chars_to_string(&t);
    if str_byte_len(s.as_str()) > 200 {
        return InputCheck::Invalid("Name must be 200 characters or less".to_owned());
    }
    InputCheck::Valid
}

/// An optional answer: trimmed, and absent when blank.
pub fn optional_answer(answer: &str) -> (r: Option<String>)
    ensures
        trim(answer@).len() == 0 ==> r is None,
        trim(answer@).len() > 0 ==> opt_view(r) == Some(trim(answer@)),
{
    let t = trim_chars(&str_chars(answer));
    if t.len() == 0 {
        None
    } else {
        Some(chars_to_string(&t))
    }
}

/// The options for the items of type `t` among the first `n`, in order.
pub open spec fn type_options(items: Seq<Item>, t: ItemType, n: int) -> Seq<(Seq<char>, Seq<char>)>
    decreases n,
{
    if n <= 0 {
        seq![]
    } else {
        type_options(items, t, n - 1) + if items[n - 1].item_type == t {
            seq![(items[n - 1].id@, items[n - 1].name@)]
        } else {
            seq![]
        }
    }
}

/// The texts of options.
pub open spec fn option_views(v: Seq<SelectOption>) -> Seq<(Seq<char>, Seq<char>)> {
    v.map_values(|o: SelectOption| (o.id@, o.name@))
}

/// The items of a type offered for selection, in graph order; none without
/// a graph.
pub fn get_items_of_type(graph: Option<&KnowledgeGraph>, item_type: ItemType) -> (r: Vec<SelectOption>)
    ensures
        match graph {
            Some(g) => option_views(r@) == type_options(g.nodes(), item_type, g.nodes().len() as int),
            None => r@.len() == 0,
        },
{
    let mut r: Vec<SelectOption> = Vec::new();
    match graph {
        Some(g) => {
            let items = g.items();
            let mut i: usize = 0;
            while i < items.len()
                invariant
                    items@ == g.nodes(),
                    i <= items.len(),
                    option_views(r@) == type_options(items@, item_type, i as int),
                decreases items.len() - i,
            {
                let ghost before = option_views(r@);
                if items[i].item_type == item_type {
                    let o = SelectOption { id: items[i].id.as_str().to_owned(), name: items[i].name.clone() };
                    r.push(o);
                    assert(option_views(r@) =~= before.push((o.id@, o.name@)));
                }
                assert(option_views(r@) =~= type_options(items@, item_type, i + 1));
                i += 1;
            }
        },
        None => {},
    }
    r
}

/// The positions among the first `n` options whose ID is preselected.
pub open spec fn default_indices(ids: Seq<Seq<char>>, pre: Seq<Seq<char>>, n: int) -> Seq<usize>
    decreases n,
{
    if n <= 0 {
        seq![]
    } else {
        default_indices(ids, pre, n - 1) + if pre.contains(ids[n - 1]) {
            seq![(n - 1) as usize]
        } else {
            seq![]
        }
    }
}

/// The IDs of options.
pub open spec fn option_ids(v: Seq<SelectOption>) -> Seq<Seq<char>> {
    v.map_values(|o: SelectOption| o.id@)
}

/// The positions of the options whose ID is preselected, in order.
pub fn compute_default_indices(options: &Vec<SelectOption>, preselected: &Vec<String>) -> (r: Vec<usize>)
    ensures
        r@ == default_indices(option_ids(options@), str_views(preselected@), options@.len() as int),
{
    let ghost ids = option_ids(options@);
    let ghost pre = str_views(preselected@);
    let mut r: Vec<usize> = Vec::new();
    let mut i: usize = 0;
    while i < options.len()
        invariant
            ids == option_ids(options@),
            pre == str_views(preselected@),
            i <= options.len(),
            r@ == default_indices(ids, pre, i as int),
        decreases options.len() - i,
    {
        let mut found = false;
        let mut j: usize = 0;
        while j < preselected.len()
            invariant
                ids == option_ids(options@),
                pre == str_views(preselected@),
                i < options.len(),
                j <= preselected.len(),
                found == exists|k: int| 0 <= k < j && pre[k] == ids[i as int],
            decreases preselected.len() - j,
        {
            if preselected[j] == options[i].id {
                assert(pre[j as int] == ids[i as int]);
            }
            found = found || preselected[j] == options[i].id;
            j += 1;
        }
        if found {
            r.push(i);
        }
        i += 1;
    }
    r
}

/// The words of a field name: underscores become spaces.
pub open spec fn field_words(f: Seq<char>) -> Seq<char> {
    replace_char(f, '_', " "@)
}

/// The message of the traceability prompt of a type: `Select <parent> this
/// <type> <relation>:`; none for a type without a parent.
pub open spec fn traceability_prompt(t: ItemType) -> Option<Seq<char>> {
    match (required_parent(t), traceability_field_of(t)) {
        (Some(p), Some(f)) => Some(
            "Select "@ + type_display(p) + " this "@ + type_display(t) + " "@ + field_words(field_name_str(f))
                + ":"@,
        ),
        _ => None,
    }
}

/// The message of the traceability prompt of a type.
pub fn traceability_prompt_message(item_type: ItemType) -> (r: Option<String>)
    ensures
        opt_view(r) == traceability_prompt(item_type),
{
    match (item_type.required_parent_type(), item_type.traceability_field()) {
        (Some(p), Some(f)) => {
            let mut v = str_chars("Select ");
            extend_str(&mut v, p.display_name());
            extend_str(&mut v, " this ");
            extend_str(&mut v, item_type.display_name());
            extend_str(&mut v, " ");
            let words = replace_chars(&str_chars(f.as_str()), '_', &str_chars(" "));
            crate::text::extend_chars(&mut v, &words);
            extend_str(&mut v, ":");
            Some(chars_to_string(&v))
        },
        _ => None,
    }
}

/// A summary line with a label, when the value is there.
pub open spec fn summary_opt(label: Seq<char>, v: Option<Seq<char>>) -> Seq<char> {
    match v {
        Some(x) => "\n  "@ + label + x,
        None => seq![],
    }
}

/// A summary line listing IDs, when there are any.
pub open spec fn summary_list(label: Seq<char>, ids: Seq<Seq<char>>) -> Seq<char> {
    if ids.len() == 0 {
        seq![]
    } else {
        "\n  "@ + label + join(ids, ", "@)
    }
}

/// The summary shown before creating the item.
pub open spec fn confirmation_summary(input: InteractiveInput) -> Seq<char> {
    let links = input.traceability.entries();
    "\n  Summary:\n  ────────────────────────────────────\n  Type: "@ + type_display(input.item_type)
        + "\n  ID:   "@ + input.id@ + "\n  Name: "@ + input.name@ + "\n  File: "@ + input.file@
        + summary_opt("Description: "@, opt_view(input.description))
        + summary_list("Refines: "@, links_of(links, RelationshipType::Refines))
        + summary_list("Derives from: "@, links_of(links, RelationshipType::DerivesFrom))
        + summary_list("Satisfies: "@, links_of(links, RelationshipType::Satisfies))
        + summary_opt("Specification: "@, opt_view(input.type_specific.specification))
        + summary_opt("Platform: "@, opt_view(input.type_specific.platform)) + "\n"@
}

/// Appends a labelled summary line when the value is there.
fn push_opt(out: &mut Vec<char>, label: &str, v: &Option<String>)
    ensures
        final(out)@ == old(out)@ + summary_opt(label@, opt_view(*v)),
{
    match v {
        Some(x) => {
            extend_str(out, "\n  ");
            extend_str(out, label);
            extend_str(out, x.as_str());
        },
        None => {},
    }
}

/// Appends a labelled list of IDs when there are any.
fn push_list(out: &mut Vec<char>, label: &str, ids: &Vec<String>)
    ensures
        final(out)@ == old(out)@ + summary_list(label@, str_views(ids@)),
{
    if ids.len() == 0 {
        return;
    }
    extend_str(out, "\n  ");
    extend_str(out, label);
    let ghost start = out@;
    let ghost parts = str_views(ids@);
    let mut i: usize = 0;
    assert(parts.take(0) =~= Seq::<Seq<char>>::empty());
    while i < ids.len()
        invariant
            parts == str_views(ids@),
            i <= ids.len(),
            out@ == start + join(parts.take(i as int), ", "@),
        decreases ids.len() - i,
    {
        assert(parts.take(i + 1).drop_last() =~= parts.take(i as int));
        assert(parts.take(i + 1).last() == ids@[i as int]@);
        if i > 0 {
            extend_str(out, ", ");
        }
        extend_str(out, ids[i].as_str());
        assert(out@ =~= start + join(parts.take(i + 1), ", "@));
        i += 1;
    }
    assert(parts.take(ids.len() as int) =~= parts);
}

/// Builds the summary shown before creating the item: type, ID, name and
/// file, then the description, the refined, derived-from and satisfied
/// items, the specification and the platform when given.
pub fn build_confirmation_summary(input: &InteractiveInput) -> (r: String)
    ensures
        r@ == confirmation_summary(*input),
{
    let mut out = str_chars("\n  Summary:\n  ────────────────────────────────────\n  Type: ");
    extend_str(&mut out, input.item_type.display_name());
    extend_str(&mut out, "\n  ID:   ");
    extend_str(&mut out, input.id.as_str());
    extend_str(&mut out, "\n  Name: ");
    extend_str(&mut out, input.name.as_str());
    extend_str(&mut out, "\n  File: ");
    extend_str(&mut out, input.file.as_str());
    push_opt(&mut out, "Description: ", &input.description);
    push_list(&mut out, "Refines: ", &input.traceability.get(RelationshipType::Refines));
    push_list(&mut out, "Derives from: ", &input.traceability.get(RelationshipType::DerivesFrom));
    push_list(&mut out, "Satisfies: ", &input.traceability.get(RelationshipType::Satisfies));
    push_opt(&mut out, "Specification: ", &input.type_specific.specification);
    push_opt(&mut out, "Platform: ", &input.type_specific.platform);
    extend_str(&mut out, "\n");
    chars_to_string(&out)
}

/// The relation a traceability prompt fills in.
#[derive(Debug, Clone, Copy, PartialEq, Eq, Structural)]
pub enum TraceabilityKind {
    /// Use cases and scenarios refine their parent.
    Refines,
    /// Requirements derive from their parent.
    DerivesFrom,
    /// Designs satisfy their parent.
    Satisfies,
}

/// The kind of a traceability field; any other field falls back to
/// `Refines`.
pub open spec fn kind_of_field(field: FieldName) -> TraceabilityKind {
    match field {
        FieldName::DerivesFrom => TraceabilityKind::DerivesFrom,
        FieldName::Satisfies => TraceabilityKind::Satisfies,
        _ => TraceabilityKind::Refines,
    }
}

/// The relationship type a kind stands for.
pub open spec fn kind_relation(kind: TraceabilityKind) -> RelationshipType {
    match kind {
        TraceabilityKind::Refines => RelationshipType::Refines,
        TraceabilityKind::DerivesFrom => RelationshipType::DerivesFrom,
        TraceabilityKind::Satisfies => RelationshipType::Satisfies,
    }
}

impl TraceabilityKind {
    /// The kind of a traceability field (`Refines` for any other field).
    pub fn from_field(field: FieldName) -> (r: TraceabilityKind)
        ensures
            r == kind_of_field(field),
    {
        match field {
            FieldName::DerivesFrom => TraceabilityKind::DerivesFrom,
            FieldName::Satisfies => TraceabilityKind::Satisfies,
            _ => TraceabilityKind::Refines,
        }
    }

    /// The relationship type this kind stands for.
    pub fn relation(&self) -> (r: RelationshipType)
        ensures
            r == kind_relation(*self),
    {
        match self {
            TraceabilityKind::Refines => RelationshipType::Refines,
            TraceabilityKind::DerivesFrom => RelationshipType::DerivesFrom,
            TraceabilityKind::Satisfies => RelationshipType::Satisfies,
        }
    }
}

/// What the traceability prompt of a type asks: which relation, toward
/// which parent type, with which message.
pub struct TraceabilityPromptConfig {
    /// The relation filled in.
    pub kind: TraceabilityKind,
    /// The type of the items offered.
    pub parent_type: ItemType,
    /// The prompt message.
    pub prompt_message: String,
}

/// The traceability prompt of a type; none for a type without a parent.
pub fn get_traceability_prompt_config(item_type: ItemType) -> (r: Option<TraceabilityPromptConfig>)
    ensures
        match (required_parent(item_type), traceability_field_of(item_type)) {
            (Some(p), Some(f)) => r matches Some(c) && c.kind == kind_of_field(f) && c.parent_type == p
                && Some(c.prompt_message@) == traceability_prompt(item_type),
            _ => r is None,
        },
{
    match (item_type.required_parent_type(), item_type.traceability_field()) {
        (Some(p), Some(f)) => {
            let message = traceability_prompt_message(item_type);
            match message {
                Some(m) => Some(
                    TraceabilityPromptConfig {
                        kind: TraceabilityKind::from_field(f),
                        parent_type: p,
                        prompt_message: m,
                    },
                ),
                None => None,
            }
        },
        _ => None,
    }
}

/// The IDs given beforehand for a kind of relation.
pub fn get_prefilled_for_kind(prefilled: &PrefilledFields, kind: TraceabilityKind) -> (r: &Vec<String>)
    ensures
        *r == match kind {
            TraceabilityKind::Refines => prefilled.refines,
            TraceabilityKind::DerivesFrom => prefilled.derives_from,
            TraceabilityKind::Satisfies => prefilled.satisfies,
        },
{
    match kind {
        TraceabilityKind::Refines => &prefilled.refines,
        TraceabilityKind::DerivesFrom => &prefilled.derives_from,
        TraceabilityKind::Satisfies => &prefilled.satisfies,
    }
}

/// The IDs selected beforehand for a kind of relation (when editing); none
/// without a selection.
pub fn get_preselected_for_kind(preselected: Option<&TraceabilityLinks>, kind: TraceabilityKind) -> (r: Vec<String>)
    ensures
        str_views(r@) == match preselected {
            Some(p) => links_of(p.entries(), kind_relation(kind)),
            None => Seq::<Seq<char>>::empty(),
        },
{
    match preselected {
        Some(p) => p.get(kind.relation()),
        None => {
            let r: Vec<String> = Vec::new();
            assert(str_views(r@) =~= Seq::<Seq<char>>::empty());
            r
        },
    }
}

/// Records the selected IDs as the targets of the kind's relation.
pub fn apply_selection_to_input(input: &mut TraceabilityLinks, kind: TraceabilityKind, ids: Vec<String>)
    ensures
        final(input).entries() == set_links(old(input).entries(), kind_relation(kind), str_views(ids@)),
{
    input.set(kind.relation(), ids);
}

} // verus!

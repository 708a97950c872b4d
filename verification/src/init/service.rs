//! Creating items: resolving their identity and building them from the
//! init options.
use vstd::prelude::*;

use super::options::{config_type, InitOptions, TypeConfig};
use crate::model::adr::status_id;
use crate::model::builder::required_fields;
use crate::model::item::{entry_ref_ids, entry_text, entry_value, formatted_id, text_values};
use crate::model::{AdrStatus, FieldValue, Item, ItemBuilder, ItemId, ItemType, Relationship, RelationshipType, SourceLocation};
use crate::parser::frontmatter::{has_frontmatter, is_delimiter_line};
use crate::parser::markdown::{extract_name_from_content, heading_name};
use crate::text::{chars_to_string, dashes, lines, lowercase, opt_view, str_chars, str_to_lowercase, str_views, trim_start};

verus! {

/// Errors of item initialization.
pub enum InitError {
    /// The file already has frontmatter and overwriting was not requested.
    FrontmatterExists(String),
    /// An option is invalid.
    InvalidOption(String),
    /// Reading or writing the file failed.
    Io(String),
}

/// Result of a successful initialization.
pub struct InitResult {
    /// The item's ID.
    pub id: String,
    /// The item's name.
    pub name: String,
    /// The item's type.
    pub item_type: ItemType,
    /// The file written.
    pub file: String,
    /// Whether an existing file was updated.
    pub updated_existing: bool,
    /// Whether existing frontmatter was replaced.
    pub replaced_frontmatter: bool,
    /// Whether the specification still has to be written.
    pub needs_specification: bool,
}

/// The placeholder specification of a new requirement.
pub open spec fn default_specification() -> Seq<char> {
    "The system SHALL <describe the requirement>."@
}

/// The relationships (target and type) that a configuration declares.
pub open spec fn targets(ids: Seq<String>, t: RelationshipType) -> Seq<(Seq<char>, RelationshipType)> {
    ids.map_values(|s: String| (s@, t))
}

/// The views of relationships.
pub open spec fn rel_views(rels: Seq<Relationship>) -> Seq<(Seq<char>, RelationshipType)> {
    rels.map_values(|r: Relationship| (r.to@, r.relationship_type))
}

/// The relationships a configuration declares: refines for use cases and
/// scenarios, derives from for requirements, satisfies for architectures
/// and designs, justifies then supersedes for decision records.
pub open spec fn config_relationships(tc: TypeConfig) -> Seq<(Seq<char>, RelationshipType)> {
    match tc {
        TypeConfig::Solution => seq![],
        TypeConfig::UseCase { refines } => targets(refines@, RelationshipType::Refines),
        TypeConfig::Scenario { refines } => targets(refines@, RelationshipType::Refines),
        TypeConfig::SystemRequirement { derives_from, .. }
        | TypeConfig::SoftwareRequirement { derives_from, .. }
        | TypeConfig::HardwareRequirement { derives_from, .. } => targets(
            derives_from@,
            RelationshipType::DerivesFrom,
        ),
        TypeConfig::SystemArchitecture { satisfies, .. } => targets(
            satisfies@,
            RelationshipType::Satisfies,
        ),
        TypeConfig::SoftwareDetailedDesign { satisfies } => targets(
            satisfies@,
            RelationshipType::Satisfies,
        ),
        TypeConfig::HardwareDetailedDesign { satisfies } => targets(
            satisfies@,
            RelationshipType::Satisfies,
        ),
        TypeConfig::Adr { justifies, supersedes, .. } => targets(
            justifies@,
            RelationshipType::Justifies,
        ) + targets(supersedes@, RelationshipType::Supersedes),
    }
}

/// The ADR status a configured status text selects: the status with that
/// identifier, proposed otherwise.
pub open spec fn configured_status(s: Option<String>) -> AdrStatus {
    match s {
        Some(t) => if t@ == "accepted"@ {
            AdrStatus::Accepted
        } else if t@ == "deprecated"@ {
            AdrStatus::Deprecated
        } else if t@ == "superseded"@ {
            AdrStatus::Superseded
        } else {
            AdrStatus::Proposed
        },
        None => AdrStatus::Proposed,
    }
}

/// The attributes a configuration sets: a requirement's specification
/// (the placeholder when none is given) and dependencies; an
/// architecture's platform, and nothing else; a decision record's status,
/// deciders (`TBD` when none are given) and superseded records; none for
/// the other types.
pub open spec fn config_attributes(tc: TypeConfig, e: Seq<(String, FieldValue)>) -> bool {
    match tc {
        TypeConfig::SystemRequirement { specification, depends_on, .. }
        | TypeConfig::SoftwareRequirement { specification, depends_on, .. }
        | TypeConfig::HardwareRequirement { specification, depends_on, .. } => {
            &&& entry_text(e, "specification"@) matches Some(t) && t@ == match specification {
                Some(s) => s@,
                None => default_specification(),
            }
            &&& entry_ref_ids(e, "depends_on"@) == str_views(depends_on@)
        },
        TypeConfig::SystemArchitecture { platform, .. } => match platform {
            Some(p) => (entry_text(e, "platform"@) matches Some(t) && t@ == p@) && forall|k: Seq<char>|
                k != "platform"@ ==> #[trigger] entry_value(e, k) is None,
            None => e.len() == 0,
        },
        TypeConfig::Adr { status, deciders, supersedes, .. } => {
            &&& entry_value(e, "status"@) matches Some(FieldValue::Enum(s)) && s@ == status_id(
                configured_status(status),
            )
            &&& entry_value(e, "deciders"@) matches Some(FieldValue::List(l)) && text_values(l@)
                == if deciders@.len() == 0 {
                seq!["TBD"@]
            } else {
                str_views(deciders@)
            } && l@.len() > 0
            &&& entry_ref_ids(e, "supersedes"@) == str_views(supersedes@)
        },
        _ => e.len() == 0,
    }
}

/// Whether a configuration still lacks its specification: only
/// requirements without one do.
pub open spec fn config_needs_specification(tc: TypeConfig) -> bool {
    match tc {
        TypeConfig::SystemRequirement { specification, .. }
        | TypeConfig::SoftwareRequirement { specification, .. }
        | TypeConfig::HardwareRequirement { specification, .. } => specification is None,
        _ => false,
    }
}

/// The names a type can be given by: its identifier, the identifier
/// without underscores, and its lower-case prefix.
pub open spec fn type_aliases(t: ItemType) -> Seq<Seq<char>> {
    match t {
        ItemType::Solution => seq!["solution"@, "sol"@],
        ItemType::UseCase => seq!["use_case"@, "usecase"@, "uc"@],
        ItemType::Scenario => seq!["scenario"@, "scen"@],
        ItemType::SystemRequirement => seq!["system_requirement"@, "systemrequirement"@, "sysreq"@],
        ItemType::SystemArchitecture => seq!["system_architecture"@, "systemarchitecture"@, "sysarch"@],
        ItemType::HardwareRequirement => seq!["hardware_requirement"@, "hardwarerequirement"@, "hwreq"@],
        ItemType::SoftwareRequirement => seq!["software_requirement"@, "softwarerequirement"@, "swreq"@],
        ItemType::HardwareDetailedDesign => seq![
            "hardware_detailed_design"@,
            "hardwaredetaileddesign"@,
            "hwdd"@,
        ],
        ItemType::SoftwareDetailedDesign => seq![
            "software_detailed_design"@,
            "softwaredetaileddesign"@,
            "swdd"@,
        ],
        ItemType::ArchitectureDecisionRecord => seq![
            "architecture_decision_record"@,
            "architecturedecisionrecord"@,
            "adr"@,
        ],
    }
}

/// The first type, from position `i` in hierarchy order, that `s` names.
pub open spec fn aliased_type_from(s: Seq<char>, i: nat) -> Option<ItemType>
    decreases 10 - i,
{
    if i >= 10 {
        None
    } else if type_aliases(crate::model::item::all_types()[i as int]).contains(s) {
        Some(crate::model::item::all_types()[i as int])
    } else {
        aliased_type_from(s, i + 1)
    }
}

/// The exec alias list of a type.
fn aliases_of(t: ItemType) -> (r: Vec<&'static str>)
    ensures
        r@.map_values(|a: &str| a@) == type_aliases(t),
{
    let r = match t {
        ItemType::Solution => vec!["solution", "sol"],
        ItemType::UseCase => vec!["use_case", "usecase", "uc"],
        ItemType::Scenario => vec!["scenario", "scen"],
        ItemType::SystemRequirement => vec!["system_requirement", "systemrequirement", "sysreq"],
        ItemType::SystemArchitecture => vec!["system_architecture", "systemarchitecture", "sysarch"],
        ItemType::HardwareRequirement => vec!["hardware_requirement", "hardwarerequirement", "hwreq"],
        ItemType::SoftwareRequirement => vec!["software_requirement", "softwarerequirement", "swreq"],
        ItemType::HardwareDetailedDesign => vec![
            "hardware_detailed_design",
            "hardwaredetaileddesign",
            "hwdd",
        ],
        ItemType::SoftwareDetailedDesign => vec![
            "software_detailed_design",
            "softwaredetaileddesign",
            "swdd",
        ],
        ItemType::ArchitectureDecisionRecord => vec![
            "architecture_decision_record",
            "architecturedecisionrecord",
            "adr",
        ],
    };
    assert(r@.map_values(|a: &str| a@) =~= type_aliases(t));
    r
}

/// Parses an item type from its identifier, its identifier without
/// underscores or its prefix, in any case.
pub fn parse_item_type(type_str: &str) -> (r: Option<ItemType>)
    ensures
        r == aliased_type_from(lowercase(type_str@), 0),
{
    let lower = str_to_lowercase(type_str);
    let want = str_chars(lower.as_str());
    let all = ItemType::all();
    let mut i: usize = 0;
    while i < all.len()
        invariant
            all@ == crate::model::item::all_types(),
            want@ == lowercase(type_str@),
            i <= all.len(),
            aliased_type_from(want@, 0) == aliased_type_from(want@, i as nat),
        decreases all.len() - i,
    {
        let names = aliases_of(all[i]);
        let mut j: usize = 0;
        let mut found = false;
        while j < names.len()
            invariant
                j <= names.len(),
                found == exists|k: int| 0 <= k < j && (#[trigger] names@[k])@ == want@,
            decreases names.len() - j,
        {
            let name = str_chars(names[j]);
            if crate::text::chars_eq(&name, &want) {
                found = true;
            }
            j += 1;
        }
        assert(found == type_aliases(all@[i as int]).contains(want@)) by {
            let al = type_aliases(all@[i as int]);
            if found {
                let k = choose|k: int| 0 <= k < names@.len() && (#[trigger] names@[k])@ == want@;
                assert(al[k] == want@);
            }
            if al.contains(want@) {
                let k = choose|k: int| 0 <= k < al.len() && al[k] == want@;
                assert(names@[k]@ == want@);
            }
        }
        if found {
            return Some(all[i]);
        }
        i += 1;
    }
    None
}

/// The relationships of type `t` toward each identifier of `ids`.
fn relationships_to(ids: &Vec<String>, t: RelationshipType) -> (r: Vec<Relationship>)
    ensures
        rel_views(r@) == targets(ids@, t),
{
    let mut r: Vec<Relationship> = Vec::new();
    let mut i: usize = 0;
    while i < ids.len()
        invariant
            i <= ids.len(),
            rel_views(r@) == targets(ids@.take(i as int), t),
        decreases ids.len() - i,
    {
        let ghost prev = r@;
        let rel = Relationship::new(ItemId::from_string(ids[i].clone()), t);
        assert(rel.to@ == ids@[i as int]@);
        r.push(rel);
        assert(rel_views(r@) =~= rel_views(prev).push((ids@[i as int]@, t)));
        assert(targets(ids@.take(i + 1), t) =~= targets(ids@.take(i as int), t).push((ids@[i as int]@, t)));
        i += 1;
    }
    assert(ids@.take(ids.len() as int) =~= ids@);
    r
}

/// The file name of a path without its extension (`Path::file_stem`):
/// the last component, with trailing separators ignored, cut before its
/// last `.` unless that dot starts the name; none for an empty name or
/// `..`.
pub open spec fn file_stem(path: Seq<char>) -> Option<Seq<char>> {
    let p = strip_trailing_slashes(path);
    let name = p.skip(last_slash_end(p) as int);
    if name.len() == 0 || name == seq!['.', '.'] || name == seq!['.'] {
        None
    } else {
        match last_dot(name) {
            Some(d) => if d == 0 {
                Some(name)
            } else {
                Some(name.take(d))
            },
            None => Some(name),
        }
    }
}

/// `p` without trailing `/` characters.
pub open spec fn strip_trailing_slashes(p: Seq<char>) -> Seq<char>
    decreases p.len(),
{
    if p.len() > 0 && p.last() == '/' {
        strip_trailing_slashes(p.drop_last())
    } else {
        p
    }
}

/// The position just after the last `/` of `p`, 0 when there is none.
pub open spec fn last_slash_end(p: Seq<char>) -> nat
    decreases p.len(),
{
    if p.len() == 0 {
        0
    } else if p.last() == '/' {
        p.len()
    } else {
        last_slash_end(p.drop_last())
    }
}

/// The position of the last `.` of `s`, if any.
pub open spec fn last_dot(s: Seq<char>) -> Option<int>
    decreases s.len(),
{
    if s.len() == 0 {
        None
    } else if s.last() == '.' {
        Some(s.len() - 1)
    } else {
        last_dot(s.drop_last())
    }
}

/// The file stem of a path, or `fallback` when it has none.
fn file_stem_or_fallback(file: &str, fallback: &str) -> (r: String)
    ensures
        r@ == match file_stem(file@) {
            Some(s) => s,
            None => fallback@,
        },
{
    let v = str_chars(file);
    let mut n = v.len();
    assert(v@.take(v.len() as int) =~= v@);
    while n > 0 && v[n - 1] == '/'
        invariant
            n <= v.len(),
            strip_trailing_slashes(v@) == strip_trailing_slashes(v@.take(n as int)),
        decreases n,
    {
        assert(v@.take(n as int).drop_last() =~= v@.take(n - 1));
        n -= 1;
    }
    let ghost p = v@.take(n as int);
    assert(strip_trailing_slashes(p) == p);
    let mut s = n;
    assert(p.take(n as int) =~= p);
    while s > 0 && v[s - 1] != '/'
        invariant
            s <= n <= v.len(),
            p == v@.take(n as int),
            n == p.len(),
            last_slash_end(p) == last_slash_end(p.take(s as int)),
        decreases s,
    {
        assert(p.take(s as int).drop_last() =~= p.take(s - 1));
        s -= 1;
    }
    assert(last_slash_end(p.take(s as int)) == s);
    let name = crate::text::sub_chars(&v, s, n);
    assert(name@ =~= p.skip(s as int));
    let ghost nm = name@;
    if name.len() == 0 || (name.len() == 2 && name[0] == '.' && name[1] == '.') || (name.len() == 1
        && name[0] == '.') {
        assert(nm.len() == 2 ==> (nm[0] == '.' && nm[1] == '.' <==> nm =~= seq!['.', '.']));
        assert(nm.len() == 1 ==> (nm[0] == '.' <==> nm =~= seq!['.']));
        return fallback.to_owned();
    }
    assert(!(nm =~= seq!['.', '.']) && !(nm =~= seq!['.']));
    let mut d = name.len();
    assert(nm.take(name.len() as int) =~= nm);
    while d > 0 && name[d - 1] != '.'
        invariant
            d <= name.len(),
            nm == name@,
            last_dot(nm) == last_dot(nm.take(d as int)),
        decreases d,
    {
        assert(nm.take(d as int).drop_last() =~= nm.take(d - 1));
        d -= 1;
    }
    if d <= 1 {
        assert(d == 1 ==> last_dot(nm) == Some(0int));
        assert(d == 0 ==> last_dot(nm) is None);
        return chars_to_string(&name);
    }
    assert(last_dot(nm) == Some(d - 1));
    let stem = crate::text::sub_chars(&name, 0, d - 1);
    assert(stem@ =~= nm.take(d - 1));
    chars_to_string(&stem)
}

/// The item initialization service.
pub struct InitService;

impl InitService {
    /// Creates a new init service.
    pub fn new() -> (r: InitService) {
        InitService
    }

    /// Returns whether the configuration still lacks its specification.
    pub fn check_needs_specification(&self, type_config: &TypeConfig) -> (r: bool)
        ensures
            r == config_needs_specification(*type_config),
    {
        match type_config {
            TypeConfig::SystemRequirement { specification, .. }
            | TypeConfig::SoftwareRequirement { specification, .. }
            | TypeConfig::HardwareRequirement { specification, .. } => specification.is_none(),
            _ => false,
        }
    }

    /// The ID of the new item: the one given, else the first ID of its type.
    pub fn resolve_id(&self, opts: &InitOptions) -> (r: String)
        ensures
            r@ == match opts.id {
                Some(i) => i@,
                None => formatted_id(config_type(opts.type_config), 1),
            },
    {
        match &opts.id {
            Some(i) => i.clone(),
            None => opts.item_type().generate_id(None),
        }
    }

    /// The name of the new item: the one given, else the first heading of
    /// the existing file's content, else the file stem, else the ID.
    pub fn resolve_name(&self, opts: &InitOptions, id: &str, existing: Option<&str>) -> (r: String)
        ensures
            r@ == match opts.name {
                Some(n) => n@,
                None => match existing {
                    Some(c) if heading_name(lines(c@), 0) is Some => heading_name(lines(c@), 0)->0,
                    _ => match file_stem(opts.file@) {
                        Some(s) => s,
                        None => id@,
                    },
                },
            },
    {
        if let Some(name) = &opts.name {
            return name.clone();
        }
        if let Some(content) = existing {
            if let Some(name) = extract_name_from_content(content) {
                return name;
            }
        }
        file_stem_or_fallback(opts.file.as_str(), id)
    }

    /// Builds the item the options describe: its ID, type, name,
    /// description and file, with the relationships and attributes of its
    /// configuration.
    pub fn build_item(&self, opts: &InitOptions, id: &str, name: &str) -> (r: Item)
        ensures
            r.id@ == id@,
            r.item_type == config_type(opts.type_config),
            r.name@ == name@,
            opt_view(r.description) == opt_view(opts.description),
            r.source.file_path@ == opts.file@,
            r.source.repository@ == Seq::<char>::empty(),
            r.source.line == 1,
            r.source.git_ref is None,
            rel_views(r.relationships@) == config_relationships(opts.type_config),
            config_attributes(opts.type_config, r.attributes.entries()),
    {
        let source = SourceLocation::new("", opts.file.as_str(), 1);
        proof {
            reveal_strlit("");
        }
        let mut builder = ItemBuilder::new().id(ItemId::new_unchecked(id)).item_type(
            opts.item_type(),
        ).name(name).source(source);
        if let Some(desc) = &opts.description {
            builder = builder.description(desc.as_str());
        }
        let ghost b0 = builder;
        assert(b0.attributes_of().entries() == Seq::<(String, FieldValue)>::empty());
        proof {
            reveal_strlit("specification");
            reveal_strlit("depends_on");
            reveal_strlit("platform");
            reveal_strlit("supersedes");
            reveal_strlit("status");
            reveal_strlit("deciders");
            reveal_strlit("TBD");
        }
        match &opts.type_config {
            TypeConfig::Solution => {},
            TypeConfig::UseCase { refines } | TypeConfig::Scenario { refines } => {
                builder = builder.relationships(relationships_to(refines, RelationshipType::Refines));
            },
            TypeConfig::SystemRequirement { specification, derives_from, depends_on }
            | TypeConfig::SoftwareRequirement { specification, derives_from, depends_on }
            | TypeConfig::HardwareRequirement { specification, derives_from, depends_on } => {
                let spec = match specification {
                    Some(s) => s.clone(),
                    None => "The system SHALL <describe the requirement>.".to_owned(),
                };
                builder = builder.specification(spec.as_str());
                let ghost bs = builder;
                builder = builder.relationships(
                    relationships_to(derives_from, RelationshipType::DerivesFrom),
                );
                let ghost b1 = builder;
                builder = builder.push_refs("depends_on", depends_on);
                proof {
                    assert("specification"@[0] != "depends_on"@[0]);
                    assert(entry_value(b1.attributes_of().entries(), "depends_on"@) is None);
                    let e = builder.attributes_of().entries();
                    assert(entry_value(e, "specification"@) == entry_value(bs.attributes_of().entries(), "specification"@));
                    assert(entry_ref_ids(e, "depends_on"@) =~= str_views(depends_on@));
                    assert(required_fields(config_type(opts.type_config)) == seq!["specification"@]);
                    assert(seq!["specification"@].drop_first() =~= Seq::<Seq<char>>::empty());
                    assert(crate::model::builder::field_satisfied(e, "specification"@));
                    assert(crate::model::builder::first_unsatisfied(e, Seq::<Seq<char>>::empty()) is None);
                    assert(crate::model::builder::first_unsatisfied(e, seq!["specification"@]) is None);
                    assert(crate::model::builder::first_unsatisfied(e, required_fields(config_type(opts.type_config))) is None);
                    assert(config_attributes(opts.type_config, e));
                }
            },
            TypeConfig::SystemArchitecture { platform, satisfies } => {
                if let Some(p) = platform {
                    builder = builder.platform(p.as_str());
                }
                builder = builder.relationships(relationships_to(satisfies, RelationshipType::Satisfies));
            },
            TypeConfig::SoftwareDetailedDesign { satisfies }
            | TypeConfig::HardwareDetailedDesign { satisfies } => {
                builder = builder.relationships(relationships_to(satisfies, RelationshipType::Satisfies));
            },
            TypeConfig::Adr { status, deciders, justifies, supersedes, superseded_by: _ } => {
                let adr_status = match status {
                    Some(s) => {
                        let v = str_chars(s.as_str());
                        if crate::text::chars_eq(&v, &str_chars("accepted")) {
                            AdrStatus::Accepted
                        } else if crate::text::chars_eq(&v, &str_chars("deprecated")) {
                            AdrStatus::Deprecated
                        } else if crate::text::chars_eq(&v, &str_chars("superseded")) {
                            AdrStatus::Superseded
                        } else {
                            AdrStatus::Proposed
                        }
                    },
                    None => AdrStatus::Proposed,
                };
                assert(adr_status == configured_status(*status));
                builder = builder.status(adr_status);
                let ghost bst = builder;
                if deciders.len() > 0 {
                    builder = builder.deciders(crate::text::clone_strings(deciders));
                } else {
                    builder = builder.decider("TBD");
                    proof {
                        let e = builder.attributes_of().entries();
                        let l = match entry_value(e, "deciders"@) {
                            Some(FieldValue::List(l)) => l@,
                            _ => Seq::<FieldValue>::empty(),
                        };
                        assert("deciders"@[0] != "status"@[0]);
                        assert(entry_value(b0.attributes_of().entries(), "deciders"@) is None);
                        assert(entry_value(bst.attributes_of().entries(), "deciders"@) is None);
                        assert(l.drop_last() =~= Seq::<FieldValue>::empty());
                        assert(text_values(l.drop_last()) =~= Seq::<Seq<char>>::empty());
                        assert(text_values(l) =~= seq!["TBD"@]);
                    }
                }
                let ghost bd = builder;
                let mut rels = relationships_to(justifies, RelationshipType::Justifies);
                let mut sup_rels = relationships_to(supersedes, RelationshipType::Supersedes);
                let ghost (jv, sv) = (rels@, sup_rels@);
                rels.append(&mut sup_rels);
                assert(rel_views(rels@) =~= rel_views(jv) + rel_views(sv));
                builder = builder.relationships(rels);
                let ghost b1 = builder;
                builder = builder.push_refs("supersedes", supersedes);
                proof {
                    reveal_strlit("supersedes");
                    reveal_strlit("status");
                    reveal_strlit("deciders");
                    reveal_strlit("TBD");
                    assert("status"@.len() != "supersedes"@.len());
                    assert("deciders"@[0] != "supersedes"@[0]);
                    assert("deciders"@[0] != "status"@[0]);
                    assert(entry_value(b1.attributes_of().entries(), "supersedes"@) is None);
                    let e = builder.attributes_of().entries();
                    assert(entry_value(e, "deciders"@) == entry_value(bd.attributes_of().entries(), "deciders"@));
                    assert(entry_value(e, "status"@) == entry_value(bst.attributes_of().entries(), "status"@));
                    assert(entry_ref_ids(e, "supersedes"@) =~= str_views(supersedes@));
                    assert(required_fields(config_type(opts.type_config)) == seq!["status"@, "deciders"@]);
                    assert(seq!["status"@, "deciders"@].drop_first() =~= seq!["deciders"@]);
                    assert(seq!["deciders"@].drop_first() =~= Seq::<Seq<char>>::empty());
                    assert(crate::model::builder::field_satisfied(e, "status"@));
                    assert(crate::model::builder::field_satisfied(e, "deciders"@));
                    assert(crate::model::builder::first_unsatisfied(e, Seq::<Seq<char>>::empty()) is None);
                    assert(crate::model::builder::first_unsatisfied(e, seq!["deciders"@]) is None);
                    assert(crate::model::builder::first_unsatisfied(e, seq!["status"@, "deciders"@]) is None);
                    assert(crate::model::builder::first_unsatisfied(e, required_fields(config_type(opts.type_config))) is None);
                    assert(config_attributes(opts.type_config, e));
                }
            },
        }
        assert(rel_views(builder.relationships_of()) =~= config_relationships(opts.type_config));
        match builder.build() {
            Ok(item) => item,
            // Every configuration sets the attributes its type requires, so
            // `build` cannot fail.
            Err(_) => vstd::pervasive::unreached(),
        }
    }
}

/// True if the content starts with `---` once leading whitespace is
/// skipped.
pub open spec fn opens_frontmatter(c: Seq<char>) -> bool {
    trim_start(c).len() >= 3 && trim_start(c).take(3) == dashes()
}

impl InitService {
    /// Decides the initialization of the item the options describe, given
    /// the content of the file when it already exists. Existing frontmatter
    /// without `force` gives `FrontmatterExists`; otherwise the result
    /// carries the resolved ID and name, whether an existing file is updated
    /// and its frontmatter replaced, whether the specification is still
    /// missing, and the item to write.
    pub fn init(&self, opts: &InitOptions, existing: Option<&str>) -> (r: Result<(InitResult, Item), InitError>)
        ensures
            (existing matches Some(c) && !opts.force && opens_frontmatter(c@)) ==> (r matches Err(
                InitError::FrontmatterExists(f),
            ) && f@ == opts.file@),
            !(existing matches Some(c) && !opts.force && opens_frontmatter(c@)) ==> (r matches Ok(
                (res, item),
            ) && {
                &&& res.id@ == match opts.id {
                    Some(i) => i@,
                    None => formatted_id(config_type(opts.type_config), 1),
                }
                &&& res.name@ == match opts.name {
                    Some(n) => n@,
                    None => match existing {
                        Some(c) if heading_name(lines(c@), 0) is Some => heading_name(lines(c@), 0)->0,
                        _ => match file_stem(opts.file@) {
                            Some(s) => s,
                            None => res.id@,
                        },
                    },
                }
                &&& res.item_type == config_type(opts.type_config)
                &&& res.file@ == opts.file@
                &&& res.updated_existing == existing is Some
                &&& res.replaced_frontmatter == (existing matches Some(c) && opens_frontmatter(c@)
                    && opts.force)
                &&& res.needs_specification == config_needs_specification(opts.type_config)
                &&& item.id@ == res.id@
                &&& item.name@ == res.name@
                &&& item.item_type == res.item_type
                &&& opt_view(item.description) == opt_view(opts.description)
                &&& item.source.file_path@ == opts.file@
                &&& rel_views(item.relationships@) == config_relationships(opts.type_config)
                &&& config_attributes(opts.type_config, item.attributes.entries())
            }),
    {
        let has_fm = match existing {
            Some(c) => has_frontmatter(c),
            None => false,
        };
        if existing.is_some() && !opts.force && has_fm {
            return Err(InitError::FrontmatterExists(opts.file.clone()));
        }
        let item_type = opts.item_type();
        let id = self.resolve_id(opts);
        let name = self.resolve_name(opts, id.as_str(), existing);
        let item = self.build_item(opts, id.as_str(), name.as_str());
        let needs_specification = self.check_needs_specification(&opts.type_config);
        let result = InitResult {
            id,
            name,
            item_type,
            file: opts.file.clone(),
            updated_existing: existing.is_some(),
            replaced_frontmatter: existing.is_some() && has_fm && opts.force,
            needs_specification,
        };
        Ok((result, item))
    }
}

/// The new content of an existing file: the generated frontmatter, a line
/// feed, then the content after its frontmatter when replacing it, or the
/// whole content otherwise; with whether the frontmatter was replaced.
pub fn updated_file_content(content: &str, frontmatter: &str, force: bool) -> (r: (String, bool))
    requires
        content@.len() < usize::MAX,
    ensures
        r.1 == (opens_frontmatter(content@) && force),
        r.0@ == frontmatter@ + seq!['\n'] + if r.1 {
            without_frontmatter(content@)
        } else {
            content@
        },
{
    let replace = has_frontmatter(content) && force;
    let mut out = str_chars(frontmatter);
    out.push('\n');
    if replace {
        let body = remove_frontmatter(content);
        crate::text::extend_str(&mut out, body.as_str());
    } else {
        crate::text::extend_str(&mut out, content);
    }
    (chars_to_string(&out), replace)
}

/// The position just after the closing line of the first frontmatter-like
/// block: the second `---` line, counting each line with its line feed;
/// `None` when there are not two such lines.
pub open spec fn frontmatter_end(ls: Seq<Seq<char>>, i: int, opened: bool, offset: nat) -> Option<nat>
    decreases ls.len() - i,
{
    if i < 0 || i >= ls.len() {
        None
    } else if is_delimiter_line(ls[i]) && opened {
        Some(offset + ls[i].len() + 1)
    } else {
        frontmatter_end(ls, i + 1, opened || is_delimiter_line(ls[i]), offset + ls[i].len() + 1)
    }
}

/// The content after its first frontmatter block: what follows the
/// closing line, empty when the block ends the content; the whole content
/// when there is no closed block.
pub open spec fn without_frontmatter(content: Seq<char>) -> Seq<char> {
    match frontmatter_end(lines(content), 0, false, 0) {
        Some(e) => if e <= content.len() {
            content.skip(e as int)
        } else {
            seq![]
        },
        None => content,
    }
}

/// Removes the first frontmatter block (from a `---` line to the next one)
/// and returns what follows it: nothing when the block ends the content.
pub fn remove_frontmatter(content: &str) -> (r: String)
    requires
        content@.len() < usize::MAX,
    ensures
        r@ == without_frontmatter(content@),
{
    let v = str_chars(content);
    let ls = crate::text::split_lines(&v);
    let mut opened = false;
    let mut offset: usize = 0;
    let mut i: usize = 0;
    let ghost lv = crate::text::views(ls@);
    proof {
        lemma_lines_fit(v@);
    }
    while i < ls.len()
        invariant
            lv == crate::text::views(ls@),
            lv == lines(content@),
            v@ == content@,
            i <= ls.len(),
            offset + lines_len(lv, i as int, ls.len() as int) == lines_len(lv, 0, ls.len() as int),
            lines_len(lv, 0, ls.len() as int) <= v@.len() + 1,
            v@.len() < usize::MAX,
            frontmatter_end(lv, 0, false, 0) == frontmatter_end(lv, i as int, opened, offset as nat),
        decreases ls.len() - i,
    {
        assert(lv[i as int] == ls@[i as int]@);
        proof {
            lemma_lines_len_split(lv, i as int, ls.len() as int);
        }
        let is_delim = crate::text::is_delimiter(&ls[i]);
        let len = ls[i].len();
        if is_delim && opened {
            let end = offset + len + 1;
            if end <= v.len() {
                let rest = crate::text::sub_chars(&v, end, v.len());
                assert(rest@ =~= content@.skip(end as int));
                return chars_to_string(&rest);
            }
            return String::new();
        }
        opened = opened || is_delim;
        offset = offset + len + 1;
        i += 1;
    }
    content.to_owned()
}

/// The total length of lines `i..j`, each counted with a line feed.
pub open spec fn lines_len(ls: Seq<Seq<char>>, i: int, j: int) -> nat
    decreases j - i,
{
    if i >= j || i < 0 || j > ls.len() {
        0
    } else {
        ls[i].len() + 1 + lines_len(ls, i + 1, j)
    }
}

proof fn lemma_lines_len_split(ls: Seq<Seq<char>>, i: int, j: int)
    requires
        0 <= i < j <= ls.len(),
    ensures
        lines_len(ls, i, j) == ls[i].len() + 1 + lines_len(ls, i + 1, j),
{
}

/// Lines counted after a first line are the lines of the rest.
proof fn lemma_lines_len_cons(x: Seq<char>, rest: Seq<Seq<char>>, i: int, j: int)
    requires
        1 <= i <= j <= rest.len() + 1,
    ensures
        lines_len(seq![x] + rest, i, j) == lines_len(rest, i - 1, j - 1),
    decreases j - i,
{
    if i < j {
        lemma_lines_len_cons(x, rest, i + 1, j);
        assert((seq![x] + rest)[i] == rest[i - 1]);
    }
}

/// The first line feed is within the text.
proof fn lemma_line_end_bound(s: Seq<char>)
    ensures
        crate::text::line_end(s) <= s.len(),
    decreases s.len(),
{
    if s.len() > 0 && s[0] != '\n' {
        lemma_line_end_bound(s.drop_first());
    }
}

/// The lines of a text, each counted with a line feed, are at most one
/// character longer than the text.
proof fn lemma_lines_fit(s: Seq<char>)
    ensures
        lines_len(lines(s), 0, lines(s).len() as int) <= s.len() + 1,
    decreases s.len(),
{
    if s.len() > 0 {
        let k = crate::text::line_end(s);
        lemma_line_end_bound(s);
        if k < s.len() {
            let x = crate::text::strip_cr(s.take(k as int));
            let rest = lines(s.skip((k + 1) as int));
            lemma_lines_fit(s.skip((k + 1) as int));
            assert(lines(s) == seq![x] + rest);
            lemma_lines_len_cons(x, rest, 1, rest.len() as int + 1);
            assert(lines_len(seq![x] + rest, 0, rest.len() as int + 1) == x.len() + 1 + lines_len(
                seq![x] + rest,
                1,
                rest.len() as int + 1,
            ));
        } else {
            assert(lines(s) == seq![s]);
            assert(lines_len(seq![s], 1, 1) == 0);
        }
    }
}

} // verus!

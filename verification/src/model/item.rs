//! Item types and structures for the knowledge graph.
use indexmap::IndexMap;
use vstd::prelude::*;

use super::adr::{parse_status, AdrStatus};
use super::attribute_map::{
    attribute_entries, key_position, lemma_key_position_push, lemma_key_position_update,
    lemma_key_position_valid, map_get, map_get_index, map_insert, map_len, map_new,
    map_shift_remove,
};
use super::field::FieldValue;
use super::metadata::SourceLocation;
use super::relationship::{
    direction_of, RelationDirection, Relationship, RelationshipType,
};
use crate::error::SaraError;
use crate::text::{
    alphanumeric, char_is_alphanumeric, chars_to_string, decimal, extend_str, pad_zeros,
    push_padded_decimal, str_chars,
};

verus! {

/// Represents the type of item in the knowledge graph.
#[derive(Debug, Clone, Copy, PartialEq, Eq, Hash, Structural)]
pub enum ItemType {
    Solution,
    UseCase,
    Scenario,
    SystemRequirement,
    SystemArchitecture,
    HardwareRequirement,
    SoftwareRequirement,
    HardwareDetailedDesign,
    SoftwareDetailedDesign,
    ArchitectureDecisionRecord,
}

/// All item types in hierarchy order (upstream to downstream).
pub open spec fn all_types() -> Seq<ItemType> {
    seq![
        ItemType::Solution,
        ItemType::UseCase,
        ItemType::Scenario,
        ItemType::SystemRequirement,
        ItemType::SystemArchitecture,
        ItemType::HardwareRequirement,
        ItemType::SoftwareRequirement,
        ItemType::HardwareDetailedDesign,
        ItemType::SoftwareDetailedDesign,
        ItemType::ArchitectureDecisionRecord,
    ]
}

/// Position of a type in hierarchy order.
pub open spec fn type_rank(t: ItemType) -> nat {
    match t {
        ItemType::Solution => 0,
        ItemType::UseCase => 1,
        ItemType::Scenario => 2,
        ItemType::SystemRequirement => 3,
        ItemType::SystemArchitecture => 4,
        ItemType::HardwareRequirement => 5,
        ItemType::SoftwareRequirement => 6,
        ItemType::HardwareDetailedDesign => 7,
        ItemType::SoftwareDetailedDesign => 8,
        ItemType::ArchitectureDecisionRecord => 9,
    }
}

/// The display name of a type.
pub open spec fn type_display(t: ItemType) -> Seq<char> {
    match t {
        ItemType::Solution => "Solution"@,
        ItemType::UseCase => "Use Case"@,
        ItemType::Scenario => "Scenario"@,
        ItemType::SystemRequirement => "System Requirement"@,
        ItemType::SystemArchitecture => "System Architecture"@,
        ItemType::HardwareRequirement => "Hardware Requirement"@,
        ItemType::SoftwareRequirement => "Software Requirement"@,
        ItemType::HardwareDetailedDesign => "Hardware Detailed Design"@,
        ItemType::SoftwareDetailedDesign => "Software Detailed Design"@,
        ItemType::ArchitectureDecisionRecord => "Architecture Decision Record"@,
    }
}

/// The ID prefix of a type.
pub open spec fn type_prefix(t: ItemType) -> Seq<char> {
    match t {
        ItemType::Solution => "SOL"@,
        ItemType::UseCase => "UC"@,
        ItemType::Scenario => "SCEN"@,
        ItemType::SystemRequirement => "SYSREQ"@,
        ItemType::SystemArchitecture => "SYSARCH"@,
        ItemType::HardwareRequirement => "HWREQ"@,
        ItemType::SoftwareRequirement => "SWREQ"@,
        ItemType::HardwareDetailedDesign => "HWDD"@,
        ItemType::SoftwareDetailedDesign => "SWDD"@,
        ItemType::ArchitectureDecisionRecord => "ADR"@,
    }
}

/// The YAML value (snake_case id) of a type.
pub open spec fn type_id(t: ItemType) -> Seq<char> {
    match t {
        ItemType::Solution => "solution"@,
        ItemType::UseCase => "use_case"@,
        ItemType::Scenario => "scenario"@,
        ItemType::SystemRequirement => "system_requirement"@,
        ItemType::SystemArchitecture => "system_architecture"@,
        ItemType::HardwareRequirement => "hardware_requirement"@,
        ItemType::SoftwareRequirement => "software_requirement"@,
        ItemType::HardwareDetailedDesign => "hardware_detailed_design"@,
        ItemType::SoftwareDetailedDesign => "software_detailed_design"@,
        ItemType::ArchitectureDecisionRecord => "architecture_decision_record"@,
    }
}

/// The first type at or after position `i` whose id is `id`.
pub open spec fn type_with_id_from(id: Seq<char>, i: nat) -> Option<ItemType>
    decreases 10 - i,
{
    if i >= 10 {
        None
    } else if type_id(all_types()[i as int]) == id {
        Some(all_types()[i as int])
    } else {
        type_with_id_from(id, i + 1)
    }
}

/// The type whose id is `id`, if any.
pub open spec fn type_from_id(id: Seq<char>) -> Option<ItemType> {
    type_with_id_from(id, 0)
}

/// The type ids tell the types apart: their length and first two
/// characters already differ.
proof fn lemma_type_id_injective(a: ItemType, b: ItemType)
    requires
        type_id(a) == type_id(b),
    ensures
        a == b,
{
    reveal_strlit("solution");
    reveal_strlit("use_case");
    reveal_strlit("scenario");
    reveal_strlit("system_requirement");
    reveal_strlit("system_architecture");
    reveal_strlit("hardware_requirement");
    reveal_strlit("software_requirement");
    reveal_strlit("hardware_detailed_design");
    reveal_strlit("software_detailed_design");
    reveal_strlit("architecture_decision_record");
    let (x, y) = (type_id(a), type_id(b));
    assert(x.len() == y.len() && x[0] == y[0] && x[1] == y[1]);
}

/// Searching from any position up to a type's own finds that type.
proof fn lemma_type_with_id_from(t: ItemType, i: nat)
    requires
        i <= type_rank(t),
    ensures
        type_with_id_from(type_id(t), i) == Some(t),
    decreases 10 - i,
{
    assert(all_types()[type_rank(t) as int] == t);
    let u = all_types()[i as int];
    if type_id(u) == type_id(t) {
        lemma_type_id_injective(u, t);
    } else {
        lemma_type_with_id_from(t, i + 1);
    }
}

/// Every item type reads back from its own id: `ItemType::from_id` of
/// `t.as_str()` gives `t`.
pub proof fn lemma_type_from_own_id(t: ItemType)
    ensures
        type_from_id(type_id(t)) == Some(t),
{
    lemma_type_with_id_from(t, 0);
}

/// Every type reads back from its id, and an id that reads as a type is
/// that type's id: unknown ids give no type.
pub proof fn lemma_type_id_round_trip(t: ItemType, id: Seq<char>)
    ensures
        type_from_id(type_id(t)) == Some(t),
        type_from_id(id) == Some(t) ==> type_id(t) == id,
{
    lemma_type_with_id_from(t, 0);
    lemma_type_from_id_matches(id, 0);
}

/// A type found from an id has that id.
proof fn lemma_type_from_id_matches(id: Seq<char>, i: nat)
    ensures
        type_with_id_from(id, i) matches Some(t) ==> type_id(t) == id,
    decreases 10 - i,
{
    if i < 10 && type_id(all_types()[i as int]) != id {
        lemma_type_from_id_matches(id, i + 1);
    }
}

/// True for the requirement types.
pub open spec fn is_requirement(t: ItemType) -> bool {
    t == ItemType::SystemRequirement || t == ItemType::HardwareRequirement || t
        == ItemType::SoftwareRequirement
}

/// True for the types that refine a parent.
pub open spec fn refines_parent(t: ItemType) -> bool {
    t == ItemType::UseCase || t == ItemType::Scenario
}

/// True for the types that satisfy a requirement.
pub open spec fn satisfies_parent(t: ItemType) -> bool {
    t == ItemType::SystemArchitecture || t == ItemType::HardwareDetailedDesign || t
        == ItemType::SoftwareDetailedDesign
}

/// The type an item of type `t` must trace to, if any.
pub open spec fn required_parent(t: ItemType) -> Option<ItemType> {
    match t {
        ItemType::Solution => None,
        ItemType::UseCase => Some(ItemType::Solution),
        ItemType::Scenario => Some(ItemType::UseCase),
        ItemType::SystemRequirement => Some(ItemType::Scenario),
        ItemType::SystemArchitecture => Some(ItemType::SystemRequirement),
        ItemType::HardwareRequirement => Some(ItemType::SystemArchitecture),
        ItemType::SoftwareRequirement => Some(ItemType::SystemArchitecture),
        ItemType::HardwareDetailedDesign => Some(ItemType::HardwareRequirement),
        ItemType::SoftwareDetailedDesign => Some(ItemType::SoftwareRequirement),
        ItemType::ArchitectureDecisionRecord => None,
    }
}

/// Canonical frontmatter field names.
#[derive(Debug, Clone, Copy, PartialEq, Eq, Hash, Structural)]
pub enum FieldName {
    Id,
    Type,
    Name,
    Description,
    Specification,
    Platform,
    Status,
    Deciders,
    Refines,
    DerivesFrom,
    Satisfies,
    Justifies,
    DependsOn,
    Supersedes,
    SupersededBy,
}

/// The frontmatter key of a field name.
pub open spec fn field_name_str(f: FieldName) -> Seq<char> {
    match f {
        FieldName::Id => "id"@,
        FieldName::Type => "type"@,
        FieldName::Name => "name"@,
        FieldName::Description => "description"@,
        FieldName::Specification => "specification"@,
        FieldName::Platform => "platform"@,
        FieldName::Status => "status"@,
        FieldName::Deciders => "deciders"@,
        FieldName::Refines => "refines"@,
        FieldName::DerivesFrom => "derives_from"@,
        FieldName::Satisfies => "satisfies"@,
        FieldName::Justifies => "justifies"@,
        FieldName::DependsOn => "depends_on"@,
        FieldName::Supersedes => "supersedes"@,
        FieldName::SupersededBy => "superseded_by"@,
    }
}

impl FieldName {
    /// Returns the frontmatter key.
    pub fn as_str(&self) -> (r: &'static str)
        ensures
            r@ == field_name_str(*self),
    {
        match self {
            FieldName::Id => "id",
            FieldName::Type => "type",
            FieldName::Name => "name",
            FieldName::Description => "description",
            FieldName::Specification => "specification",
            FieldName::Platform => "platform",
            FieldName::Status => "status",
            FieldName::Deciders => "deciders",
            FieldName::Refines => "refines",
            FieldName::DerivesFrom => "derives_from",
            FieldName::Satisfies => "satisfies",
            FieldName::Justifies => "justifies",
            FieldName::DependsOn => "depends_on",
            FieldName::Supersedes => "supersedes",
            FieldName::SupersededBy => "superseded_by",
        }
    }
}

/// The upstream traceability field of a type.
pub open spec fn traceability_field_of(t: ItemType) -> Option<FieldName> {
    match t {
        ItemType::Solution => None,
        ItemType::UseCase | ItemType::Scenario => Some(FieldName::Refines),
        ItemType::SystemRequirement | ItemType::HardwareRequirement
        | ItemType::SoftwareRequirement => Some(FieldName::DerivesFrom),
        ItemType::SystemArchitecture | ItemType::HardwareDetailedDesign
        | ItemType::SoftwareDetailedDesign => Some(FieldName::Satisfies),
        ItemType::ArchitectureDecisionRecord => Some(FieldName::Justifies),
    }
}

/// Configuration for traceability relationships.
#[derive(Debug, Clone, Copy, PartialEq, Eq, Structural)]
pub struct TraceabilityConfig {
    /// The relationship field (refines, derives_from, satisfies, depends_on).
    pub relationship_field: FieldName,
    /// The target item type to link to.
    pub target_type: ItemType,
}

/// The traceability links a type declares: its upstream relation toward
/// each allowed parent type, and `depends_on` toward peers of its own type.
pub open spec fn traceability_configs_of(t: ItemType) -> Seq<TraceabilityConfig> {
    match t {
        ItemType::Solution => seq![],
        ItemType::UseCase => seq![
            TraceabilityConfig { relationship_field: FieldName::Refines, target_type: ItemType::Solution },
        ],
        ItemType::Scenario => seq![
            TraceabilityConfig { relationship_field: FieldName::Refines, target_type: ItemType::UseCase },
        ],
        ItemType::SystemRequirement => seq![
            TraceabilityConfig { relationship_field: FieldName::DerivesFrom, target_type: ItemType::Scenario },
            TraceabilityConfig { relationship_field: FieldName::DependsOn, target_type: ItemType::SystemRequirement },
        ],
        ItemType::SystemArchitecture => seq![
            TraceabilityConfig { relationship_field: FieldName::Satisfies, target_type: ItemType::SystemRequirement },
        ],
        ItemType::HardwareRequirement => seq![
            TraceabilityConfig { relationship_field: FieldName::DerivesFrom, target_type: ItemType::SystemArchitecture },
            TraceabilityConfig { relationship_field: FieldName::DependsOn, target_type: ItemType::HardwareRequirement },
        ],
        ItemType::SoftwareRequirement => seq![
            TraceabilityConfig { relationship_field: FieldName::DerivesFrom, target_type: ItemType::SystemArchitecture },
            TraceabilityConfig { relationship_field: FieldName::DependsOn, target_type: ItemType::SoftwareRequirement },
        ],
        ItemType::HardwareDetailedDesign => seq![
            TraceabilityConfig { relationship_field: FieldName::Satisfies, target_type: ItemType::HardwareRequirement },
        ],
        ItemType::SoftwareDetailedDesign => seq![
            TraceabilityConfig { relationship_field: FieldName::Satisfies, target_type: ItemType::SoftwareRequirement },
        ],
        ItemType::ArchitectureDecisionRecord => seq![
            TraceabilityConfig { relationship_field: FieldName::Justifies, target_type: ItemType::SystemArchitecture },
            TraceabilityConfig { relationship_field: FieldName::Justifies, target_type: ItemType::HardwareDetailedDesign },
            TraceabilityConfig { relationship_field: FieldName::Justifies, target_type: ItemType::SoftwareDetailedDesign },
        ],
    }
}

/// The ID `PREFIX-NNN` for a type and a sequence number.
pub open spec fn formatted_id(t: ItemType, num: nat) -> Seq<char> {
    type_prefix(t) + seq!['-'] + pad_zeros(decimal(num), 3)
}

impl ItemType {
    /// Returns all item types in hierarchy order (upstream to downstream).
    pub fn all() -> (r: Vec<ItemType>)
        ensures
            r@ == all_types(),
    {
        let r = vec![
            ItemType::Solution,
            ItemType::UseCase,
            ItemType::Scenario,
            ItemType::SystemRequirement,
            ItemType::SystemArchitecture,
            ItemType::HardwareRequirement,
            ItemType::SoftwareRequirement,
            ItemType::HardwareDetailedDesign,
            ItemType::SoftwareDetailedDesign,
            ItemType::ArchitectureDecisionRecord,
        ];
        assert(r@ =~= all_types());
        r
    }

    /// Returns the display name for this item type.
    pub fn display_name(&self) -> (r: &'static str)
        ensures
            r@ == type_display(*self),
    {
        match self {
            ItemType::Solution => "Solution",
            ItemType::UseCase => "Use Case",
            ItemType::Scenario => "Scenario",
            ItemType::SystemRequirement => "System Requirement",
            ItemType::SystemArchitecture => "System Architecture",
            ItemType::HardwareRequirement => "Hardware Requirement",
            ItemType::SoftwareRequirement => "Software Requirement",
            ItemType::HardwareDetailedDesign => "Hardware Detailed Design",
            ItemType::SoftwareDetailedDesign => "Software Detailed Design",
            ItemType::ArchitectureDecisionRecord => "Architecture Decision Record",
        }
    }

    /// Returns the common ID prefix for this item type.
    pub fn prefix(&self) -> (r: &'static str)
        ensures
            r@ == type_prefix(*self),
    {
        match self {
            ItemType::Solution => "SOL",
            ItemType::UseCase => "UC",
            ItemType::Scenario => "SCEN",
            ItemType::SystemRequirement => "SYSREQ",
            ItemType::SystemArchitecture => "SYSARCH",
            ItemType::HardwareRequirement => "HWREQ",
            ItemType::SoftwareRequirement => "SWREQ",
            ItemType::HardwareDetailedDesign => "HWDD",
            ItemType::SoftwareDetailedDesign => "SWDD",
            ItemType::ArchitectureDecisionRecord => "ADR",
        }
    }

    /// Generates an ID `PREFIX-NNN` with the given sequence number
    /// (1 when none is given), zero-padded to three digits.
    pub fn generate_id(&self, sequence: Option<u32>) -> (r: String)
        ensures
            r@ == formatted_id(
                *self,
                match sequence {
                    Some(n) => n as nat,
                    None => 1,
                },
            ),
    {
        let num: u32 = match sequence {
            Some(n) => n,
            None => 1,
        };
        let mut v: Vec<char> = Vec::new();
        extend_str(&mut v, self.prefix());
        v.push('-');
        push_padded_decimal(&mut v, num as u64, 3);
        assert(v@ =~= formatted_id(*self, num as nat));
        chars_to_string(&v)
    }

    /// Returns true if this item type requires the refines field.
    pub fn requires_refines(&self) -> (r: bool)
        ensures
            r == refines_parent(*self),
    {
        matches!(self, ItemType::UseCase | ItemType::Scenario)
    }

    /// Returns true if this item type requires the derives_from field.
    pub fn requires_derives_from(&self) -> (r: bool)
        ensures
            r == is_requirement(*self),
    {
        matches!(
            self,
            ItemType::SystemRequirement | ItemType::HardwareRequirement
                | ItemType::SoftwareRequirement
        )
    }

    /// Returns true if this item type requires the satisfies field.
    pub fn requires_satisfies(&self) -> (r: bool)
        ensures
            r == satisfies_parent(*self),
    {
        matches!(
            self,
            ItemType::SystemArchitecture | ItemType::HardwareDetailedDesign
                | ItemType::SoftwareDetailedDesign
        )
    }

    /// Returns true if this item type requires a specification field.
    pub fn requires_specification(&self) -> (r: bool)
        ensures
            r == is_requirement(*self),
    {
        matches!(
            self,
            ItemType::SystemRequirement | ItemType::HardwareRequirement
                | ItemType::SoftwareRequirement
        )
    }

    /// Returns true if this item type accepts the platform field.
    pub fn accepts_platform(&self) -> (r: bool)
        ensures
            r == (*self == ItemType::SystemArchitecture),
    {
        matches!(self, ItemType::SystemArchitecture)
    }

    /// Returns true if this item type accepts peer dependencies.
    pub fn supports_depends_on(&self) -> (r: bool)
        ensures
            r == is_requirement(*self),
    {
        matches!(
            self,
            ItemType::SystemRequirement | ItemType::HardwareRequirement
                | ItemType::SoftwareRequirement
        )
    }

    /// Returns true if this is the root item type (Solution).
    pub fn is_root(&self) -> (r: bool)
        ensures
            r == (*self == ItemType::Solution),
    {
        matches!(self, ItemType::Solution)
    }

    /// Returns true if this is an Architecture Decision Record.
    pub fn is_adr(&self) -> (r: bool)
        ensures
            r == (*self == ItemType::ArchitectureDecisionRecord),
    {
        matches!(self, ItemType::ArchitectureDecisionRecord)
    }

    /// Returns true if this item type requires deciders (ADR only).
    pub fn requires_deciders(&self) -> (r: bool)
        ensures
            r == (*self == ItemType::ArchitectureDecisionRecord),
    {
        matches!(self, ItemType::ArchitectureDecisionRecord)
    }

    /// Returns true if this item type supports the status field (ADR only).
    pub fn supports_status(&self) -> (r: bool)
        ensures
            r == (*self == ItemType::ArchitectureDecisionRecord),
    {
        matches!(self, ItemType::ArchitectureDecisionRecord)
    }

    /// Returns true if this item type supports supersession (ADR only).
    pub fn supports_supersedes(&self) -> (r: bool)
        ensures
            r == (*self == ItemType::ArchitectureDecisionRecord),
    {
        matches!(self, ItemType::ArchitectureDecisionRecord)
    }

    /// Returns the type items of this type must trace to, if any.
    pub fn required_parent_type(&self) -> (r: Option<ItemType>)
        ensures
            r == required_parent(*self),
    {
        match self {
            ItemType::Solution => None,
            ItemType::UseCase => Some(ItemType::Solution),
            ItemType::Scenario => Some(ItemType::UseCase),
            ItemType::SystemRequirement => Some(ItemType::Scenario),
            ItemType::SystemArchitecture => Some(ItemType::SystemRequirement),
            ItemType::HardwareRequirement => Some(ItemType::SystemArchitecture),
            ItemType::SoftwareRequirement => Some(ItemType::SystemArchitecture),
            ItemType::HardwareDetailedDesign => Some(ItemType::HardwareRequirement),
            ItemType::SoftwareDetailedDesign => Some(ItemType::SoftwareRequirement),
            ItemType::ArchitectureDecisionRecord => None,
        }
    }

    /// Returns the upstream traceability field for this item type.
    pub fn traceability_field(&self) -> (r: Option<FieldName>)
        ensures
            r == traceability_field_of(*self),
    {
        match self {
            ItemType::Solution => None,
            ItemType::UseCase | ItemType::Scenario => Some(FieldName::Refines),
            ItemType::SystemRequirement | ItemType::HardwareRequirement
            | ItemType::SoftwareRequirement => Some(FieldName::DerivesFrom),
            ItemType::SystemArchitecture | ItemType::HardwareDetailedDesign
            | ItemType::SoftwareDetailedDesign => Some(FieldName::Satisfies),
            ItemType::ArchitectureDecisionRecord => Some(FieldName::Justifies),
        }
    }

    /// Returns the YAML value (snake_case string) for this item type.
    pub fn as_str(&self) -> (r: &'static str)
        ensures
            r@ == type_id(*self),
            type_from_id(r@) == Some(*self),
    {
        proof {
            lemma_type_from_own_id(*self);
        }
        match self {
            ItemType::Solution => "solution",
            ItemType::UseCase => "use_case",
            ItemType::Scenario => "scenario",
            ItemType::SystemRequirement => "system_requirement",
            ItemType::SystemArchitecture => "system_architecture",
            ItemType::HardwareRequirement => "hardware_requirement",
            ItemType::SoftwareRequirement => "software_requirement",
            ItemType::HardwareDetailedDesign => "hardware_detailed_design",
            ItemType::SoftwareDetailedDesign => "software_detailed_design",
            ItemType::ArchitectureDecisionRecord => "architecture_decision_record",
        }
    }

    /// Returns the type whose YAML value is `id`, if any.
    pub fn from_id(id: &str) -> (r: Option<ItemType>)
        ensures
            r == type_from_id(id@),
            r matches Some(t) ==> type_id(t) == id@,
    {
        let all = ItemType::all();
        let want = str_chars(id);
        let mut i: usize = 0;
        while i < all.len()
            invariant
                all@ == all_types(),
                want@ == id@,
                i <= all.len(),
                type_from_id(id@) == type_with_id_from(id@, i as nat),
            decreases all.len() - i,
        {
            let name = str_chars(all[i].as_str());
            if crate::text::chars_eq(&name, &want) {
                return Some(all[i]);
            }
            i += 1;
        }
        None
    }

    /// Returns all traceability configurations for this item type.
    pub fn traceability_configs(&self) -> (r: Vec<TraceabilityConfig>)
        ensures
            r@ == traceability_configs_of(*self),
    {
        let r = match self {
            ItemType::Solution => vec![],
            ItemType::UseCase => vec![
                TraceabilityConfig { relationship_field: FieldName::Refines, target_type: ItemType::Solution },
            ],
            ItemType::Scenario => vec![
                TraceabilityConfig { relationship_field: FieldName::Refines, target_type: ItemType::UseCase },
            ],
            ItemType::SystemRequirement => vec![
                TraceabilityConfig { relationship_field: FieldName::DerivesFrom, target_type: ItemType::Scenario },
                TraceabilityConfig { relationship_field: FieldName::DependsOn, target_type: ItemType::SystemRequirement },
            ],
            ItemType::SystemArchitecture => vec![
                TraceabilityConfig { relationship_field: FieldName::Satisfies, target_type: ItemType::SystemRequirement },
            ],
            ItemType::HardwareRequirement => vec![
                TraceabilityConfig { relationship_field: FieldName::DerivesFrom, target_type: ItemType::SystemArchitecture },
                TraceabilityConfig { relationship_field: FieldName::DependsOn, target_type: ItemType::HardwareRequirement },
            ],
            ItemType::SoftwareRequirement => vec![
                TraceabilityConfig { relationship_field: FieldName::DerivesFrom, target_type: ItemType::SystemArchitecture },
                TraceabilityConfig { relationship_field: FieldName::DependsOn, target_type: ItemType::SoftwareRequirement },
            ],
            ItemType::HardwareDetailedDesign => vec![
                TraceabilityConfig { relationship_field: FieldName::Satisfies, target_type: ItemType::HardwareRequirement },
            ],
            ItemType::SoftwareDetailedDesign => vec![
                TraceabilityConfig { relationship_field: FieldName::Satisfies, target_type: ItemType::SoftwareRequirement },
            ],
            ItemType::ArchitectureDecisionRecord => vec![
                TraceabilityConfig { relationship_field: FieldName::Justifies, target_type: ItemType::SystemArchitecture },
                TraceabilityConfig { relationship_field: FieldName::Justifies, target_type: ItemType::HardwareDetailedDesign },
                TraceabilityConfig { relationship_field: FieldName::Justifies, target_type: ItemType::SoftwareDetailedDesign },
            ],
        };
        assert(r@ =~= traceability_configs_of(*self));
        r
    }
}

/// Every type that requires a parent has a traceability field, and the
/// parent it requires is the target of its first traceability link.
pub proof fn lemma_parent_matches_traceability(t: ItemType)
    ensures
        required_parent(t) is Some ==> traceability_field_of(t) is Some,
        required_parent(t) is Some ==> traceability_configs_of(t).len() > 0
            && traceability_configs_of(t)[0].target_type == required_parent(t)->0,
{
}

/// Unique identifier for an item across all repositories.
#[derive(Debug, Clone, PartialEq, Eq, Hash)]
pub struct ItemId(String);

impl View for ItemId {
    type V = Seq<char>;

    closed spec fn view(&self) -> Seq<char> {
        self.0@
    }
}

/// True if the characters are a valid item ID body: alphanumeric, `-` or
/// `_` only.
pub open spec fn valid_id_chars(s: Seq<char>) -> bool {
    forall|i: int| 0 <= i < s.len() ==> (alphanumeric(#[trigger] s[i]) || s[i] == '-' || s[i] == '_')
}

impl ItemId {
    /// Creates a new ItemId, validating its format: it must be non-empty
    /// and hold only alphanumeric characters, hyphens and underscores.
    pub fn new(id: &str) -> (r: Result<ItemId, SaraError>)
        ensures
            r matches Ok(v) ==> v@ == id@,
            r is Ok <==> (id@.len() > 0 && valid_id_chars(id@)),
            id@.len() == 0 ==> (r matches Err(SaraError::InvalidId { id: i, reason: m }) && i@ == id@
                && m@ == "Item ID cannot be empty"@),
            (id@.len() > 0 && !valid_id_chars(id@)) ==> (r matches Err(
                SaraError::InvalidId { id: i, reason: m },
            ) && i@ == id@
                && m@ == "Item ID must contain only alphanumeric characters, hyphens, and underscores"@),
    {
        let v = str_chars(id);
        if v.len() == 0 {
            return Err(
                SaraError::InvalidId {
                    id: id.to_owned(),
                    reason: "Item ID cannot be empty".to_owned(),
                },
            );
        }
        let mut i: usize = 0;
        while i < v.len()
            invariant
                v@ == id@,
                i <= v.len(),
                forall|j: int| 0 <= j < i ==> (alphanumeric(#[trigger] v@[j]) || v@[j] == '-' || v@[j] == '_'),
            decreases v.len() - i,
        {
            let c = v[i];
            if !(char_is_alphanumeric(c) || c == '-' || c == '_') {
                assert(!valid_id_chars(id@) && id@[i as int] == c);
                return Err(
                    SaraError::InvalidId {
                        id: id.to_owned(),
                        reason: "Item ID must contain only alphanumeric characters, hyphens, and underscores".to_owned(),
                    },
                );
            }
            i += 1;
        }
        Ok(ItemId(id.to_owned()))
    }

    /// Creates a new ItemId without validation.
    pub fn new_unchecked(id: &str) -> (r: ItemId)
        ensures
            r@ == id@,
    {
        ItemId(id.to_owned())
    }

    /// Creates a new ItemId from an owned string, without validation.
    pub fn from_string(id: String) -> (r: ItemId)
        ensures
            r@ == id@,
    {
        ItemId(id)
    }

    /// Returns the raw identifier string.
    pub fn as_str(&self) -> (r: &str)
        ensures
            r@ == self@,
    {
        self.0.as_str()
    }

    /// Returns a copy of this identifier.
    pub fn duplicate(&self) -> (r: ItemId)
        ensures
            r@ == self@,
    {
        ItemId(self.0.clone())
    }

    /// Returns true if both identifiers hold the same text.
    pub fn same_as(&self, other: &ItemId) -> (r: bool)
        ensures
            r == (self@ == other@),
    {
        self.0 == other.0
    }
}

/// Type-specific attributes for items, stored as an ordered field map.
#[derive(Debug)]
pub struct ItemAttributes {
    fields: IndexMap<String, FieldValue>,
}

/// The value stored under `key`, if any.
pub open spec fn entry_value(e: Seq<(String, FieldValue)>, key: Seq<char>) -> Option<FieldValue> {
    match key_position(e, key) {
        Some(p) => Some(e[p].1),
        None => None,
    }
}

/// The text stored under `key`, if the entry is a text value.
pub open spec fn entry_text(e: Seq<(String, FieldValue)>, key: Seq<char>) -> Option<String> {
    match entry_value(e, key) {
        Some(FieldValue::Text(s)) => Some(s),
        _ => None,
    }
}

/// The identifiers held by the item references of a list.
pub open spec fn ref_ids(l: Seq<FieldValue>) -> Seq<Seq<char>>
    decreases l.len(),
{
    if l.len() == 0 {
        seq![]
    } else {
        ref_ids(l.drop_last()) + match l.last() {
            FieldValue::ItemRef(id) => seq![id@],
            _ => seq![],
        }
    }
}

/// The texts held by the text values of a list.
pub open spec fn text_values(l: Seq<FieldValue>) -> Seq<Seq<char>>
    decreases l.len(),
{
    if l.len() == 0 {
        seq![]
    } else {
        text_values(l.drop_last()) + match l.last() {
            FieldValue::Text(s) => seq![s@],
            _ => seq![],
        }
    }
}

/// The identifiers referenced by the list under `key`.
pub open spec fn entry_ref_ids(e: Seq<(String, FieldValue)>, key: Seq<char>) -> Seq<Seq<char>> {
    match entry_value(e, key) {
        Some(FieldValue::List(l)) => ref_ids(l@),
        _ => seq![],
    }
}

/// The ids of a sequence of item identifiers.
pub open spec fn id_views(ids: Seq<ItemId>) -> Seq<Seq<char>> {
    ids.map_values(|id: ItemId| id@)
}

/// The texts of a sequence of strings.
pub open spec fn string_views(v: Seq<String>) -> Seq<Seq<char>> {
    v.map_values(|s: String| s@)
}

/// Collects the identifiers of the item references in `l`.
fn collect_ref_ids(l: &[FieldValue]) -> (r: Vec<ItemId>)
    ensures
        id_views(r@) == ref_ids(l@),
{
    let mut r: Vec<ItemId> = Vec::new();
    let mut i: usize = 0;
    while i < l.len()
        invariant
            i <= l.len(),
            id_views(r@) == ref_ids(l@.take(i as int)),
        decreases l.len() - i,
    {
        assert(l@.take(i + 1).drop_last() =~= l@.take(i as int));
        match &l[i] {
            FieldValue::ItemRef(id) => {
                r.push(id.duplicate());
            },
            _ => {},
        }
        assert(id_views(r@) =~= ref_ids(l@.take(i + 1)));
        i += 1;
    }
    assert(l@.take(l.len() as int) =~= l@);
    r
}

/// Collects the texts of the text values in `l`.
fn collect_texts(l: &[FieldValue]) -> (r: Vec<String>)
    ensures
        string_views(r@) == text_values(l@),
{
    let mut r: Vec<String> = Vec::new();
    let mut i: usize = 0;
    while i < l.len()
        invariant
            i <= l.len(),
            string_views(r@) == text_values(l@.take(i as int)),
        decreases l.len() - i,
    {
        assert(l@.take(i + 1).drop_last() =~= l@.take(i as int));
        match &l[i] {
            FieldValue::Text(s) => {
                r.push(s.clone());
            },
            _ => {},
        }
        assert(string_views(r@) =~= text_values(l@.take(i + 1)));
        i += 1;
    }
    assert(l@.take(l.len() as int) =~= l@);
    r
}

impl ItemAttributes {
    /// The entries of the map, in declaration order.
    pub closed spec fn entries(&self) -> Seq<(String, FieldValue)> {
        attribute_entries(self.fields)
    }

    /// Creates an empty attribute map.
    pub fn new() -> (r: ItemAttributes)
        ensures
            r.entries() == Seq::<(String, FieldValue)>::empty(),
    {
        ItemAttributes { fields: map_new() }
    }

    /// Creates default attributes for the given item type: an empty map.
    pub fn for_type(_item_type: ItemType) -> (r: ItemAttributes)
        ensures
            r.entries() == Seq::<(String, FieldValue)>::empty(),
    {
        ItemAttributes::new()
    }

    /// Returns the value for a field, if present.
    pub fn get(&self, name: &str) -> (r: Option<&FieldValue>)
        ensures
            match key_position(self.entries(), name@) {
                Some(p) => r == Some(&self.entries()[p].1),
                None => r is None,
            },
    {
        map_get(&self.fields, name)
    }

    /// Inserts a value for a field, returning the previous value if any.
    /// An existing field keeps its place; a new one is appended.
    pub fn insert(&mut self, name: String, value: FieldValue) -> (r: Option<FieldValue>)
        ensures
            match key_position(old(self).entries(), name@) {
                Some(p) => {
                    &&& final(self).entries() == old(self).entries().update(
                        p,
                        (old(self).entries()[p].0, value),
                    )
                    &&& r == Some(old(self).entries()[p].1)
                },
                None => {
                    &&& final(self).entries() == old(self).entries().push((name, value))
                    &&& r is None
                },
            },
            entry_value(final(self).entries(), name@) == Some(value),
            forall|k: Seq<char>|
                k != name@ ==> #[trigger] entry_value(final(self).entries(), k) == entry_value(
                    old(self).entries(),
                    k,
                ),
    {
        let ghost e = self.entries();
        let ghost nm = name@;
        let r = map_insert(&mut self.fields, name, value);
        proof {
            lemma_key_position_valid(e, nm);
            match key_position(e, nm) {
                Some(p) => {
                    assert forall|k: Seq<char>| true implies key_position(self.entries(), k) == key_position(e, k) by {
                        lemma_key_position_update(e, p, value, k);
                    }
                    lemma_key_position_valid(self.entries(), nm);
                    assert forall|k: Seq<char>| k != nm implies #[trigger] entry_value(self.entries(), k) == entry_value(e, k) by {
                        lemma_key_position_update(e, p, value, k);
                        lemma_key_position_valid(e, k);
                    }
                },
                None => {
                    assert forall|k: Seq<char>| true implies key_position(self.entries(), k) == match key_position(e, k) {
                        Some(p) => Some(p),
                        None => if nm == k { Some(e.len() as int) } else { None },
                    } by {
                        lemma_key_position_push(e, self.entries().last(), k);
                        assert(self.entries() == e.push(self.entries().last()));
                    }
                    assert forall|k: Seq<char>| k != nm implies #[trigger] entry_value(self.entries(), k) == entry_value(e, k) by {
                        lemma_key_position_push(e, self.entries().last(), k);
                        assert(self.entries() == e.push(self.entries().last()));
                        lemma_key_position_valid(e, k);
                    }
                },
            }
        }
        r
    }

    /// Removes a field, returning the previous value if any.
    pub fn remove(&mut self, name: &str) -> (r: Option<FieldValue>)
        ensures
            match key_position(old(self).entries(), name@) {
                Some(p) => {
                    &&& final(self).entries() == old(self).entries().remove(p)
                    &&& r == Some(old(self).entries()[p].1)
                },
                None => {
                    &&& final(self).entries() == old(self).entries()
                    &&& r is None
                },
            },
    {
        map_shift_remove(&mut self.fields, name)
    }

    /// Returns the entry at position `i`, if any.
    pub fn entry_at(&self, i: usize) -> (r: Option<(&String, &FieldValue)>)
        ensures
            i < self.entries().len() ==> r == Some(
                (&self.entries()[i as int].0, &self.entries()[i as int].1),
            ),
            i >= self.entries().len() ==> r is None,
    {
        map_get_index(&self.fields, i)
    }

    /// Returns true when the attribute map is empty.
    pub fn is_empty(&self) -> (r: bool)
        ensures
            r == (self.entries().len() == 0),
    {
        map_len(&self.fields) == 0
    }

    /// Returns the number of fields currently stored.
    pub fn len(&self) -> (r: usize)
        ensures
            r == self.entries().len(),
    {
        map_len(&self.fields)
    }

    /// Returns the specification text if a `specification` text field is set.
    pub fn specification(&self) -> (r: Option<&String>)
        ensures
            match entry_text(self.entries(), "specification"@) {
                Some(s) => r is Some && *r.unwrap() == s,
                None => r is None,
            },
    {
        match self.get("specification") {
            Some(v) => v.as_text(),
            None => None,
        }
    }

    /// Returns the platform text if a `platform` text field is set.
    pub fn platform(&self) -> (r: Option<&String>)
        ensures
            match entry_text(self.entries(), "platform"@) {
                Some(s) => r is Some && *r.unwrap() == s,
                None => r is None,
            },
    {
        match self.get("platform") {
            Some(v) => v.as_text(),
            None => None,
        }
    }

    /// Returns the depends_on references.
    pub fn depends_on(&self) -> (r: Vec<ItemId>)
        ensures
            id_views(r@) == entry_ref_ids(self.entries(), "depends_on"@),
    {
        match self.get("depends_on") {
            Some(FieldValue::List(l)) => collect_ref_ids(l.as_slice()),
            _ => Vec::new(),
        }
    }

    /// Returns the supersedes references.
    pub fn supersedes(&self) -> (r: Vec<ItemId>)
        ensures
            id_views(r@) == entry_ref_ids(self.entries(), "supersedes"@),
    {
        match self.get("supersedes") {
            Some(FieldValue::List(l)) => collect_ref_ids(l.as_slice()),
            _ => Vec::new(),
        }
    }

    /// Returns the ADR deciders.
    pub fn deciders(&self) -> (r: Vec<String>)
        ensures
            string_views(r@) == match entry_value(self.entries(), "deciders"@) {
                Some(FieldValue::List(l)) => text_values(l@),
                _ => seq![],
            },
    {
        match self.get("deciders") {
            Some(FieldValue::List(l)) => collect_texts(l.as_slice()),
            _ => Vec::new(),
        }
    }

    /// Returns the ADR lifecycle status if a valid `status` enum field is set.
    pub fn status(&self) -> (r: Option<AdrStatus>)
        ensures
            r == match entry_value(self.entries(), "status"@) {
                Some(FieldValue::Enum(s)) => match parse_status(s@) {
                    Ok(st) => Some(st),
                    Err(_) => None,
                },
                _ => None,
            },
    {
        match self.get("status") {
            Some(FieldValue::Enum(s)) => match AdrStatus::parse(s.as_str()) {
                Ok(st) => Some(st),
                Err(_) => None,
            },
            _ => None,
        }
    }
}

impl Clone for ItemAttributes {
    fn clone(&self) -> (r: ItemAttributes)
        ensures
            super::attribute_map::same_entries(r.entries(), self.entries()),
    {
        ItemAttributes { fields: super::attribute_map::map_clone(&self.fields) }
    }
}

impl Default for ItemAttributes {
    fn default() -> (r: ItemAttributes)
        ensures
            r.entries() == Seq::<(String, FieldValue)>::empty(),
    {
        ItemAttributes::new()
    }
}

/// Represents a single document/node in the knowledge graph.
#[derive(Debug, Clone)]
pub struct Item {
    /// Unique identifier.
    pub id: ItemId,
    /// Type of this item.
    pub item_type: ItemType,
    /// Human-readable name.
    pub name: String,
    /// Optional description.
    pub description: Option<String>,
    /// Source file location.
    pub source: SourceLocation,
    /// All relationships from this item to other items.
    pub relationships: Vec<Relationship>,
    /// Type-specific attributes.
    pub attributes: ItemAttributes,
}

/// The targets of the relationships of type `rel`, in declaration order.
pub open spec fn targets_of(rels: Seq<Relationship>, rel: RelationshipType) -> Seq<Seq<char>>
    decreases rels.len(),
{
    if rels.len() == 0 {
        seq![]
    } else {
        targets_of(rels.drop_last(), rel) + if rels.last().relationship_type == rel {
            seq![rels.last().to@]
        } else {
            seq![]
        }
    }
}

/// The targets of all relationships.
pub open spec fn all_targets(rels: Seq<Relationship>) -> Seq<Seq<char>> {
    rels.map_values(|r: Relationship| r.to@)
}

/// True if some relationship has the given type.
pub open spec fn has_rel_type(rels: Seq<Relationship>, rel: RelationshipType) -> bool {
    exists|i: int| 0 <= i < rels.len() && rels[i].relationship_type == rel
}

/// True if some relationship points upstream.
pub open spec fn has_upstream_rel(rels: Seq<Relationship>) -> bool {
    exists|i: int|
        0 <= i < rels.len() && direction_of(#[trigger] rels[i].relationship_type)
            == RelationDirection::Upstream
}

/// Every identifier an item references: its relationship targets, then
/// the `depends_on` and `supersedes` references of its attributes.
pub open spec fn references_of(item: Item) -> Seq<Seq<char>> {
    all_targets(item.relationships@) + entry_ref_ids(item.attributes.entries(), "depends_on"@)
        + entry_ref_ids(item.attributes.entries(), "supersedes"@)
}

impl Item {
    /// Returns the targets of the relationships of the given type.
    pub fn relationship_ids(&self, rel_type: RelationshipType) -> (r: Vec<&ItemId>)
        ensures
            r@.map_values(|id: &ItemId| id@) == targets_of(self.relationships@, rel_type),
    {
        let mut r: Vec<&ItemId> = Vec::new();
        let mut i: usize = 0;
        while i < self.relationships.len()
            invariant
                i <= self.relationships.len(),
                r@.map_values(|id: &ItemId| id@) == targets_of(
                    self.relationships@.take(i as int),
                    rel_type,
                ),
            decreases self.relationships.len() - i,
        {
            let ghost before = r@;
            assert(self.relationships@.take(i + 1).drop_last() =~= self.relationships@.take(
                i as int,
            ));
            if self.relationships[i].relationship_type == rel_type {
                r.push(&self.relationships[i].to);
                assert(r@.map_values(|id: &ItemId| id@) =~= before.map_values(|id: &ItemId| id@)
                    + seq![self.relationships@[i as int].to@]);
            } else {
                assert(r@.map_values(|id: &ItemId| id@) =~= before.map_values(|id: &ItemId| id@)
                    + Seq::<Seq<char>>::empty());
            }
            i += 1;
        }
        assert(self.relationships@.take(self.relationships.len() as int) =~= self.relationships@);
        r
    }

    /// Returns true if this item has any relationships of the given type.
    pub fn has_relationship_type(&self, rel_type: RelationshipType) -> (r: bool)
        ensures
            r == has_rel_type(self.relationships@, rel_type),
    {
        let mut i: usize = 0;
        while i < self.relationships.len()
            invariant
                i <= self.relationships.len(),
                forall|j: int| 0 <= j < i ==> self.relationships@[j].relationship_type != rel_type,
            decreases self.relationships.len() - i,
        {
            if self.relationships[i].relationship_type == rel_type {
                return true;
            }
            i += 1;
        }
        false
    }

    /// Returns true if this item has any upstream relationships.
    pub fn has_upstream(&self) -> (r: bool)
        ensures
            r == has_upstream_rel(self.relationships@),
    {
        let mut i: usize = 0;
        while i < self.relationships.len()
            invariant
                i <= self.relationships.len(),
                forall|j: int|
                    0 <= j < i ==> direction_of(#[trigger] self.relationships@[j].relationship_type)
                        != RelationDirection::Upstream,
            decreases self.relationships.len() - i,
        {
            if self.relationships[i].relationship_type.is_upstream() {
                return true;
            }
            i += 1;
        }
        false
    }

    /// Returns every referenced item ID: relationship targets, then the peer
    /// references stored in the attributes.
    pub fn all_references(&self) -> (r: Vec<ItemId>)
        ensures
            id_views(r@) == references_of(*self),
    {
        let mut r: Vec<ItemId> = Vec::new();
        let mut i: usize = 0;
        while i < self.relationships.len()
            invariant
                i <= self.relationships.len(),
                id_views(r@) == all_targets(self.relationships@.take(i as int)),
            decreases self.relationships.len() - i,
        {
            r.push(self.relationships[i].to.duplicate());
            assert(self.relationships@.take(i + 1) =~= self.relationships@.take(i as int).push(
                self.relationships@[i as int],
            ));
            assert(id_views(r@) =~= id_views(r@.drop_last()).push(r@.last()@));
            assert(all_targets(self.relationships@.take(i + 1)) =~= all_targets(
                self.relationships@.take(i as int),
            ).push(self.relationships@[i as int].to@));
            assert(id_views(r@) =~= all_targets(self.relationships@.take(i + 1)));
            i += 1;
        }
        assert(self.relationships@.take(self.relationships.len() as int) =~= self.relationships@);
        let deps = self.attributes.depends_on();
        let sups = self.attributes.supersedes();
        let ghost before = r@;
        let mut deps_m = deps;
        let mut sups_m = sups;
        r.append(&mut deps_m);
        r.append(&mut sups_m);
        assert(id_views(r@) =~= references_of(*self));
        r
    }
}

} // verus!

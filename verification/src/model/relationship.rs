//! Relationship types and structures for the knowledge graph.
use vstd::prelude::*;

use super::item::{ItemId, ItemType};

verus! {

/// The relations an item can declare toward another item.
#[derive(Debug, Clone, Copy, PartialEq, Eq, Hash, Structural)]
pub enum RelationshipType {
    /// Use case or scenario refines its parent.
    Refines,
    /// Parent is refined by a use case or scenario.
    IsRefinedBy,
    /// A scenario or architecture derives requirements.
    Derives,
    /// A requirement derives from a scenario or architecture.
    DerivesFrom,
    /// An architecture or design satisfies a requirement.
    Satisfies,
    /// A requirement is satisfied by an architecture or design.
    IsSatisfiedBy,
    /// A requirement depends on a peer requirement.
    DependsOn,
    /// A requirement is required by a peer requirement.
    IsRequiredBy,
    /// An ADR justifies a design artifact.
    Justifies,
    /// A design artifact is justified by an ADR.
    IsJustifiedBy,
    /// An ADR supersedes an older ADR.
    Supersedes,
    /// An ADR is superseded by a newer ADR.
    IsSupersededBy,
}

/// Direction of a relation in the hierarchy.
#[derive(Debug, Clone, Copy, PartialEq, Eq, Structural)]
pub enum RelationDirection {
    /// Toward the hierarchy root.
    Upstream,
    /// Away from the hierarchy root.
    Downstream,
    /// Between items of the same kind.
    Peer,
}

/// The relations in catalog order.
pub open spec fn all_relations() -> Seq<RelationshipType> {
    seq![
        RelationshipType::Refines,
        RelationshipType::IsRefinedBy,
        RelationshipType::DerivesFrom,
        RelationshipType::Derives,
        RelationshipType::Satisfies,
        RelationshipType::IsSatisfiedBy,
        RelationshipType::DependsOn,
        RelationshipType::IsRequiredBy,
        RelationshipType::Justifies,
        RelationshipType::IsJustifiedBy,
        RelationshipType::Supersedes,
        RelationshipType::IsSupersededBy,
    ]
}

/// The frontmatter field name (relation id) of a relation.
pub open spec fn relation_id(r: RelationshipType) -> Seq<char> {
    match r {
        RelationshipType::Refines => "refines"@,
        RelationshipType::IsRefinedBy => "is_refined_by"@,
        RelationshipType::Derives => "derives"@,
        RelationshipType::DerivesFrom => "derives_from"@,
        RelationshipType::Satisfies => "satisfies"@,
        RelationshipType::IsSatisfiedBy => "is_satisfied_by"@,
        RelationshipType::DependsOn => "depends_on"@,
        RelationshipType::IsRequiredBy => "is_required_by"@,
        RelationshipType::Justifies => "justifies"@,
        RelationshipType::IsJustifiedBy => "is_justified_by"@,
        RelationshipType::Supersedes => "supersedes"@,
        RelationshipType::IsSupersededBy => "is_superseded_by"@,
    }
}

/// The human-readable name of a relation.
pub open spec fn relation_display(r: RelationshipType) -> Seq<char> {
    match r {
        RelationshipType::Refines => "Refines"@,
        RelationshipType::IsRefinedBy => "Is Refined By"@,
        RelationshipType::Derives => "Derives"@,
        RelationshipType::DerivesFrom => "Derives From"@,
        RelationshipType::Satisfies => "Satisfies"@,
        RelationshipType::IsSatisfiedBy => "Is Satisfied By"@,
        RelationshipType::DependsOn => "Depends On"@,
        RelationshipType::IsRequiredBy => "Is Required By"@,
        RelationshipType::Justifies => "Justifies"@,
        RelationshipType::IsJustifiedBy => "Is Justified By"@,
        RelationshipType::Supersedes => "Supersedes"@,
        RelationshipType::IsSupersededBy => "Is Superseded By"@,
    }
}

/// A relation as `{:?}` prints it: the handle around its id,
/// `RelationshipType("refines")`.
pub open spec fn relation_debug(r: RelationshipType) -> Seq<char> {
    "RelationshipType(\""@ + relation_id(r) + "\")"@
}

/// The inverse of a relation.
pub open spec fn inverse_of(r: RelationshipType) -> RelationshipType {
    match r {
        RelationshipType::Refines => RelationshipType::IsRefinedBy,
        RelationshipType::IsRefinedBy => RelationshipType::Refines,
        RelationshipType::Derives => RelationshipType::DerivesFrom,
        RelationshipType::DerivesFrom => RelationshipType::Derives,
        RelationshipType::Satisfies => RelationshipType::IsSatisfiedBy,
        RelationshipType::IsSatisfiedBy => RelationshipType::Satisfies,
        RelationshipType::DependsOn => RelationshipType::IsRequiredBy,
        RelationshipType::IsRequiredBy => RelationshipType::DependsOn,
        RelationshipType::Justifies => RelationshipType::IsJustifiedBy,
        RelationshipType::IsJustifiedBy => RelationshipType::Justifies,
        RelationshipType::Supersedes => RelationshipType::IsSupersededBy,
        RelationshipType::IsSupersededBy => RelationshipType::Supersedes,
    }
}

/// The direction of a relation.
pub open spec fn direction_of(r: RelationshipType) -> RelationDirection {
    match r {
        RelationshipType::Refines | RelationshipType::DerivesFrom | RelationshipType::Satisfies
        | RelationshipType::Justifies => RelationDirection::Upstream,
        RelationshipType::IsRefinedBy | RelationshipType::Derives
        | RelationshipType::IsSatisfiedBy | RelationshipType::IsJustifiedBy =>
            RelationDirection::Downstream,
        _ => RelationDirection::Peer,
    }
}

/// True for the declared side of an inverse pair.
pub open spec fn primary(r: RelationshipType) -> bool {
    match r {
        RelationshipType::Refines | RelationshipType::DerivesFrom | RelationshipType::Satisfies
        | RelationshipType::Justifies | RelationshipType::DependsOn
        | RelationshipType::Supersedes => true,
        _ => false,
    }
}

/// The first relation at or after catalog position `i` whose id is `id`.
pub open spec fn relation_with_id_from(id: Seq<char>, i: nat) -> Option<RelationshipType>
    decreases 12 - i,
{
    if i >= 12 {
        None
    } else if relation_id(all_relations()[i as int]) == id {
        Some(all_relations()[i as int])
    } else {
        relation_with_id_from(id, i + 1)
    }
}

/// The relation whose id is `id`, if any.
pub open spec fn relation_from_id(id: Seq<char>) -> Option<RelationshipType> {
    relation_with_id_from(id, 0)
}

/// True if `from --rel--> to` is allowed by the built-in traceability model.
pub open spec fn upstream_allowed(from: ItemType, to: ItemType, rel: RelationshipType) -> bool {
    match rel {
        RelationshipType::Refines => (from == ItemType::UseCase && to == ItemType::Solution) || (
        from == ItemType::Scenario && to == ItemType::UseCase),
        RelationshipType::DerivesFrom => (from == ItemType::SystemRequirement && to
            == ItemType::Scenario) || ((from == ItemType::HardwareRequirement || from
            == ItemType::SoftwareRequirement) && to == ItemType::SystemArchitecture),
        RelationshipType::Satisfies => (from == ItemType::SystemArchitecture && to
            == ItemType::SystemRequirement) || (from == ItemType::HardwareDetailedDesign && to
            == ItemType::HardwareRequirement) || (from == ItemType::SoftwareDetailedDesign && to
            == ItemType::SoftwareRequirement),
        RelationshipType::Justifies => from == ItemType::ArchitectureDecisionRecord && (to
            == ItemType::SystemArchitecture || to == ItemType::HardwareDetailedDesign || to
            == ItemType::SoftwareDetailedDesign),
        _ => false,
    }
}

/// True if the relationship is valid between the two item types: upstream
/// relations follow the hierarchy, downstream relations are the mirror of an
/// upstream one, and peer relations join items of the same kind.
pub open spec fn valid_relationship(from: ItemType, to: ItemType, rel: RelationshipType) -> bool {
    match direction_of(rel) {
        RelationDirection::Upstream => upstream_allowed(from, to, rel),
        RelationDirection::Downstream => upstream_allowed(to, from, inverse_of(rel)),
        RelationDirection::Peer => match rel {
            RelationshipType::DependsOn | RelationshipType::IsRequiredBy => from == to && (from
                == ItemType::SystemRequirement || from == ItemType::HardwareRequirement || from
                == ItemType::SoftwareRequirement),
            _ => from == to && from == ItemType::ArchitectureDecisionRecord,
        },
    }
}

impl RelationshipType {
    /// Returns all relations, in catalog order.
    pub fn all() -> (r: Vec<RelationshipType>)
        ensures
            r@ == all_relations(),
    {
        let r = vec![
            RelationshipType::Refines,
            RelationshipType::IsRefinedBy,
            RelationshipType::DerivesFrom,
            RelationshipType::Derives,
            RelationshipType::Satisfies,
            RelationshipType::IsSatisfiedBy,
            RelationshipType::DependsOn,
            RelationshipType::IsRequiredBy,
            RelationshipType::Justifies,
            RelationshipType::IsJustifiedBy,
            RelationshipType::Supersedes,
            RelationshipType::IsSupersededBy,
        ];
        assert(r@ =~= all_relations());
        r
    }

    /// Returns the relation id (snake_case frontmatter field name).
    pub fn as_str(&self) -> (r: &'static str)
        ensures
            r@ == relation_id(*self),
    {
        match self {
            RelationshipType::Refines => "refines",
            RelationshipType::IsRefinedBy => "is_refined_by",
            RelationshipType::Derives => "derives",
            RelationshipType::DerivesFrom => "derives_from",
            RelationshipType::Satisfies => "satisfies",
            RelationshipType::IsSatisfiedBy => "is_satisfied_by",
            RelationshipType::DependsOn => "depends_on",
            RelationshipType::IsRequiredBy => "is_required_by",
            RelationshipType::Justifies => "justifies",
            RelationshipType::IsJustifiedBy => "is_justified_by",
            RelationshipType::Supersedes => "supersedes",
            RelationshipType::IsSupersededBy => "is_superseded_by",
        }
    }

    /// Returns the relation as the `Debug` output prints it.
    pub fn debug_name(&self) -> (r: String)
        ensures
            r@ == relation_debug(*self),
    {
        let mut v = crate::text::str_chars("RelationshipType(\"");
        crate::text::extend_str(&mut v, self.as_str());
        crate::text::extend_str(&mut v, "\")");
        crate::text::chars_to_string(&v)
    }

    /// Returns the display name for this relation.
    pub fn display_name(&self) -> (r: &'static str)
        ensures
            r@ == relation_display(*self),
    {
        match self {
            RelationshipType::Refines => "Refines",
            RelationshipType::IsRefinedBy => "Is Refined By",
            RelationshipType::Derives => "Derives",
            RelationshipType::DerivesFrom => "Derives From",
            RelationshipType::Satisfies => "Satisfies",
            RelationshipType::IsSatisfiedBy => "Is Satisfied By",
            RelationshipType::DependsOn => "Depends On",
            RelationshipType::IsRequiredBy => "Is Required By",
            RelationshipType::Justifies => "Justifies",
            RelationshipType::IsJustifiedBy => "Is Justified By",
            RelationshipType::Supersedes => "Supersedes",
            RelationshipType::IsSupersededBy => "Is Superseded By",
        }
    }

    /// Returns the relation with the given id, if there is one.
    pub fn from_id(id: &str) -> (r: Option<RelationshipType>)
        ensures
            r == relation_from_id(id@),
            r matches Some(rel) ==> relation_id(rel) == id@,
    {
        let all = RelationshipType::all();
        let want = crate::text::str_chars(id);
        let mut i: usize = 0;
        while i < all.len()
            invariant
                all@ == all_relations(),
                want@ == id@,
                i <= all.len(),
                relation_from_id(id@) == relation_with_id_from(id@, i as nat),
            decreases all.len() - i,
        {
            let name = crate::text::str_chars(all[i].as_str());
            if crate::text::chars_eq(&name, &want) {
                return Some(all[i]);
            }
            i += 1;
        }
        None
    }

    /// Returns the inverse relation.
    pub fn inverse(&self) -> (r: RelationshipType)
        ensures
            r == inverse_of(*self),
    {
        match self {
            RelationshipType::Refines => RelationshipType::IsRefinedBy,
            RelationshipType::IsRefinedBy => RelationshipType::Refines,
            RelationshipType::Derives => RelationshipType::DerivesFrom,
            RelationshipType::DerivesFrom => RelationshipType::Derives,
            RelationshipType::Satisfies => RelationshipType::IsSatisfiedBy,
            RelationshipType::IsSatisfiedBy => RelationshipType::Satisfies,
            RelationshipType::DependsOn => RelationshipType::IsRequiredBy,
            RelationshipType::IsRequiredBy => RelationshipType::DependsOn,
            RelationshipType::Justifies => RelationshipType::IsJustifiedBy,
            RelationshipType::IsJustifiedBy => RelationshipType::Justifies,
            RelationshipType::Supersedes => RelationshipType::IsSupersededBy,
            RelationshipType::IsSupersededBy => RelationshipType::Supersedes,
        }
    }

    /// Returns the direction of this relation.
    pub fn direction(&self) -> (r: RelationDirection)
        ensures
            r == direction_of(*self),
    {
        match self {
            RelationshipType::Refines | RelationshipType::DerivesFrom
            | RelationshipType::Satisfies | RelationshipType::Justifies =>
                RelationDirection::Upstream,
            RelationshipType::IsRefinedBy | RelationshipType::Derives
            | RelationshipType::IsSatisfiedBy | RelationshipType::IsJustifiedBy =>
                RelationDirection::Downstream,
            _ => RelationDirection::Peer,
        }
    }

    /// True for relations toward the hierarchy root.
    pub fn is_upstream(&self) -> (r: bool)
        ensures
            r == (direction_of(*self) == RelationDirection::Upstream),
    {
        self.direction() == RelationDirection::Upstream
    }

    /// True for relations away from the hierarchy root.
    pub fn is_downstream(&self) -> (r: bool)
        ensures
            r == (direction_of(*self) == RelationDirection::Downstream),
    {
        self.direction() == RelationDirection::Downstream
    }

    /// True for relations between items of the same kind.
    pub fn is_peer(&self) -> (r: bool)
        ensures
            r == (direction_of(*self) == RelationDirection::Peer),
    {
        self.direction() == RelationDirection::Peer
    }

    /// True for the declared side of an inverse pair.
    pub fn is_primary(&self) -> (r: bool)
        ensures
            r == primary(*self),
    {
        match self {
            RelationshipType::Refines | RelationshipType::DerivesFrom
            | RelationshipType::Satisfies | RelationshipType::Justifies
            | RelationshipType::DependsOn | RelationshipType::Supersedes => true,
            _ => false,
        }
    }
}

/// The upstream relations are refines, derives from, satisfies and
/// justifies; the downstream ones are their inverses (is refined by,
/// derives, is satisfied by, is justified by); depends on, is required by,
/// supersedes and is superseded by link peers.
pub proof fn lemma_relation_directions(r: RelationshipType)
    ensures
        direction_of(r) == RelationDirection::Upstream <==> (r == RelationshipType::Refines || r
            == RelationshipType::DerivesFrom || r == RelationshipType::Satisfies || r == RelationshipType::Justifies),
        direction_of(r) == RelationDirection::Downstream <==> (r == RelationshipType::IsRefinedBy || r
            == RelationshipType::Derives || r == RelationshipType::IsSatisfiedBy || r
            == RelationshipType::IsJustifiedBy),
        direction_of(r) == RelationDirection::Peer <==> (r == RelationshipType::DependsOn || r
            == RelationshipType::IsRequiredBy || r == RelationshipType::Supersedes || r
            == RelationshipType::IsSupersededBy),
{
}

/// Every relation is the inverse of its inverse.
pub proof fn lemma_inverse_involution(r: RelationshipType)
    ensures
        inverse_of(inverse_of(r)) == r,
{
}

/// A relation and its inverse have mirrored directions: upstream pairs with
/// downstream, and peers stay peers; exactly one side of a pair is primary.
pub proof fn lemma_inverse_direction(r: RelationshipType)
    ensures
        direction_of(r) == RelationDirection::Upstream <==> direction_of(inverse_of(r))
            == RelationDirection::Downstream,
        direction_of(r) == RelationDirection::Peer <==> direction_of(inverse_of(r))
            == RelationDirection::Peer,
        primary(r) != primary(inverse_of(r)),
{
}

/// A relationship is valid exactly when its mirror, seen from the target,
/// is valid.
pub proof fn lemma_valid_relationship_mirror(from: ItemType, to: ItemType, rel: RelationshipType)
    ensures
        valid_relationship(from, to, rel) == valid_relationship(to, from, inverse_of(rel)),
{
}

/// A relationship from one item to another.
#[derive(Debug, Clone, PartialEq, Eq)]
pub struct Relationship {
    /// Target item ID.
    pub to: ItemId,
    /// Type of relationship.
    pub relationship_type: RelationshipType,
}

impl Relationship {
    /// Creates a new relationship to the given target.
    pub fn new(to: ItemId, relationship_type: RelationshipType) -> (r: Relationship)
        ensures
            r.to == to,
            r.relationship_type == relationship_type,
    {
        Relationship { to, relationship_type }
    }
}

/// Valid relationship rules based on item types.
pub struct RelationshipRules;

impl RelationshipRules {
    /// Checks if a relationship is valid between two item types.
    pub fn is_valid_relationship(from_type: ItemType, to_type: ItemType, rel_type: RelationshipType) -> (r: bool)
        ensures
            r == valid_relationship(from_type, to_type, rel_type),
    {
        match rel_type.direction() {
            RelationDirection::Upstream => Self::upstream_allowed(from_type, to_type, rel_type),
            RelationDirection::Downstream => Self::upstream_allowed(
                to_type,
                from_type,
                rel_type.inverse(),
            ),
            RelationDirection::Peer => match rel_type {
                RelationshipType::DependsOn | RelationshipType::IsRequiredBy => from_type
                    == to_type && (from_type == ItemType::SystemRequirement || from_type
                    == ItemType::HardwareRequirement || from_type
                    == ItemType::SoftwareRequirement),
                _ => from_type == to_type && from_type == ItemType::ArchitectureDecisionRecord,
            },
        }
    }

    fn upstream_allowed(from: ItemType, to: ItemType, rel: RelationshipType) -> (r: bool)
        ensures
            r == upstream_allowed(from, to, rel),
    {
        match rel {
            RelationshipType::Refines => (from == ItemType::UseCase && to == ItemType::Solution)
                || (from == ItemType::Scenario && to == ItemType::UseCase),
            RelationshipType::DerivesFrom => (from == ItemType::SystemRequirement && to
                == ItemType::Scenario) || ((from == ItemType::HardwareRequirement || from
                == ItemType::SoftwareRequirement) && to == ItemType::SystemArchitecture),
            RelationshipType::Satisfies => (from == ItemType::SystemArchitecture && to
                == ItemType::SystemRequirement) || (from == ItemType::HardwareDetailedDesign
                && to == ItemType::HardwareRequirement) || (from
                == ItemType::SoftwareDetailedDesign && to == ItemType::SoftwareRequirement),
            RelationshipType::Justifies => from == ItemType::ArchitectureDecisionRecord && (to
                == ItemType::SystemArchitecture || to == ItemType::HardwareDetailedDesign || to
                == ItemType::SoftwareDetailedDesign),
            _ => false,
        }
    }
}

} // verus!

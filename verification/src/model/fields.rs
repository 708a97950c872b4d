//! Type-specific fields container for item initialization and editing.
use vstd::prelude::*;

use super::adr::AdrStatus;
use super::item::{is_requirement, type_display, ItemType};
use crate::error::ValidationError;
use crate::text::{clone_opt, clone_strings, opt_view, str_views};

verus! {

/// Type-agnostic container for all item fields.
#[derive(Debug, Clone, Default)]
pub struct TypeFields {
    /// Specification statement (for requirement types).
    pub specification: Option<String>,
    /// Peer dependencies (for requirement types).
    pub depends_on: Vec<String>,
    /// Items this derives from (for requirement types).
    pub derives_from: Vec<String>,
    /// Target platform (for SystemArchitecture).
    pub platform: Option<String>,
    /// Items this satisfies (for architecture/design types).
    pub satisfies: Vec<String>,
    /// Items this refines (for UseCase, Scenario).
    pub refines: Vec<String>,
    /// ADR lifecycle status.
    pub status: Option<AdrStatus>,
    /// Decision makers.
    pub deciders: Vec<String>,
    /// Design artifacts this ADR justifies.
    pub justifies: Vec<String>,
    /// Older ADRs this decision supersedes.
    pub supersedes: Vec<String>,
    /// Newer ADR that supersedes this one.
    pub superseded_by: Option<String>,
}

/// The first field that is set but not accepted by type `t`, checked in
/// the order specification, platform, refines, derives_from, satisfies,
/// depends_on, status, deciders, justifies, supersedes, superseded_by.
pub open spec fn first_invalid_field(f: TypeFields, t: ItemType) -> Option<Seq<char>> {
    if f.specification is Some && !is_requirement(t) {
        Some("specification"@)
    } else if f.platform is Some && t != ItemType::SystemArchitecture {
        Some("platform"@)
    } else if f.refines@.len() > 0 && !(t == ItemType::UseCase || t == ItemType::Scenario) {
        Some("refines"@)
    } else if f.derives_from@.len() > 0 && !is_requirement(t) {
        Some("derives_from"@)
    } else if f.satisfies@.len() > 0 && !(t == ItemType::SystemArchitecture || t
        == ItemType::HardwareDetailedDesign || t == ItemType::SoftwareDetailedDesign) {
        Some("satisfies"@)
    } else if f.depends_on@.len() > 0 && !is_requirement(t) {
        Some("depends_on"@)
    } else if f.status is Some && t != ItemType::ArchitectureDecisionRecord {
        Some("status"@)
    } else if f.deciders@.len() > 0 && t != ItemType::ArchitectureDecisionRecord {
        Some("deciders"@)
    } else if f.justifies@.len() > 0 && t != ItemType::ArchitectureDecisionRecord {
        Some("justifies"@)
    } else if f.supersedes@.len() > 0 && t != ItemType::ArchitectureDecisionRecord {
        Some("supersedes"@)
    } else if f.superseded_by is Some && t != ItemType::ArchitectureDecisionRecord {
        Some("superseded_by"@)
    } else {
        None
    }
}

/// The outcome `validate_for_type` owes: `Ok` when every set field is
/// accepted, else the error naming the first offending field and the type.
pub open spec fn validation_outcome(f: TypeFields, t: ItemType, r: Result<(), ValidationError>) -> bool {
    match first_invalid_field(f, t) {
        None => r is Ok,
        Some(name) => match r {
            Err(ValidationError::InvalidFieldForType { field, item_type }) => field@ == name
                && item_type@ == type_display(t),
            _ => false,
        },
    }
}

/// True if every field of the container is empty or unset.
pub open spec fn fields_empty(f: TypeFields) -> bool {
    &&& f.specification is None
    &&& f.depends_on@.len() == 0
    &&& f.derives_from@.len() == 0
    &&& f.platform is None
    &&& f.satisfies@.len() == 0
    &&& f.refines@.len() == 0
    &&& f.status is None
    &&& f.deciders@.len() == 0
    &&& f.justifies@.len() == 0
    &&& f.supersedes@.len() == 0
    &&& f.superseded_by is None
}

/// True if the two containers hold the same texts and status.
pub open spec fn same_fields(a: TypeFields, b: TypeFields) -> bool {
    &&& opt_view(a.specification) == opt_view(b.specification)
    &&& str_views(a.depends_on@) == str_views(b.depends_on@)
    &&& str_views(a.derives_from@) == str_views(b.derives_from@)
    &&& opt_view(a.platform) == opt_view(b.platform)
    &&& str_views(a.satisfies@) == str_views(b.satisfies@)
    &&& str_views(a.refines@) == str_views(b.refines@)
    &&& a.status == b.status
    &&& str_views(a.deciders@) == str_views(b.deciders@)
    &&& str_views(a.justifies@) == str_views(b.justifies@)
    &&& str_views(a.supersedes@) == str_views(b.supersedes@)
    &&& opt_view(a.superseded_by) == opt_view(b.superseded_by)
}

fn invalid(field: &str, item_type: ItemType) -> (r: Result<(), ValidationError>)
    ensures
        r matches Err(ValidationError::InvalidFieldForType { field: f, item_type: t }) && f@
            == field@ && t@ == type_display(item_type),
{
    Err(
        ValidationError::InvalidFieldForType {
            field: field.to_owned(),
            item_type: item_type.display_name().to_owned(),
        },
    )
}

impl TypeFields {
    /// Creates an empty TypeFields.
    pub fn new() -> (r: TypeFields)
        ensures
            fields_empty(r),
    {
        TypeFields {
            specification: None,
            depends_on: Vec::new(),
            derives_from: Vec::new(),
            platform: None,
            satisfies: Vec::new(),
            refines: Vec::new(),
            status: None,
            deciders: Vec::new(),
            justifies: Vec::new(),
            supersedes: Vec::new(),
            superseded_by: None,
        }
    }

    /// Returns a copy of these fields.
    pub fn duplicate(&self) -> (r: TypeFields)
        ensures
            same_fields(r, *self),
    {
        TypeFields {
            specification: clone_opt(&self.specification),
            depends_on: clone_strings(&self.depends_on),
            derives_from: clone_strings(&self.derives_from),
            platform: clone_opt(&self.platform),
            satisfies: clone_strings(&self.satisfies),
            refines: clone_strings(&self.refines),
            status: self.status,
            deciders: clone_strings(&self.deciders),
            justifies: clone_strings(&self.justifies),
            supersedes: clone_strings(&self.supersedes),
            superseded_by: clone_opt(&self.superseded_by),
        }
    }

    /// Validates that the set fields are appropriate for the given type.
    pub fn validate_for_type(&self, item_type: ItemType) -> (r: Result<(), ValidationError>)
        ensures
            validation_outcome(*self, item_type, r),
    {
        if self.specification.is_some() && !item_type.requires_specification() {
            return invalid("specification", item_type);
        }
        if self.platform.is_some() && !item_type.accepts_platform() {
            return invalid("platform", item_type);
        }
        if self.refines.len() > 0 && !item_type.requires_refines() {
            return invalid("refines", item_type);
        }
        if self.derives_from.len() > 0 && !item_type.requires_derives_from() {
            return invalid("derives_from", item_type);
        }
        if self.satisfies.len() > 0 && !item_type.requires_satisfies() {
            return invalid("satisfies", item_type);
        }
        if self.depends_on.len() > 0 && !item_type.supports_depends_on() {
            return invalid("depends_on", item_type);
        }
        if self.status.is_some() && !item_type.is_adr() {
            return invalid("status", item_type);
        }
        if self.deciders.len() > 0 && !item_type.is_adr() {
            return invalid("deciders", item_type);
        }
        if self.justifies.len() > 0 && !item_type.is_adr() {
            return invalid("justifies", item_type);
        }
        if self.supersedes.len() > 0 && !item_type.is_adr() {
            return invalid("supersedes", item_type);
        }
        if self.superseded_by.is_some() && !item_type.is_adr() {
            return invalid("superseded_by", item_type);
        }
        Ok(())
    }

    /// True if the type needs a specification and none is given.
    pub fn needs_specification(&self, item_type: ItemType) -> (r: bool)
        ensures
            r == (is_requirement(item_type) && self.specification is None),
    {
        item_type.requires_specification() && self.specification.is_none()
    }

    /// Returns true if all fields are empty or unset.
    pub fn is_empty(&self) -> (r: bool)
        ensures
            r == fields_empty(*self),
    {
        self.specification.is_none() && self.depends_on.len() == 0 && self.derives_from.len() == 0
            && self.platform.is_none() && self.satisfies.len() == 0 && self.refines.len() == 0
            && self.status.is_none() && self.deciders.len() == 0 && self.justifies.len() == 0
            && self.supersedes.len() == 0 && self.superseded_by.is_none()
    }

    /// Sets the specification.
    pub fn with_specification(self, spec: &str) -> (r: TypeFields)
        ensures
            r == (TypeFields { specification: r.specification, ..self }),
            opt_view(r.specification) == Some(spec@),
    {
        TypeFields { specification: Some(spec.to_owned()), ..self }
    }

    /// Sets the platform.
    pub fn with_platform(self, platform: &str) -> (r: TypeFields)
        ensures
            r == (TypeFields { platform: r.platform, ..self }),
            opt_view(r.platform) == Some(platform@),
    {
        TypeFields { platform: Some(platform.to_owned()), ..self }
    }

    /// Sets the refines references.
    pub fn with_refines(self, refines: Vec<String>) -> (r: TypeFields)
        ensures
            r == (TypeFields { refines, ..self }),
    {
        TypeFields { refines, ..self }
    }

    /// Sets the derives_from references.
    pub fn with_derives_from(self, derives_from: Vec<String>) -> (r: TypeFields)
        ensures
            r == (TypeFields { derives_from, ..self }),
    {
        TypeFields { derives_from, ..self }
    }

    /// Sets the satisfies references.
    pub fn with_satisfies(self, satisfies: Vec<String>) -> (r: TypeFields)
        ensures
            r == (TypeFields { satisfies, ..self }),
    {
        TypeFields { satisfies, ..self }
    }

    /// Sets the depends_on references.
    pub fn with_depends_on(self, depends_on: Vec<String>) -> (r: TypeFields)
        ensures
            r == (TypeFields { depends_on, ..self }),
    {
        TypeFields { depends_on, ..self }
    }

    /// Sets the ADR status.
    pub fn with_status(self, status: AdrStatus) -> (r: TypeFields)
        ensures
            r == (TypeFields { status: Some(status), ..self }),
    {
        TypeFields { status: Some(status), ..self }
    }

    /// Sets the deciders.
    pub fn with_deciders(self, deciders: Vec<String>) -> (r: TypeFields)
        ensures
            r == (TypeFields { deciders, ..self }),
    {
        TypeFields { deciders, ..self }
    }

    /// Sets the justifies references.
    pub fn with_justifies(self, justifies: Vec<String>) -> (r: TypeFields)
        ensures
            r == (TypeFields { justifies, ..self }),
    {
        TypeFields { justifies, ..self }
    }

    /// Sets the supersedes references.
    pub fn with_supersedes(self, supersedes: Vec<String>) -> (r: TypeFields)
        ensures
            r == (TypeFields { supersedes, ..self }),
    {
        TypeFields { supersedes, ..self }
    }

    /// Sets the superseded_by reference.
    pub fn with_superseded_by(self, superseded_by: &str) -> (r: TypeFields)
        ensures
            r == (TypeFields { superseded_by: r.superseded_by, ..self }),
            opt_view(r.superseded_by) == Some(superseded_by@),
    {
        TypeFields { superseded_by: Some(superseded_by.to_owned()), ..self }
    }
}

/// Fields that pass validation for a type stay valid after a field that
/// the type accepts is set: the specification of a requirement.
pub proof fn lemma_requirement_accepts_specification(f: TypeFields, t: ItemType, s: String)
    requires
        is_requirement(t),
        first_invalid_field(f, t) is None,
    ensures
        first_invalid_field(TypeFields { specification: Some(s), ..f }, t) is None,
{
}

} // verus!

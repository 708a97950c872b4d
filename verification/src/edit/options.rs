//! Options for editing an item's metadata.
use vstd::prelude::*;

use crate::model::TraceabilityLinks;
use crate::text::opt_view;

verus! {

/// Options for editing an item: the fields to change, unset when kept.
pub struct EditOptions {
    /// The item ID to edit.
    pub item_id: String,
    /// New name.
    pub name: Option<String>,
    /// New description.
    pub description: Option<String>,
    /// New refines references.
    pub refines: Option<Vec<String>>,
    /// New derives_from references.
    pub derives_from: Option<Vec<String>>,
    /// New satisfies references.
    pub satisfies: Option<Vec<String>>,
    /// New depends_on references.
    pub depends_on: Option<Vec<String>>,
    /// New specification.
    pub specification: Option<String>,
    /// New platform.
    pub platform: Option<String>,
}

impl EditOptions {
    /// Creates options for editing the given item, changing nothing.
    pub fn new(item_id: &str) -> (r: EditOptions)
        ensures
            r.item_id@ == item_id@,
            r.name is None && r.description is None && r.refines is None && r.derives_from is None
                && r.satisfies is None && r.depends_on is None && r.specification is None
                && r.platform is None,
    {
        EditOptions {
            item_id: item_id.to_owned(),
            name: None,
            description: None,
            refines: None,
            derives_from: None,
            satisfies: None,
            depends_on: None,
            specification: None,
            platform: None,
        }
    }

    /// Sets the new name.
    pub fn with_name(self, name: &str) -> (r: EditOptions)
        ensures
            opt_view(r.name) == Some(name@),
            r.item_id == self.item_id && r.description == self.description && r.refines == self.refines && r.derives_from == self.derives_from && r.satisfies == self.satisfies && r.depends_on == self.depends_on && r.specification == self.specification && r.platform == self.platform,
    {
        EditOptions { name: Some(name.to_owned()), ..self }
    }

    /// Sets the new name if provided.
    pub fn maybe_name(self, name: Option<String>) -> (r: EditOptions)
        ensures
            r.name == name,
            r.item_id == self.item_id && r.description == self.description && r.refines == self.refines && r.derives_from == self.derives_from && r.satisfies == self.satisfies && r.depends_on == self.depends_on && r.specification == self.specification && r.platform == self.platform,
    {
        EditOptions { name, ..self }
    }

    /// Sets the new description.
    pub fn with_description(self, description: &str) -> (r: EditOptions)
        ensures
            opt_view(r.description) == Some(description@),
            r.item_id == self.item_id && r.name == self.name && r.refines == self.refines && r.derives_from == self.derives_from && r.satisfies == self.satisfies && r.depends_on == self.depends_on && r.specification == self.specification && r.platform == self.platform,
    {
        EditOptions { description: Some(description.to_owned()), ..self }
    }

    /// Sets the new description if provided.
    pub fn maybe_description(self, description: Option<String>) -> (r: EditOptions)
        ensures
            r.description == description,
            r.item_id == self.item_id && r.name == self.name && r.refines == self.refines && r.derives_from == self.derives_from && r.satisfies == self.satisfies && r.depends_on == self.depends_on && r.specification == self.specification && r.platform == self.platform,
    {
        EditOptions { description, ..self }
    }

    /// Sets the new refines references.
    pub fn with_refines(self, refines: Vec<String>) -> (r: EditOptions)
        ensures
            r.refines == Some(refines),
            r.item_id == self.item_id && r.name == self.name && r.description == self.description && r.derives_from == self.derives_from && r.satisfies == self.satisfies && r.depends_on == self.depends_on && r.specification == self.specification && r.platform == self.platform,
    {
        EditOptions { refines: Some(refines), ..self }
    }

    /// Sets the new refines if provided.
    pub fn maybe_refines(self, refines: Option<Vec<String>>) -> (r: EditOptions)
        ensures
            r.refines == refines,
            r.item_id == self.item_id && r.name == self.name && r.description == self.description && r.derives_from == self.derives_from && r.satisfies == self.satisfies && r.depends_on == self.depends_on && r.specification == self.specification && r.platform == self.platform,
    {
        EditOptions { refines, ..self }
    }

    /// Sets the new derives from references.
    pub fn with_derives_from(self, derives_from: Vec<String>) -> (r: EditOptions)
        ensures
            r.derives_from == Some(derives_from),
            r.item_id == self.item_id && r.name == self.name && r.description == self.description && r.refines == self.refines && r.satisfies == self.satisfies && r.depends_on == self.depends_on && r.specification == self.specification && r.platform == self.platform,
    {
        EditOptions { derives_from: Some(derives_from), ..self }
    }

    /// Sets the new derives from if provided.
    pub fn maybe_derives_from(self, derives_from: Option<Vec<String>>) -> (r: EditOptions)
        ensures
            r.derives_from == derives_from,
            r.item_id == self.item_id && r.name == self.name && r.description == self.description && r.refines == self.refines && r.satisfies == self.satisfies && r.depends_on == self.depends_on && r.specification == self.specification && r.platform == self.platform,
    {
        EditOptions { derives_from, ..self }
    }

    /// Sets the new satisfies references.
    pub fn with_satisfies(self, satisfies: Vec<String>) -> (r: EditOptions)
        ensures
            r.satisfies == Some(satisfies),
            r.item_id == self.item_id && r.name == self.name && r.description == self.description && r.refines == self.refines && r.derives_from == self.derives_from && r.depends_on == self.depends_on && r.specification == self.specification && r.platform == self.platform,
    {
        EditOptions { satisfies: Some(satisfies), ..self }
    }

    /// Sets the new satisfies if provided.
    pub fn maybe_satisfies(self, satisfies: Option<Vec<String>>) -> (r: EditOptions)
        ensures
            r.satisfies == satisfies,
            r.item_id == self.item_id && r.name == self.name && r.description == self.description && r.refines == self.refines && r.derives_from == self.derives_from && r.depends_on == self.depends_on && r.specification == self.specification && r.platform == self.platform,
    {
        EditOptions { satisfies, ..self }
    }

    /// Sets the new depends on references.
    pub fn with_depends_on(self, depends_on: Vec<String>) -> (r: EditOptions)
        ensures
            r.depends_on == Some(depends_on),
            r.item_id == self.item_id && r.name == self.name && r.description == self.description && r.refines == self.refines && r.derives_from == self.derives_from && r.satisfies == self.satisfies && r.specification == self.specification && r.platform == self.platform,
    {
        EditOptions { depends_on: Some(depends_on), ..self }
    }

    /// Sets the new depends on if provided.
    pub fn maybe_depends_on(self, depends_on: Option<Vec<String>>) -> (r: EditOptions)
        ensures
            r.depends_on == depends_on,
            r.item_id == self.item_id && r.name == self.name && r.description == self.description && r.refines == self.refines && r.derives_from == self.derives_from && r.satisfies == self.satisfies && r.specification == self.specification && r.platform == self.platform,
    {
        EditOptions { depends_on, ..self }
    }

    /// Sets the new specification.
    pub fn with_specification(self, specification: &str) -> (r: EditOptions)
        ensures
            opt_view(r.specification) == Some(specification@),
            r.item_id == self.item_id && r.name == self.name && r.description == self.description && r.refines == self.refines && r.derives_from == self.derives_from && r.satisfies == self.satisfies && r.depends_on == self.depends_on && r.platform == self.platform,
    {
        EditOptions { specification: Some(specification.to_owned()), ..self }
    }

    /// Sets the new specification if provided.
    pub fn maybe_specification(self, specification: Option<String>) -> (r: EditOptions)
        ensures
            r.specification == specification,
            r.item_id == self.item_id && r.name == self.name && r.description == self.description && r.refines == self.refines && r.derives_from == self.derives_from && r.satisfies == self.satisfies && r.depends_on == self.depends_on && r.platform == self.platform,
    {
        EditOptions { specification, ..self }
    }

    /// Sets the new platform.
    pub fn with_platform(self, platform: &str) -> (r: EditOptions)
        ensures
            opt_view(r.platform) == Some(platform@),
            r.item_id == self.item_id && r.name == self.name && r.description == self.description && r.refines == self.refines && r.derives_from == self.derives_from && r.satisfies == self.satisfies && r.depends_on == self.depends_on && r.specification == self.specification,
    {
        EditOptions { platform: Some(platform.to_owned()), ..self }
    }

    /// Sets the new platform if provided.
    pub fn maybe_platform(self, platform: Option<String>) -> (r: EditOptions)
        ensures
            r.platform == platform,
            r.item_id == self.item_id && r.name == self.name && r.description == self.description && r.refines == self.refines && r.derives_from == self.derives_from && r.satisfies == self.satisfies && r.depends_on == self.depends_on && r.specification == self.specification,
    {
        EditOptions { platform, ..self }
    }

    /// Returns true if any field is to be changed.
    pub fn has_updates(&self) -> (r: bool)
        ensures
            r == (self.name is Some || self.description is Some || self.refines is Some
                || self.derives_from is Some || self.satisfies is Some || self.depends_on is Some
                || self.specification is Some || self.platform is Some),
    {
        self.name.is_some() || self.description.is_some() || self.refines.is_some()
            || self.derives_from.is_some() || self.satisfies.is_some() || self.depends_on.is_some()
            || self.specification.is_some() || self.platform.is_some()
    }
}

/// The values of an item after an edit.
pub struct EditedValues {
    /// The name.
    pub name: String,
    /// The description.
    pub description: Option<String>,
    /// The specification.
    pub specification: Option<String>,
    /// The platform.
    pub platform: Option<String>,
    /// The traceability links.
    pub traceability: TraceabilityLinks,
}

impl EditedValues {
    /// Creates values with the given name and nothing else.
    pub fn new(name: &str) -> (r: EditedValues)
        ensures
            r.name@ == name@,
            r.description is None,
            r.specification is None,
            r.platform is None,
            r.traceability.entries().len() == 0,
    {
        EditedValues {
            name: name.to_owned(),
            description: None,
            specification: None,
            platform: None,
            traceability: TraceabilityLinks::new(),
        }
    }

    /// Sets the description.
    pub fn with_description(self, description: Option<String>) -> (r: EditedValues)
        ensures
            r.description == description,
            r.name == self.name && r.specification == self.specification && r.platform == self.platform
                && r.traceability == self.traceability,
    {
        EditedValues { description, ..self }
    }

    /// Sets the specification.
    pub fn with_specification(self, specification: Option<String>) -> (r: EditedValues)
        ensures
            r.specification == specification,
            r.name == self.name && r.description == self.description && r.platform == self.platform
                && r.traceability == self.traceability,
    {
        EditedValues { specification, ..self }
    }

    /// Sets the platform.
    pub fn with_platform(self, platform: Option<String>) -> (r: EditedValues)
        ensures
            r.platform == platform,
            r.name == self.name && r.description == self.description && r.specification
                == self.specification && r.traceability == self.traceability,
    {
        EditedValues { platform, ..self }
    }

    /// Sets the traceability links.
    pub fn with_traceability(self, traceability: TraceabilityLinks) -> (r: EditedValues)
        ensures
            r.traceability == traceability,
            r.name == self.name && r.description == self.description && r.specification
                == self.specification && r.platform == self.platform,
    {
        EditedValues { traceability, ..self }
    }
}

} // verus!

//! Domain types for creating items, independent of files and formats.
use vstd::prelude::*;

use super::fields::{fields_empty, first_invalid_field, same_fields, validation_outcome, TypeFields};
use super::item::{is_requirement, ItemType};
use crate::error::ValidationError;
use crate::text::{clone_opt, opt_view};

verus! {

/// Domain options for creating a new item.
pub struct InitOptions {
    /// The type of item to create.
    pub item_type: ItemType,
    /// Optional ID (will be auto-generated if not provided).
    pub id: Option<String>,
    /// Optional name (will be derived from context if not provided).
    pub name: Option<String>,
    /// Optional description.
    pub description: Option<String>,
    /// Type-specific fields.
    pub fields: TypeFields,
}

impl InitOptions {
    /// Creates new init options for the given item type.
    pub fn new(item_type: ItemType) -> (r: InitOptions)
        ensures
            r.item_type == item_type,
            r.id is None,
            r.name is None,
            r.description is None,
            fields_empty(r.fields),
    {
        InitOptions { item_type, id: None, name: None, description: None, fields: TypeFields::new() }
    }

    /// Creates init options with specific fields.
    pub fn with_fields(item_type: ItemType, fields: TypeFields) -> (r: InitOptions)
        ensures
            r.item_type == item_type,
            r.id is None,
            r.name is None,
            r.description is None,
            r.fields == fields,
    {
        InitOptions { item_type, id: None, name: None, description: None, fields }
    }

    /// Sets the ID.
    pub fn with_id(self, id: &str) -> (r: InitOptions)
        ensures
            opt_view(r.id) == Some(id@),
            r.item_type == self.item_type,
            r.name == self.name,
            r.description == self.description,
            r.fields == self.fields,
    {
        InitOptions { id: Some(id.to_owned()), ..self }
    }

    /// Sets the ID if provided.
    pub fn maybe_id(self, id: Option<String>) -> (r: InitOptions)
        ensures
            r.id == id,
            r.item_type == self.item_type,
            r.name == self.name,
            r.description == self.description,
            r.fields == self.fields,
    {
        InitOptions { id, ..self }
    }

    /// Sets the name.
    pub fn with_name(self, name: &str) -> (r: InitOptions)
        ensures
            opt_view(r.name) == Some(name@),
            r.item_type == self.item_type,
            r.id == self.id,
            r.description == self.description,
            r.fields == self.fields,
    {
        InitOptions { name: Some(name.to_owned()), ..self }
    }

    /// Sets the name if provided.
    pub fn maybe_name(self, name: Option<String>) -> (r: InitOptions)
        ensures
            r.name == name,
            r.item_type == self.item_type,
            r.id == self.id,
            r.description == self.description,
            r.fields == self.fields,
    {
        InitOptions { name, ..self }
    }

    /// Sets the description.
    pub fn with_description(self, description: &str) -> (r: InitOptions)
        ensures
            opt_view(r.description) == Some(description@),
            r.item_type == self.item_type,
            r.id == self.id,
            r.name == self.name,
            r.fields == self.fields,
    {
        InitOptions { description: Some(description.to_owned()), ..self }
    }

    /// Sets the description if provided.
    pub fn maybe_description(self, description: Option<String>) -> (r: InitOptions)
        ensures
            r.description == description,
            r.item_type == self.item_type,
            r.id == self.id,
            r.name == self.name,
            r.fields == self.fields,
    {
        InitOptions { description, ..self }
    }

    /// Sets the type-specific fields.
    pub fn with_type_fields(self, fields: TypeFields) -> (r: InitOptions)
        ensures
            r.fields == fields,
            r.item_type == self.item_type,
            r.id == self.id,
            r.name == self.name,
            r.description == self.description,
    {
        InitOptions { fields, ..self }
    }

    /// Validates that the set fields suit the item type.
    pub fn validate(&self) -> (r: Result<(), ValidationError>)
        ensures
            validation_outcome(self.fields, self.item_type, r),
    {
        self.fields.validate_for_type(self.item_type)
    }

    /// Returns true if a specification is needed but not provided.
    pub fn needs_specification(&self) -> (r: bool)
        ensures
            r == (is_requirement(self.item_type) && self.fields.specification is None),
    {
        self.fields.needs_specification(self.item_type)
    }
}

/// Prepared item data ready for generation.
pub struct InitData {
    /// The resolved ID (generated if not provided).
    pub id: String,
    /// The resolved name.
    pub name: String,
    /// The item type.
    pub item_type: ItemType,
    /// Optional description.
    pub description: Option<String>,
    /// Type-specific fields.
    pub fields: TypeFields,
}

impl InitData {
    /// Returns true if a specification is needed but not provided.
    pub fn needs_specification(&self) -> (r: bool)
        ensures
            r == (is_requirement(self.item_type) && self.fields.specification is None),
    {
        self.fields.needs_specification(self.item_type)
    }
}

/// Prepares item data for creation: validates the fields for the type,
/// then takes the given ID or asks `id_generator` for one, and the given
/// name or asks `name_resolver` for one from the ID.
pub fn prepare_init<F, G>(opts: &InitOptions, id_generator: F, name_resolver: G) -> (r: Result<
    InitData,
    ValidationError,
>) where F: FnOnce(ItemType) -> String, G: FnOnce(&str) -> String
    requires
        call_requires(id_generator, (opts.item_type,)),
        forall|s: &str| call_requires(name_resolver, (s,)),
    ensures
        r is Ok <==> first_invalid_field(opts.fields, opts.item_type) is None,
        r matches Err(e) ==> validation_outcome(opts.fields, opts.item_type, Err(e)),
        r matches Ok(data) ==> {
            &&& data.item_type == opts.item_type
            &&& opt_view(data.description) == opt_view(opts.description)
            &&& same_fields(data.fields, opts.fields)
            &&& match opts.id {
                Some(i) => data.id@ == i@,
                None => call_ensures(id_generator, (opts.item_type,), data.id),
            }
            &&& match opts.name {
                Some(n) => data.name@ == n@,
                None => {
                    let s = choose|s: &str| s@ == data.id@ && call_ensures(name_resolver, (s,), data.name);
                    s@ == data.id@ && call_ensures(name_resolver, (s,), data.name)
                },
            }
        },
{
    match opts.fields.validate_for_type(opts.item_type) {
        Ok(()) => {},
        Err(e) => return Err(e),
    }
    let id = match &opts.id {
        Some(i) => i.clone(),
        None => id_generator(opts.item_type),
    };
    let name = match &opts.name {
        Some(n) => n.clone(),
        None => {
            let s = id.as_str();
            let n = name_resolver(s);
            assert(exists|s2: &str| #[trigger] call_ensures(name_resolver, (s2,), n) && s2@ == id@) by {
                assert(call_ensures(name_resolver, (s,), n) && s@ == id@);
            }
            n
        },
    };
    Ok(
        InitData {
            id,
            name,
            item_type: opts.item_type,
            description: clone_opt(&opts.description),
            fields: opts.fields.duplicate(),
        },
    )
}

} // verus!

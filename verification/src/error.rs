//! Error types for the library.
use vstd::prelude::*;

use crate::model::{ItemId, ItemType, RelationshipType};
use crate::model::item::type_display;
use crate::model::relationship::relation_id;
use crate::text::{chars_to_string, extend_str, join};

verus! {

/// Main error type for knowledge-graph operations.
#[allow(inconsistent_fields)]
#[derive(Debug)]
pub enum SaraError {
    /// Invalid frontmatter in a Markdown file.
    InvalidFrontmatter { file: String, reason: String },
    /// File is missing required frontmatter section.
    MissingFrontmatter { file: String },
    /// Invalid YAML syntax in frontmatter.
    InvalidYaml { file: String, reason: String },
    /// Missing required field in frontmatter.
    MissingField { field: String, file: String },
    /// Invalid item ID format.
    InvalidId { id: String, reason: String },
    /// Broken reference to non-existent item.
    BrokenReference { from: ItemId, to: ItemId },
    /// Orphan item with no upstream parent.
    OrphanItem { id: ItemId, item_type: ItemType },
    /// Duplicate identifier found in multiple files.
    DuplicateIdentifier { id: ItemId },
    /// Circular reference detected in the graph.
    CircularReference { cycle: String },
    /// Invalid relationship between item types.
    InvalidRelationship {
        from_id: ItemId,
        to_id: ItemId,
        from_type: ItemType,
        to_type: ItemType,
        rel_type: RelationshipType,
    },
    /// Invalid metadata in item.
    InvalidMetadata { file: String, reason: String },
    /// Redundant relationship declared on both sides.
    RedundantRelationship { from_id: ItemId, to_id: ItemId },
    /// Configuration file could not be read.
    ConfigRead { path: String, reason: String },
    /// Configuration file has invalid content.
    InvalidConfig { path: String, reason: String },
    /// No parent items exist for the given item type.
    MissingParent { item_type: String, parent_type: String },
    /// Item was not found in the knowledge graph.
    ItemNotFound { id: String, suggestions: Vec<String> },
    /// Generic Git operation error.
    Git(String),
    /// Interactive terminal required but not available.
    NonInteractiveTerminal,
    /// Edit operation failed with custom error message.
    EditFailed(String),
}

/// The texts of a list of strings.
pub open spec fn texts(v: Seq<String>) -> Seq<Seq<char>> {
    v.map_values(|s: String| s@)
}

/// The hint listing the suggestions of an `ItemNotFound` error.
pub open spec fn suggestion_hint(suggestions: Seq<String>) -> Seq<char> {
    "Did you mean: "@ + join(texts(suggestions), ", "@) + "?"@
}

/// Appends `parts` joined by `sep`.
pub fn push_joined(out: &mut Vec<char>, parts: &Vec<String>, sep: &str)
    ensures
        final(out)@ == old(out)@ + join(texts(parts@), sep@),
{
    let mut i: usize = 0;
    let ghost start = out@;
    while i < parts.len()
        invariant
            i <= parts.len(),
            out@ == start + join(texts(parts@.take(i as int)), sep@),
            start == old(out)@,
        decreases parts.len() - i,
    {
        assert(texts(parts@.take(i + 1)).drop_last() =~= texts(parts@.take(i as int)));
        assert(texts(parts@.take(i + 1)).last() == parts@[i as int]@);
        if i > 0 {
            extend_str(out, sep);
        }
        extend_str(out, parts[i].as_str());
        proof {
            if i == 0 {
                assert(texts(parts@.take(1)).len() == 1);
            }
        }
        assert(out@ =~= start + join(texts(parts@.take(i + 1)), sep@));
        i += 1;
    }
    assert(parts@.take(parts.len() as int) =~= parts@);
}

impl SaraError {
    /// Formats the suggestions of an `ItemNotFound` error as a hint.
    /// Returns `None` for other errors and for an empty suggestion list.
    pub fn format_suggestions(&self) -> (r: Option<String>)
        ensures
            match self {
                SaraError::ItemNotFound { suggestions, .. } => if suggestions@.len() > 0 {
                    r is Some && r->0@ == suggestion_hint(suggestions@)
                } else {
                    r is None
                },
                _ => r is None,
            },
    {
        match self {
            SaraError::ItemNotFound { suggestions, .. } => {
                if suggestions.len() == 0 {
                    return None;
                }
                let mut out: Vec<char> = Vec::new();
                extend_str(&mut out, "Did you mean: ");
                push_joined(&mut out, suggestions, ", ");
                extend_str(&mut out, "?");
                Some(chars_to_string(&out))
            },
            _ => None,
        }
    }
}

/// The message of an error, as it is shown to users.
pub open spec fn error_message(e: SaraError) -> Seq<char> {
    match e {
        SaraError::InvalidFrontmatter { file, reason } => "Invalid frontmatter in "@ + file@ + ": "@ + reason@,
        SaraError::MissingFrontmatter { file } => "Missing frontmatter in "@ + file@,
        SaraError::InvalidYaml { file, reason } => "Invalid YAML in "@ + file@ + ": "@ + reason@,
        SaraError::MissingField { field, file } => "Missing required field '"@ + field@ + "' in "@ + file@,
        SaraError::InvalidId { id, reason } => "Invalid item ID '"@ + id@ + "': "@ + reason@,
        SaraError::BrokenReference { from, to } => "Broken reference: "@ + from@
            + " references non-existent item "@ + to@,
        SaraError::OrphanItem { id, item_type } => "Orphan item: "@ + id@ + " ("@ + type_display(item_type)
            + ") has no upstream parent"@,
        SaraError::DuplicateIdentifier { id } => "Duplicate identifier: "@ + id@ + " defined in multiple files"@,
        SaraError::CircularReference { cycle } => "Circular reference detected: "@ + cycle@,
        SaraError::InvalidRelationship { from_id, to_id, from_type, to_type, rel_type } => "Invalid relationship: "@
            + from_id@ + " ("@ + type_display(from_type) + ") cannot "@ + relation_id(rel_type) + " "@ + to_id@
            + " ("@ + type_display(to_type) + ")"@,
        SaraError::InvalidMetadata { file, reason } => "Invalid metadata in "@ + file@ + ": "@ + reason@,
        SaraError::RedundantRelationship { from_id, to_id } => "Redundant relationship: "@ + from_id@ + " and "@
            + to_id@ + " both declare the relationship (only one is needed)"@,
        SaraError::ConfigRead { path, reason } => "Failed to read config file "@ + path@ + ": "@ + reason@,
        SaraError::InvalidConfig { path, reason } => "Invalid config file "@ + path@ + ": "@ + reason@,
        SaraError::MissingParent { item_type, parent_type } => "Cannot create "@ + item_type@ + ": no "@
            + parent_type@ + " items exist. Create a "@ + parent_type@ + " first."@,
        SaraError::ItemNotFound { id, .. } => "Item not found: "@ + id@,
        SaraError::Git(m) => "Git operation failed: "@ + m@,
        SaraError::NonInteractiveTerminal => "Interactive mode requires a terminal. Use modification flags (--name, --description, etc.) to edit non-interactively."@,
        SaraError::EditFailed(m) => "Edit failed: "@ + m@,
    }
}

impl SaraError {
    /// The message of the error, as it is shown to users.
    pub fn message(&self) -> (r: String)
        ensures
            r@ == error_message(*self),
    {
        let mut out: Vec<char> = Vec::new();
        match self {
            SaraError::InvalidFrontmatter { file, reason } => {
                extend_str(&mut out, "Invalid frontmatter in ");
                extend_str(&mut out, file.as_str());
                extend_str(&mut out, ": ");
                extend_str(&mut out, reason.as_str());
            },
            SaraError::MissingFrontmatter { file } => {
                extend_str(&mut out, "Missing frontmatter in ");
                extend_str(&mut out, file.as_str());
            },
            SaraError::InvalidYaml { file, reason } => {
                extend_str(&mut out, "Invalid YAML in ");
                extend_str(&mut out, file.as_str());
                extend_str(&mut out, ": ");
                extend_str(&mut out, reason.as_str());
            },
            SaraError::MissingField { field, file } => {
                extend_str(&mut out, "Missing required field '");
                extend_str(&mut out, field.as_str());
                extend_str(&mut out, "' in ");
                extend_str(&mut out, file.as_str());
            },
            SaraError::InvalidId { id, reason } => {
                extend_str(&mut out, "Invalid item ID '");
                extend_str(&mut out, id.as_str());
                extend_str(&mut out, "': ");
                extend_str(&mut out, reason.as_str());
            },
            SaraError::BrokenReference { from, to } => {
                extend_str(&mut out, "Broken reference: ");
                extend_str(&mut out, from.as_str());
                extend_str(&mut out, " references non-existent item ");
                extend_str(&mut out, to.as_str());
            },
            SaraError::OrphanItem { id, item_type } => {
                extend_str(&mut out, "Orphan item: ");
                extend_str(&mut out, id.as_str());
                extend_str(&mut out, " (");
                extend_str(&mut out, item_type.display_name());
                extend_str(&mut out, ") has no upstream parent");
            },
            SaraError::DuplicateIdentifier { id } => {
                extend_str(&mut out, "Duplicate identifier: ");
                extend_str(&mut out, id.as_str());
                extend_str(&mut out, " defined in multiple files");
            },
            SaraError::CircularReference { cycle } => {
                extend_str(&mut out, "Circular reference detected: ");
                extend_str(&mut out, cycle.as_str());
            },
            SaraError::InvalidRelationship { from_id, to_id, from_type, to_type, rel_type } => {
                extend_str(&mut out, "Invalid relationship: ");
                extend_str(&mut out, from_id.as_str());
                extend_str(&mut out, " (");
                extend_str(&mut out, from_type.display_name());
                extend_str(&mut out, ") cannot ");
                extend_str(&mut out, rel_type.as_str());
                extend_str(&mut out, " ");
                extend_str(&mut out, to_id.as_str());
                extend_str(&mut out, " (");
                extend_str(&mut out, to_type.display_name());
                extend_str(&mut out, ")");
            },
            SaraError::InvalidMetadata { file, reason } => {
                extend_str(&mut out, "Invalid metadata in ");
                extend_str(&mut out, file.as_str());
                extend_str(&mut out, ": ");
                extend_str(&mut out, reason.as_str());
            },
            SaraError::RedundantRelationship { from_id, to_id } => {
                extend_str(&mut out, "Redundant relationship: ");
                extend_str(&mut out, from_id.as_str());
                extend_str(&mut out, " and ");
                extend_str(&mut out, to_id.as_str());
                extend_str(&mut out, " both declare the relationship (only one is needed)");
            },
            SaraError::ConfigRead { path, reason } => {
                extend_str(&mut out, "Failed to read config file ");
                extend_str(&mut out, path.as_str());
                extend_str(&mut out, ": ");
                extend_str(&mut out, reason.as_str());
            },
            SaraError::InvalidConfig { path, reason } => {
                extend_str(&mut out, "Invalid config file ");
                extend_str(&mut out, path.as_str());
                extend_str(&mut out, ": ");
                extend_str(&mut out, reason.as_str());
            },
            SaraError::MissingParent { item_type, parent_type } => {
                extend_str(&mut out, "Cannot create ");
                extend_str(&mut out, item_type.as_str());
                extend_str(&mut out, ": no ");
                extend_str(&mut out, parent_type.as_str());
                extend_str(&mut out, " items exist. Create a ");
                extend_str(&mut out, parent_type.as_str());
                extend_str(&mut out, " first.");
            },
            SaraError::ItemNotFound { id, .. } => {
                extend_str(&mut out, "Item not found: ");
                extend_str(&mut out, id.as_str());
            },
            SaraError::Git(m) => {
                extend_str(&mut out, "Git operation failed: ");
                extend_str(&mut out, m.as_str());
            },
            SaraError::NonInteractiveTerminal => {
                extend_str(
                    &mut out,
                    "Interactive mode requires a terminal. Use modification flags (--name, --description, etc.) to edit non-interactively.",
                );
            },
            SaraError::EditFailed(m) => {
                extend_str(&mut out, "Edit failed: ");
                extend_str(&mut out, m.as_str());
            },
        }
        chars_to_string(&out)
    }
}

/// Validation errors for type-specific fields.
#[derive(Debug, Clone)]
pub enum ValidationError {
    /// A field was given for an item type that does not accept it.
    InvalidFieldForType { field: String, item_type: String },
}

/// Errors raised by edit operations.
#[derive(Debug)]
pub enum EditError {
    /// The item to edit does not exist.
    ItemNotFound { id: String, suggestions: Vec<String> },
    /// The edit could not be carried out.
    IoError(String),
}

/// Errors raised while reading configuration.
#[derive(Debug)]
pub enum ConfigError {
    /// A template path pattern is not a valid glob.
    InvalidGlobPattern { pattern: String, reason: String },
}

} // verus!

//! Domain model entities for the knowledge graph.
pub mod adr;
pub mod builder;
pub mod edit;
pub mod fields;
pub mod attribute_map;
pub mod field;
pub mod init;
pub mod item;
pub mod metadata;
pub mod refs;
pub mod relationship;

pub use adr::AdrStatus;
pub use builder::ItemBuilder;
pub use edit::{EditSummary, FieldChange, TraceabilityLinks};
pub use field::FieldValue;
pub use item::{FieldName, Item, ItemAttributes, ItemId, ItemType, TraceabilityConfig};
pub use metadata::SourceLocation;
pub use refs::{DownstreamRefs, UpstreamRefs};
pub use relationship::{RelationDirection, Relationship, RelationshipRules, RelationshipType};
pub use fields::TypeFields;
pub use init::{prepare_init, InitData, InitOptions};

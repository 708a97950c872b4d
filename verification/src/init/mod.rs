//! Creating new items.
pub mod options;
pub mod service;

pub use options::{InitOptions, TypeConfig};
pub use service::{parse_item_type, remove_frontmatter, InitError, InitResult, InitService};

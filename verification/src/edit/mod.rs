//! Editing item metadata.
pub mod options;

pub use options::{EditOptions, EditedValues};
pub mod service;

pub use service::{EditResult, EditService, ItemContext};

//! Configuration of the tool.
pub mod settings;

pub use settings::{Config, OutputConfig, RepositoryConfig, TemplatesConfig, ValidationConfig};

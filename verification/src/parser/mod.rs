//! Parsing of Markdown documents with YAML frontmatter.
pub mod document;
pub mod frontmatter;

pub use frontmatter::{extract_body, extract_frontmatter, has_frontmatter, update_frontmatter};
pub mod markdown;

pub use markdown::extract_name_from_content;
pub use document::{parse_document, parse_markdown_file, ParsedDocument, RawFrontmatter};

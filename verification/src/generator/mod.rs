//! Output formats for documents generated from items.
pub mod mermaid;
pub mod yaml;

use vstd::prelude::*;

verus! {

/// Output format for generated documents.
#[derive(Debug, Clone, Copy, PartialEq, Eq, Structural)]
pub enum OutputFormat {
    /// Markdown with YAML frontmatter.
    Markdown,
}

} // verus!

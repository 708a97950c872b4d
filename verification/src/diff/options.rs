//! Options for comparing two states of the knowledge graph.
use vstd::prelude::*;

use crate::text::str_views;

verus! {

/// Options for a diff.
pub struct DiffOptions {
    /// First reference (older).
    pub ref1: String,
    /// Second reference (newer).
    pub ref2: String,
    /// Repository paths to compare.
    pub repositories: Vec<String>,
    /// Whether to show statistics only.
    pub stat: bool,
}

impl DiffOptions {
    /// Creates options comparing two references, over no repositories.
    pub fn new(ref1: &str, ref2: &str) -> (r: DiffOptions)
        ensures
            r.ref1@ == ref1@,
            r.ref2@ == ref2@,
            r.repositories@.len() == 0,
            !r.stat,
    {
        DiffOptions { ref1: ref1.to_owned(), ref2: ref2.to_owned(), repositories: Vec::new(), stat: false }
    }

    /// Sets the repository paths.
    pub fn with_repositories(self, repositories: Vec<String>) -> (r: DiffOptions)
        ensures
            r.repositories == repositories,
            r.ref1 == self.ref1 && r.ref2 == self.ref2 && r.stat == self.stat,
    {
        DiffOptions { repositories, ..self }
    }

    /// Adds a repository path.
    pub fn add_repository(self, path: &str) -> (r: DiffOptions)
        ensures
            str_views(r.repositories@) == str_views(self.repositories@).push(path@),
            r.ref1 == self.ref1 && r.ref2 == self.ref2 && r.stat == self.stat,
    {
        let mut repositories = self.repositories;
        let ghost before = repositories@;
        repositories.push(path.to_owned());
        assert(str_views(repositories@) =~= str_views(before).push(path@));
        DiffOptions { repositories, ..self }
    }

    /// Sets statistics-only output.
    pub fn with_stat(self, stat: bool) -> (r: DiffOptions)
        ensures
            r.stat == stat,
            r.ref1 == self.ref1 && r.ref2 == self.ref2 && r.repositories == self.repositories,
    {
        DiffOptions { stat, ..self }
    }
}

} // verus!

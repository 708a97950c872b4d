//! Metadata structures for items and source tracking.
use vstd::prelude::*;

use crate::text::{chars_to_string, decimal, extend_str, push_decimal, str_chars};

verus! {

/// Tracks the file origin of an item for error reporting.
#[derive(Debug, Clone)]
pub struct SourceLocation {
    /// Repository path (absolute).
    pub repository: String,
    /// Relative path within repository.
    pub file_path: String,
    /// Line number where item definition starts (1-indexed).
    pub line: usize,
    /// Optional Git commit/branch if reading from history.
    pub git_ref: Option<String>,
}

/// `file` resolved against `base` the way `Path::join` does on Unix: an
/// absolute `file` replaces the base, otherwise one separator joins them.
pub open spec fn join_path(base: Seq<char>, file: Seq<char>) -> Seq<char> {
    if file.len() > 0 && file[0] == '/' {
        file
    } else if base.len() == 0 {
        file
    } else if base.last() == '/' {
        base + file
    } else {
        base + seq!['/'] + file
    }
}

/// `path:line`.
pub open spec fn location_text(file: Seq<char>, line: nat) -> Seq<char> {
    file + seq![':'] + decimal(line)
}

impl SourceLocation {
    /// Creates a new SourceLocation.
    pub fn new(repository: &str, file_path: &str, line: usize) -> (r: SourceLocation)
        ensures
            r.repository@ == repository@,
            r.file_path@ == file_path@,
            r.line == line,
            r.git_ref is None,
    {
        SourceLocation {
            repository: repository.to_owned(),
            file_path: file_path.to_owned(),
            line,
            git_ref: None,
        }
    }

    /// Creates a new SourceLocation with a Git reference.
    pub fn with_git_ref(repository: &str, file_path: &str, line: usize, git_ref: &str) -> (r: SourceLocation)
        ensures
            r.repository@ == repository@,
            r.file_path@ == file_path@,
            r.line == line,
            r.git_ref is Some && r.git_ref->0@ == git_ref@,
    {
        SourceLocation {
            repository: repository.to_owned(),
            file_path: file_path.to_owned(),
            line,
            git_ref: Some(git_ref.to_owned()),
        }
    }

    /// Returns the full path to the file.
    pub fn full_path(&self) -> (r: String)
        ensures
            r@ == join_path(self.repository@, self.file_path@),
    {
        let base = str_chars(self.repository.as_str());
        let file = str_chars(self.file_path.as_str());
        if file.len() > 0 && file[0] == '/' {
            return self.file_path.clone();
        }
        if base.len() == 0 {
            return self.file_path.clone();
        }
        let mut out = base.clone();
        if base[base.len() - 1] != '/' {
            out.push('/');
        }
        let ghost mid = out@;
        crate::text::extend_chars(&mut out, &file);
        chars_to_string(&out)
    }

    /// Formats as `path/to/file.md:42`.
    pub fn display(&self) -> (r: String)
        ensures
            r@ == location_text(self.file_path@, self.line as nat),
    {
        let mut out: Vec<char> = Vec::new();
        extend_str(&mut out, self.file_path.as_str());
        out.push(':');
        push_decimal(&mut out, self.line as u64);
        chars_to_string(&out)
    }

    /// Formats with the repository prefix, and the Git reference if any.
    pub fn display_full(&self) -> (r: String)
        ensures
            r@ == match self.git_ref {
                Some(g) => self.repository@ + seq![':'] + location_text(self.file_path@, self.line as nat)
                    + " (at "@ + g@ + ")"@,
                None => self.repository@ + seq![':'] + location_text(self.file_path@, self.line as nat),
            },
    {
        let mut out: Vec<char> = Vec::new();
        extend_str(&mut out, self.repository.as_str());
        out.push(':');
        extend_str(&mut out, self.file_path.as_str());
        out.push(':');
        push_decimal(&mut out, self.line as u64);
        match &self.git_ref {
            Some(g) => {
                extend_str(&mut out, " (at ");
                extend_str(&mut out, g.as_str());
                extend_str(&mut out, ")");
            },
            None => {},
        }
        chars_to_string(&out)
    }
}

} // verus!

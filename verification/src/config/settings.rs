//! Configuration settings.
use vstd::prelude::*;

use crate::text::str_views;

verus! {

/// Repository configuration.
pub struct RepositoryConfig {
    /// Paths to repositories.
    pub paths: Vec<String>,
}

/// Validation configuration.
pub struct ValidationConfig {
    /// Whether orphan items are errors.
    pub strict_orphans: bool,
    /// Custom fields accepted in frontmatter.
    pub allowed_custom_fields: Vec<String>,
}

/// Output configuration.
pub struct OutputConfig {
    /// Whether to use colors.
    pub colors: bool,
    /// Whether to use emojis.
    pub emojis: bool,
}

/// Template configuration.
pub struct TemplatesConfig {
    /// Glob patterns of template files.
    pub paths: Vec<String>,
}

/// The whole configuration.
pub struct Config {
    /// Repository configuration.
    pub repositories: RepositoryConfig,
    /// Validation configuration.
    pub validation: ValidationConfig,
    /// Output configuration.
    pub output: OutputConfig,
    /// Template configuration.
    pub templates: TemplatesConfig,
}

/// The default of an unset boolean option.
pub fn default_true() -> (r: bool)
    ensures
        r,
{
    true
}

impl Default for OutputConfig {
    /// Colors and emojis are on by default.
    fn default() -> (r: OutputConfig)
        ensures
            r.colors && r.emojis,
    {
        OutputConfig { colors: default_true(), emojis: default_true() }
    }
}

impl Default for RepositoryConfig {
    /// No repositories by default.
    fn default() -> (r: RepositoryConfig)
        ensures
            r.paths@.len() == 0,
    {
        RepositoryConfig { paths: Vec::new() }
    }
}

impl Default for ValidationConfig {
    /// Lenient orphan checking and no custom fields by default.
    fn default() -> (r: ValidationConfig)
        ensures
            !r.strict_orphans,
            r.allowed_custom_fields@.len() == 0,
    {
        ValidationConfig { strict_orphans: false, allowed_custom_fields: Vec::new() }
    }
}

impl Default for TemplatesConfig {
    /// No templates by default.
    fn default() -> (r: TemplatesConfig)
        ensures
            r.paths@.len() == 0,
    {
        TemplatesConfig { paths: Vec::new() }
    }
}

/// True if the configuration has every default value.
pub open spec fn is_default(c: Config) -> bool {
    &&& c.repositories.paths@.len() == 0
    &&& !c.validation.strict_orphans
    &&& c.validation.allowed_custom_fields@.len() == 0
    &&& c.output.colors
    &&& c.output.emojis
    &&& c.templates.paths@.len() == 0
}

impl Default for Config {
    /// The default configuration.
    fn default() -> (r: Config)
        ensures
            is_default(r),
    {
        Config {
            repositories: RepositoryConfig { paths: Vec::new() },
            validation: ValidationConfig { strict_orphans: false, allowed_custom_fields: Vec::new() },
            output: OutputConfig { colors: true, emojis: true },
            templates: TemplatesConfig { paths: Vec::new() },
        }
    }
}

impl Config {
    /// Creates the default configuration.
    pub fn new() -> (r: Config)
        ensures
            is_default(r),
    {
        Config {
            repositories: RepositoryConfig { paths: Vec::new() },
            validation: ValidationConfig { strict_orphans: false, allowed_custom_fields: Vec::new() },
            output: OutputConfig { colors: true, emojis: true },
            templates: TemplatesConfig { paths: Vec::new() },
        }
    }

    /// Adds a repository path.
    pub fn add_repository(&mut self, path: &str)
        ensures
            str_views(final(self).repositories.paths@) == str_views(old(self).repositories.paths@).push(path@),
            final(self).validation == old(self).validation,
            final(self).output == old(self).output,
            final(self).templates == old(self).templates,
    {
        self.repositories.paths.push(path.to_owned());
        assert(str_views(self.repositories.paths@) =~= str_views(old(self).repositories.paths@).push(path@));
    }
}

} // verus!

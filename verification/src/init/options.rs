//! Options for creating an item in a file.
use vstd::prelude::*;

use crate::model::ItemType;
use crate::text::opt_view;

verus! {

/// Type-specific configuration of a new item.
pub enum TypeConfig {
    /// Solution configuration.
    Solution,
    /// Use case configuration.
    UseCase { refines: Vec<String> },
    /// Scenario configuration.
    Scenario { refines: Vec<String> },
    /// System requirement configuration.
    SystemRequirement { specification: Option<String>, derives_from: Vec<String>, depends_on: Vec<String> },
    /// System architecture configuration.
    SystemArchitecture { platform: Option<String>, satisfies: Vec<String> },
    /// Software requirement configuration.
    SoftwareRequirement { specification: Option<String>, derives_from: Vec<String>, depends_on: Vec<String> },
    /// Hardware requirement configuration.
    HardwareRequirement { specification: Option<String>, derives_from: Vec<String>, depends_on: Vec<String> },
    /// Software detailed design configuration.
    SoftwareDetailedDesign { satisfies: Vec<String> },
    /// Hardware detailed design configuration.
    HardwareDetailedDesign { satisfies: Vec<String> },
    /// Architecture decision record configuration.
    Adr {
        status: Option<String>,
        deciders: Vec<String>,
        justifies: Vec<String>,
        supersedes: Vec<String>,
        superseded_by: Option<String>,
    },
}

/// The item type a configuration creates.
pub open spec fn config_type(tc: TypeConfig) -> ItemType {
    match tc {
        TypeConfig::Solution => ItemType::Solution,
        TypeConfig::UseCase { .. } => ItemType::UseCase,
        TypeConfig::Scenario { .. } => ItemType::Scenario,
        TypeConfig::SystemRequirement { .. } => ItemType::SystemRequirement,
        TypeConfig::SystemArchitecture { .. } => ItemType::SystemArchitecture,
        TypeConfig::SoftwareRequirement { .. } => ItemType::SoftwareRequirement,
        TypeConfig::HardwareRequirement { .. } => ItemType::HardwareRequirement,
        TypeConfig::SoftwareDetailedDesign { .. } => ItemType::SoftwareDetailedDesign,
        TypeConfig::HardwareDetailedDesign { .. } => ItemType::HardwareDetailedDesign,
        TypeConfig::Adr { .. } => ItemType::ArchitectureDecisionRecord,
    }
}

/// True if the configuration holds no values: empty lists, nothing set.
pub open spec fn config_empty(tc: TypeConfig) -> bool {
    match tc {
        TypeConfig::Solution => true,
        TypeConfig::UseCase { refines } => refines@.len() == 0,
        TypeConfig::Scenario { refines } => refines@.len() == 0,
        TypeConfig::SystemRequirement { specification, derives_from, depends_on }
        | TypeConfig::SoftwareRequirement { specification, derives_from, depends_on }
        | TypeConfig::HardwareRequirement { specification, derives_from, depends_on } => specification
            is None && derives_from@.len() == 0 && depends_on@.len() == 0,
        TypeConfig::SystemArchitecture { platform, satisfies } => platform is None && satisfies@.len()
            == 0,
        TypeConfig::SoftwareDetailedDesign { satisfies } => satisfies@.len() == 0,
        TypeConfig::HardwareDetailedDesign { satisfies } => satisfies@.len() == 0,
        TypeConfig::Adr { status, deciders, justifies, supersedes, superseded_by } => status is None
            && deciders@.len() == 0 && justifies@.len() == 0 && supersedes@.len() == 0
            && superseded_by is None,
    }
}

impl TypeConfig {
    /// Returns the item type for this configuration.
    pub fn item_type(&self) -> (r: ItemType)
        ensures
            r == config_type(*self),
    {
        match self {
            TypeConfig::Solution => ItemType::Solution,
            TypeConfig::UseCase { .. } => ItemType::UseCase,
            TypeConfig::Scenario { .. } => ItemType::Scenario,
            TypeConfig::SystemRequirement { .. } => ItemType::SystemRequirement,
            TypeConfig::SystemArchitecture { .. } => ItemType::SystemArchitecture,
            TypeConfig::SoftwareRequirement { .. } => ItemType::SoftwareRequirement,
            TypeConfig::HardwareRequirement { .. } => ItemType::HardwareRequirement,
            TypeConfig::SoftwareDetailedDesign { .. } => ItemType::SoftwareDetailedDesign,
            TypeConfig::HardwareDetailedDesign { .. } => ItemType::HardwareDetailedDesign,
            TypeConfig::Adr { .. } => ItemType::ArchitectureDecisionRecord,
        }
    }

    /// Creates a Solution configuration.
    pub fn solution() -> (r: TypeConfig)
        ensures
            r is Solution,
    {
        TypeConfig::Solution
    }

    /// Creates an empty UseCase configuration.
    pub fn use_case() -> (r: TypeConfig)
        ensures
            r is UseCase && config_empty(r),
    {
        TypeConfig::UseCase { refines: Vec::new() }
    }

    /// Creates an empty Scenario configuration.
    pub fn scenario() -> (r: TypeConfig)
        ensures
            r is Scenario && config_empty(r),
    {
        TypeConfig::Scenario { refines: Vec::new() }
    }

    /// Creates an empty SystemRequirement configuration.
    pub fn system_requirement() -> (r: TypeConfig)
        ensures
            r is SystemRequirement && config_empty(r),
    {
        TypeConfig::SystemRequirement { specification: None, derives_from: Vec::new(), depends_on: Vec::new() }
    }

    /// Creates an empty SystemArchitecture configuration.
    pub fn system_architecture() -> (r: TypeConfig)
        ensures
            r is SystemArchitecture && config_empty(r),
    {
        TypeConfig::SystemArchitecture { platform: None, satisfies: Vec::new() }
    }

    /// Creates an empty SoftwareRequirement configuration.
    pub fn software_requirement() -> (r: TypeConfig)
        ensures
            r is SoftwareRequirement && config_empty(r),
    {
        TypeConfig::SoftwareRequirement { specification: None, derives_from: Vec::new(), depends_on: Vec::new() }
    }

    /// Creates an empty HardwareRequirement configuration.
    pub fn hardware_requirement() -> (r: TypeConfig)
        ensures
            r is HardwareRequirement && config_empty(r),
    {
        TypeConfig::HardwareRequirement { specification: None, derives_from: Vec::new(), depends_on: Vec::new() }
    }

    /// Creates an empty SoftwareDetailedDesign configuration.
    pub fn software_detailed_design() -> (r: TypeConfig)
        ensures
            r is SoftwareDetailedDesign && config_empty(r),
    {
        TypeConfig::SoftwareDetailedDesign { satisfies: Vec::new() }
    }

    /// Creates an empty HardwareDetailedDesign configuration.
    pub fn hardware_detailed_design() -> (r: TypeConfig)
        ensures
            r is HardwareDetailedDesign && config_empty(r),
    {
        TypeConfig::HardwareDetailedDesign { satisfies: Vec::new() }
    }

    /// Creates an empty ADR configuration.
    pub fn adr() -> (r: TypeConfig)
        ensures
            r is Adr && config_empty(r),
    {
        TypeConfig::Adr {
            status: None,
            deciders: Vec::new(),
            justifies: Vec::new(),
            supersedes: Vec::new(),
            superseded_by: None,
        }
    }

    /// Creates an empty configuration for the given item type.
    pub fn from_item_type(item_type: ItemType) -> (r: TypeConfig)
        ensures
            config_type(r) == item_type,
            config_empty(r),
    {
        match item_type {
            ItemType::Solution => TypeConfig::solution(),
            ItemType::UseCase => TypeConfig::use_case(),
            ItemType::Scenario => TypeConfig::scenario(),
            ItemType::SystemRequirement => TypeConfig::system_requirement(),
            ItemType::SystemArchitecture => TypeConfig::system_architecture(),
            ItemType::SoftwareRequirement => TypeConfig::software_requirement(),
            ItemType::HardwareRequirement => TypeConfig::hardware_requirement(),
            ItemType::SoftwareDetailedDesign => TypeConfig::software_detailed_design(),
            ItemType::HardwareDetailedDesign => TypeConfig::hardware_detailed_design(),
            ItemType::ArchitectureDecisionRecord => TypeConfig::adr(),
        }
    }
}

/// Options for creating an item in a file.
pub struct InitOptions {
    /// Path to the file.
    pub file: String,
    /// Optional ID (generated when absent).
    pub id: Option<String>,
    /// Optional name (derived from the file when absent).
    pub name: Option<String>,
    /// Optional description.
    pub description: Option<String>,
    /// Whether to overwrite existing frontmatter.
    pub force: bool,
    /// Type-specific configuration.
    pub type_config: TypeConfig,
}

impl InitOptions {
    /// Creates options for the given file and configuration.
    pub fn new(file: &str, type_config: TypeConfig) -> (r: InitOptions)
        ensures
            r.file@ == file@,
            r.id is None,
            r.name is None,
            r.description is None,
            !r.force,
            r.type_config == type_config,
    {
        InitOptions { file: file.to_owned(), id: None, name: None, description: None, force: false, type_config }
    }

    /// Returns the item type.
    pub fn item_type(&self) -> (r: ItemType)
        ensures
            r == config_type(self.type_config),
    {
        self.type_config.item_type()
    }

    /// Sets the ID.
    pub fn with_id(self, id: &str) -> (r: InitOptions)
        ensures
            opt_view(r.id) == Some(id@),
            r.file == self.file && r.name == self.name && r.description == self.description
                && r.force == self.force && r.type_config == self.type_config,
    {
        InitOptions { id: Some(id.to_owned()), ..self }
    }

    /// Sets the ID if provided.
    pub fn maybe_id(self, id: Option<String>) -> (r: InitOptions)
        ensures
            r.id == id,
            r.file == self.file && r.name == self.name && r.description == self.description
                && r.force == self.force && r.type_config == self.type_config,
    {
        InitOptions { id, ..self }
    }

    /// Sets the name.
    pub fn with_name(self, name: &str) -> (r: InitOptions)
        ensures
            opt_view(r.name) == Some(name@),
            r.file == self.file && r.id == self.id && r.description == self.description
                && r.force == self.force && r.type_config == self.type_config,
    {
        InitOptions { name: Some(name.to_owned()), ..self }
    }

    /// Sets the name if provided.
    pub fn maybe_name(self, name: Option<String>) -> (r: InitOptions)
        ensures
            r.name == name,
            r.file == self.file && r.id == self.id && r.description == self.description
                && r.force == self.force && r.type_config == self.type_config,
    {
        InitOptions { name, ..self }
    }

    /// Sets the description.
    pub fn with_description(self, description: &str) -> (r: InitOptions)
        ensures
            opt_view(r.description) == Some(description@),
            r.file == self.file && r.id == self.id && r.name == self.name && r.force == self.force
                && r.type_config == self.type_config,
    {
        InitOptions { description: Some(description.to_owned()), ..self }
    }

    /// Sets the description if provided.
    pub fn maybe_description(self, description: Option<String>) -> (r: InitOptions)
        ensures
            r.description == description,
            r.file == self.file && r.id == self.id && r.name == self.name && r.force == self.force
                && r.type_config == self.type_config,
    {
        InitOptions { description, ..self }
    }

    /// Sets whether existing frontmatter is overwritten.
    pub fn with_force(self, force: bool) -> (r: InitOptions)
        ensures
            r.force == force,
            r.file == self.file && r.id == self.id && r.name == self.name && r.description
                == self.description && r.type_config == self.type_config,
    {
        InitOptions { force, ..self }
    }
}

} // verus!

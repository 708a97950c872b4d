use sara_core::config::Config;
use sara_core::edit::{EditOptions, EditService, EditedValues, ItemContext};
use sara_core::error::ValidationError;
use sara_core::generator::yaml::extract_frontmatter as extract_generated_frontmatter;
use sara_core::generator::OutputFormat;
use sara_core::init::service::updated_file_content;
use sara_core::init::{parse_item_type, remove_frontmatter, InitError, InitOptions, InitService, TypeConfig};
use sara_core::model::{
    prepare_init, AdrStatus, InitOptions as ItemInitOptions, Item, ItemBuilder, ItemId, ItemType,
    SourceLocation, TraceabilityLinks, TypeFields,
};
use sara_core::parser::{
    extract_body, extract_frontmatter, extract_name_from_content, has_frontmatter, update_frontmatter,
};

// ----- model::init -----

#[test]
fn test_init_options_new() {
    let opts = ItemInitOptions::new(ItemType::Solution);
    assert_eq!(opts.item_type, ItemType::Solution);
    assert!(opts.id.is_none());
    assert!(opts.name.is_none());
}

#[test]
fn test_init_options_builder() {
    let opts = ItemInitOptions::new(ItemType::Solution)
        .with_id("SOL-001")
        .with_name("Test Solution")
        .with_description("A test");

    assert_eq!(opts.id, Some("SOL-001".to_string()));
    assert_eq!(opts.name, Some("Test Solution".to_string()));
    assert_eq!(opts.description, Some("A test".to_string()));
}

#[test]
fn test_init_options_validate_valid() {
    let fields = TypeFields::new().with_specification("The system SHALL do X");
    let opts = ItemInitOptions::with_fields(ItemType::SystemRequirement, fields);
    assert!(opts.validate().is_ok());
}

#[test]
fn test_init_options_validate_invalid() {
    let fields = TypeFields::new().with_specification("Invalid for Solution");
    let opts = ItemInitOptions::with_fields(ItemType::Solution, fields);
    assert!(opts.validate().is_err());
}

#[test]
fn test_init_options_needs_specification() {
    let opts = ItemInitOptions::new(ItemType::SystemRequirement);
    assert!(opts.needs_specification());

    let fields = TypeFields::new().with_specification("Has spec");
    let opts_with_spec = ItemInitOptions::with_fields(ItemType::SystemRequirement, fields);
    assert!(!opts_with_spec.needs_specification());

    let opts_solution = ItemInitOptions::new(ItemType::Solution);
    assert!(!opts_solution.needs_specification());
}

#[test]
fn test_prepare_init_basic() {
    let opts = ItemInitOptions::new(ItemType::Solution)
        .with_id("SOL-001")
        .with_name("Test Solution");

    let data = prepare_init(&opts, |_| "SOL-999".to_string(), |id| id.to_string()).unwrap();

    assert_eq!(data.id, "SOL-001");
    assert_eq!(data.name, "Test Solution");
    assert_eq!(data.item_type, ItemType::Solution);
}

#[test]
fn test_prepare_init_generates_id() {
    let opts = ItemInitOptions::new(ItemType::UseCase).with_name("Test Use Case");

    let data = prepare_init(&opts, |t| format!("{}-001", t.prefix()), |id| id.to_string()).unwrap();

    assert_eq!(data.id, "UC-001");
    assert_eq!(data.name, "Test Use Case");
}

#[test]
fn test_prepare_init_resolves_name() {
    let opts = ItemInitOptions::new(ItemType::Scenario).with_id("SCEN-001");

    let data = prepare_init(&opts, |_| "SCEN-999".to_string(), |id| format!("Name for {}", id)).unwrap();

    assert_eq!(data.id, "SCEN-001");
    assert_eq!(data.name, "Name for SCEN-001");
}

#[test]
fn test_prepare_init_with_fields() {
    let fields = TypeFields::new()
        .with_status(AdrStatus::Proposed)
        .with_deciders(vec!["Alice".to_string()]);

    let opts = ItemInitOptions::with_fields(ItemType::ArchitectureDecisionRecord, fields)
        .with_id("ADR-001")
        .with_name("Test ADR");

    let data = prepare_init(&opts, |_| String::new(), |id| id.to_string()).unwrap();

    assert_eq!(data.fields.status, Some(AdrStatus::Proposed));
    assert_eq!(data.fields.deciders, vec!["Alice".to_string()]);
}

#[test]
fn test_prepare_init_validation_error() {
    let fields = TypeFields::new().with_platform("Linux");
    let opts = ItemInitOptions::with_fields(ItemType::Solution, fields)
        .with_id("SOL-001")
        .with_name("Test");

    let result = prepare_init(&opts, |_| String::new(), |id| id.to_string());
    assert!(result.is_err());
}

#[test]
fn prepare_init_reports_the_first_invalid_field() {
    let fields = TypeFields::new().with_platform("Linux").with_specification("S");
    let opts = ItemInitOptions::with_fields(ItemType::Solution, fields);
    match prepare_init(&opts, |_| String::new(), |id| id.to_string()) {
        Err(ValidationError::InvalidFieldForType { field, item_type }) => {
            assert_eq!(field, "specification");
            assert_eq!(item_type, "Solution");
        }
        Ok(_) => panic!("expected an error"),
    }
}

// ----- init::service -----

#[test]
fn test_parse_item_type() {
    assert_eq!(parse_item_type("solution"), Some(ItemType::Solution));
    assert_eq!(parse_item_type("SOL"), Some(ItemType::Solution));
    assert_eq!(parse_item_type("use_case"), Some(ItemType::UseCase));
    assert_eq!(parse_item_type("UC"), Some(ItemType::UseCase));
    assert_eq!(parse_item_type("invalid"), None);
}

#[test]
fn parse_item_type_accepts_adr_aliases() {
    assert_eq!(parse_item_type("adr"), Some(ItemType::ArchitectureDecisionRecord));
    assert_eq!(parse_item_type("SYSREQ"), Some(ItemType::SystemRequirement));
    assert_eq!(parse_item_type("HWDD"), Some(ItemType::HardwareDetailedDesign));
}

#[test]
fn test_remove_frontmatter() {
    let content = "---\nid: test\n---\n# Body";
    let body = remove_frontmatter(content);
    assert_eq!(body.trim(), "# Body");
}

#[test]
fn remove_frontmatter_keeps_content_without_closing_line() {
    assert_eq!(remove_frontmatter("---\nid: test\n"), "---\nid: test\n");
    assert_eq!(remove_frontmatter("# Plain"), "# Plain");
}

#[test]
fn remove_frontmatter_of_a_lone_block_leaves_nothing() {
    assert_eq!(remove_frontmatter("---\nid: OLD-001\n---\n"), "");
    assert_eq!(remove_frontmatter("---\nid: OLD-001\n---"), "");
    assert_eq!(remove_frontmatter("---\nid: OLD-001\n---\n# Body\n"), "# Body\n");
}

#[test]
fn service_test_init_new_file() {
    let opts = InitOptions::new("docs/test.md", TypeConfig::solution())
        .with_id("SOL-001")
        .with_name("Test Solution");

    let service = InitService::new();
    let (result, item) = service.init(&opts, None).ok().unwrap();

    assert_eq!(result.id, "SOL-001");
    assert_eq!(result.name, "Test Solution");
    assert!(!result.updated_existing);
    assert_eq!(item.id.as_str(), "SOL-001");
    assert_eq!(item.item_type, ItemType::Solution);
}

#[test]
fn test_init_existing_file_without_frontmatter() {
    let existing = "# My Document\n\nSome content here.";
    let opts = InitOptions::new("existing.md", TypeConfig::use_case()).with_id("UC-001");

    let service = InitService::new();
    let (result, _) = service.init(&opts, Some(existing)).ok().unwrap();

    assert_eq!(result.id, "UC-001");
    assert_eq!(result.name, "My Document");
    assert!(result.updated_existing);
    assert!(!result.replaced_frontmatter);

    let (content, replaced) = updated_file_content(existing, "---\nid: \"UC-001\"\n---", false);
    assert!(!replaced);
    assert!(content.contains("id: \"UC-001\""));
    assert!(content.contains("# My Document"));
}

#[test]
fn test_init_existing_file_with_frontmatter_no_force() {
    let opts = InitOptions::new("existing.md", TypeConfig::solution()).with_id("SOL-001");
    let service = InitService::new();
    let result = service.init(&opts, Some("---\nid: OLD-001\n---\n# Content"));
    assert!(matches!(result, Err(InitError::FrontmatterExists(_))));
}

#[test]
fn test_init_existing_file_with_frontmatter_force() {
    let existing = "---\nid: OLD-001\n---\n# Content";
    let opts = InitOptions::new("existing.md", TypeConfig::solution())
        .with_id("SOL-001")
        .with_name("New Solution")
        .with_force(true);

    let service = InitService::new();
    let (result, _) = service.init(&opts, Some(existing)).ok().unwrap();

    assert_eq!(result.id, "SOL-001");
    assert!(result.updated_existing);
    assert!(result.replaced_frontmatter);

    let (content, replaced) = updated_file_content(existing, "---\nid: \"SOL-001\"\n---", true);
    assert!(replaced);
    assert_eq!(content, "---\nid: \"SOL-001\"\n---\n# Content");
    assert!(!content.contains("OLD-001"));
}

#[test]
fn service_test_needs_specification() {
    let opts = InitOptions::new("test.md", TypeConfig::system_requirement()).with_id("SYSREQ-001");
    let (result, _) = InitService::new().init(&opts, None).ok().unwrap();
    assert!(result.needs_specification);
}

#[test]
fn test_needs_specification_when_provided() {
    let type_config = TypeConfig::SystemRequirement {
        specification: Some("The system SHALL do something".to_string()),
        derives_from: Vec::new(),
        depends_on: Vec::new(),
    };
    let opts = InitOptions::new("test.md", type_config).with_id("SYSREQ-001");
    let (result, _) = InitService::new().init(&opts, None).ok().unwrap();
    assert!(!result.needs_specification);
}

#[test]
fn init_generates_id_and_name_from_file() {
    let opts = InitOptions::new("docs/my-solution.md", TypeConfig::solution());
    let (result, _) = InitService::new().init(&opts, None).ok().unwrap();
    assert_eq!(result.id, "SOL-001");
    assert_eq!(result.name, "my-solution");
}

// ----- parser::frontmatter -----

#[test]
fn test_extract_frontmatter_valid() {
    let content = "---\nid: \"SOL-001\"\ntype: solution\nname: \"Test\"\n---\n# Body content";
    let yaml = extract_frontmatter(content, "test.md").ok().unwrap();
    assert!(yaml.contains("id: \"SOL-001\""));
    assert!(yaml.contains("type: solution"));
    assert_eq!(yaml, "id: \"SOL-001\"\ntype: solution\nname: \"Test\"");
}

#[test]
fn test_extract_frontmatter_no_body() {
    let content = "---\nid: \"SOL-001\"\n---";
    let yaml = extract_frontmatter(content, "test.md").ok().unwrap();
    assert!(yaml.contains("id: \"SOL-001\""));
}

#[test]
fn test_extract_frontmatter_missing() {
    assert!(extract_frontmatter("# Just markdown", "test.md").is_err());
}

#[test]
fn test_extract_frontmatter_unclosed() {
    let content = "---\nid: \"SOL-001\"\n# No closing delimiter";
    assert!(extract_frontmatter(content, "test.md").is_err());
}

#[test]
fn test_has_frontmatter() {
    assert!(has_frontmatter("---\nid: test\n---"));
    assert!(has_frontmatter("  ---\nid: test\n---"));
    assert!(!has_frontmatter("# No frontmatter"));
}

#[test]
fn test_extract_frontmatter_empty() {
    assert!(extract_frontmatter("", "test.md").is_err());
}

#[test]
fn test_extract_body_with_frontmatter() {
    let content = "---\nid: \"SOL-001\"\ntype: solution\n---\n# Body Content\n\nSome markdown here.";
    assert_eq!(extract_body(content), "# Body Content\n\nSome markdown here.");
}

#[test]
fn test_extract_body_no_frontmatter() {
    let content = "# Just markdown\n\nNo frontmatter here.";
    assert_eq!(extract_body(content), content);
}

#[test]
fn test_extract_body_empty_body() {
    assert!(extract_body("---\nid: test\n---").is_empty());
}

#[test]
fn test_update_frontmatter() {
    let content =
        "---\nid: \"SOL-001\"\ntype: solution\nname: \"Old Name\"\n---\n# Body Content\n\nSome markdown here.";
    let new_frontmatter = "---\nid: \"SOL-001\"\ntype: solution\nname: \"New Name\"\n---";
    let updated = update_frontmatter(content, new_frontmatter);
    assert!(updated.starts_with("---\n"));
    assert!(updated.contains("name: \"New Name\""));
    assert!(updated.contains("# Body Content"));
    assert!(updated.contains("Some markdown here."));
}

#[test]
fn test_update_frontmatter_no_body() {
    let updated = update_frontmatter("---\nid: test\n---", "---\nid: test\nname: Updated\n---");
    assert_eq!(updated, "---\nid: test\nname: Updated\n---\n");
}

#[test]
fn update_frontmatter_keeps_the_body_exactly() {
    let content = "---\nid: a\n---\nline one\n\nline two";
    let updated = update_frontmatter(content, "---\nid: b\n---\n\n");
    assert_eq!(updated, "---\nid: b\n---\nline one\n\nline two");
    assert_eq!(extract_body(&updated), extract_body(content));
}

#[test]
fn update_then_extract_gives_the_new_frontmatter() {
    let content = "---\nid: a\nname: Old\n---\n# Title\n";
    let updated = update_frontmatter(content, "---\nid: a\nname: New\n---\n");
    assert_eq!(extract_frontmatter(&updated, "doc.md").unwrap(), "id: a\nname: New");
    assert_eq!(extract_body(&updated), "# Title");
}

#[test]
fn update_normalizes_a_body_ending_with_an_empty_line() {
    let content = "---\nid: a\n---\ntext\n\n";
    assert_eq!(extract_body(content), "text\n");
    let updated = update_frontmatter(content, "---\nid: b\n---");
    assert_eq!(extract_body(&updated), "text");
}

#[test]
fn delimiter_first_line_is_seen_as_frontmatter() {
    for content in ["---\nid: a\n---", "  ---  \r\nid: a", "\t---\n"] {
        let missing = matches!(
            extract_frontmatter(content, "x.md"),
            Err(sara_core::error::SaraError::MissingFrontmatter { .. })
        );
        assert!(!missing);
        assert!(has_frontmatter(content));
    }
    assert!(has_frontmatter("---x"));
    assert!(extract_frontmatter("---x\n---", "x.md").is_err());
}

#[test]
fn test_extract_name_from_content() {
    let content = "# My Document\n\nSome content here.";
    assert_eq!(extract_name_from_content(content), Some("My Document".to_string()));
    assert_eq!(extract_name_from_content("No heading here"), None);
}

// ----- generator -----

#[test]
fn test_output_format_debug() {
    assert_eq!(format!("{:?}", OutputFormat::Markdown), "Markdown");
}

#[test]
fn test_extract_frontmatter() {
    let doc = "---\nid: test\ntype: solution\n---\n\n# Body";
    assert_eq!(extract_generated_frontmatter(doc), "---\nid: test\ntype: solution\n---");
}

#[test]
fn test_extract_frontmatter_no_frontmatter() {
    let doc = "# Just a heading\n\nSome content.";
    assert_eq!(extract_generated_frontmatter(doc), "");
}

// ----- config -----

#[test]
fn test_default_config() {
    let config = Config::default();
    assert!(config.repositories.paths.is_empty());
    assert!(!config.validation.strict_orphans);
    assert!(config.output.colors);
    assert!(config.output.emojis);
}

#[test]
fn test_add_repository() {
    let mut config = Config::default();
    config.add_repository("/path/to/repo");
    assert_eq!(config.repositories.paths.len(), 1);
    assert_eq!(config.repositories.paths[0], "/path/to/repo");
}

// ----- edit::service -----

fn create_test_item(id: &str, item_type: ItemType, name: &str) -> Item {
    let source = SourceLocation::new("/repo", &format!("{}.md", id), 1);
    let mut builder = ItemBuilder::new()
        .id(ItemId::new_unchecked(id))
        .item_type(item_type)
        .name(name)
        .source(source);
    if item_type.requires_specification() {
        builder = builder.specification("Test specification");
    }
    builder.build().ok().unwrap()
}

fn context(name: &str, description: Option<String>) -> ItemContext {
    ItemContext {
        id: "SOL-001".to_string(),
        item_type: ItemType::Solution,
        name: name.to_string(),
        description,
        specification: None,
        platform: None,
        traceability: TraceabilityLinks::default(),
        file_path: "/test.md".to_string(),
    }
}

#[test]
fn test_edit_options_has_updates() {
    let opts = EditOptions::new("SOL-001");
    assert!(!opts.has_updates());
    let opts_with_name = EditOptions::new("SOL-001").with_name("New Name");
    assert!(opts_with_name.has_updates());
}

#[test]
fn test_item_context_from_item() {
    let item = create_test_item("SOL-001", ItemType::Solution, "Test Solution");
    let ctx = ItemContext::from_item(&item);
    assert_eq!(ctx.id, "SOL-001");
    assert_eq!(ctx.name, "Test Solution");
    assert_eq!(ctx.item_type, ItemType::Solution);
}

#[test]
fn test_validate_options_specification() {
    let service = EditService::new();
    let opts = EditOptions::new("SYSREQ-001").with_specification("new spec");
    assert!(service.validate_options(&opts, ItemType::SystemRequirement).is_ok());
    let opts = EditOptions::new("SOL-001").with_specification("new spec");
    assert!(service.validate_options(&opts, ItemType::Solution).is_err());
}

#[test]
fn test_validate_options_platform() {
    let service = EditService::new();
    let opts = EditOptions::new("SYSARCH-001").with_platform("AWS");
    assert!(service.validate_options(&opts, ItemType::SystemArchitecture).is_ok());
    let opts = EditOptions::new("SOL-001").with_platform("AWS");
    assert!(service.validate_options(&opts, ItemType::Solution).is_err());
}

#[test]
fn test_merge_values() {
    let service = EditService::new();
    let current = context("Old Name", Some("Old Description".to_string()));
    let opts = EditOptions::new("SOL-001").with_name("New Name");
    let merged = service.merge_values(&opts, &current);
    assert_eq!(merged.name, "New Name");
    assert_eq!(merged.description, Some("Old Description".to_string()));
}

#[test]
fn test_build_change_summary() {
    let service = EditService::new();
    let old = context("Old Name", None);
    let new = EditedValues::new("New Name");
    let changes = service.build_change_summary(&old, &new);
    let name_change = changes.iter().find(|c| c.field == "Name").unwrap();
    assert!(name_change.is_changed());
    assert_eq!(name_change.old_value, "Old Name");
    assert_eq!(name_change.new_value, "New Name");
}

#[test]
fn test_build_frontmatter_yaml() {
    let service = EditService::new();
    let values = EditedValues::new("Test Solution").with_description(Some("A test solution".to_string()));
    let yaml = service.build_frontmatter_yaml("SOL-001", ItemType::Solution, &values);
    assert!(yaml.contains("id: \"SOL-001\""));
    assert!(yaml.contains("type: solution"));
    assert!(yaml.contains("name: \"Test Solution\""));
    assert!(yaml.contains("description: \"A test solution\""));
}

// ----- command line -----

use sara_core::cli::{early_config_path, output_config, select_repositories, verbosity, InitSubcommand, Verbosity};

fn strings(v: &[&str]) -> Vec<String> {
    v.iter().map(|s| s.to_string()).collect()
}

#[test]
fn verbosity_follows_flags() {
    assert_eq!(verbosity(true, 3), Verbosity::Quiet);
    assert_eq!(verbosity(false, 0), Verbosity::Normal);
    assert_eq!(verbosity(false, 1), Verbosity::Verbose);
    assert_eq!(verbosity(false, 2), Verbosity::Debug);
    assert_eq!(verbosity(false, 7), Verbosity::Trace);
    assert_eq!(Verbosity::Quiet.as_filter(), "error");
    assert_eq!(Verbosity::Normal.as_filter(), "warn");
    assert_eq!(Verbosity::Trace.as_filter(), "trace");
}

#[test]
fn output_config_merges_file_flags_and_environment() {
    let none = output_config(None, false, false, false);
    assert!(none.colors && none.emojis);
    let mut file = Config::default();
    file.output.emojis = false;
    let merged = output_config(Some(&file), false, false, true);
    assert!(!merged.colors);
    assert!(!merged.emojis);
    let flags = output_config(None, true, true, false);
    assert!(!flags.colors && !flags.emojis);
}

#[test]
fn config_path_from_environment_and_arguments() {
    assert_eq!(early_config_path(Some("env.toml"), &strings(&["-c", "x.toml"])), "env.toml");
    assert_eq!(early_config_path(None, &strings(&["check", "-c", "x.toml"])), "x.toml");
    assert_eq!(early_config_path(None, &strings(&["--config", "y.toml"])), "y.toml");
    assert_eq!(early_config_path(None, &strings(&["--config=z.toml"])), "z.toml");
    assert_eq!(early_config_path(None, &strings(&["-cw.toml"])), "w.toml");
    assert_eq!(early_config_path(None, &strings(&["-c=v.toml"])), "v.toml");
    assert_eq!(early_config_path(None, &strings(&["--configx", "check"])), "sara.toml");
    assert_eq!(early_config_path(None, &strings(&["check", "-c"])), "sara.toml");
    assert_eq!(early_config_path(None, &Vec::new()), "sara.toml");
}

#[test]
fn repositories_prefer_command_line_then_file() {
    let mut file = Config::default();
    file.add_repository("/from/file");
    assert_eq!(select_repositories(&strings(&["/cli"]), Some(&file)), Some(strings(&["/cli"])));
    assert_eq!(select_repositories(&Vec::new(), Some(&file)), Some(strings(&["/from/file"])));
    assert_eq!(select_repositories(&Vec::new(), Some(&Config::default())), None);
    assert_eq!(select_repositories(&Vec::new(), None), None);
}

#[test]
fn init_request_becomes_service_options() {
    let request = InitSubcommand {
        file: "docs/uc.md".to_string(),
        id: Some("UC-007".to_string()),
        name: None,
        description: Some("Logs in".to_string()),
        force: true,
        type_config: TypeConfig::UseCase { refines: vec!["SOL-001".to_string()] },
    };
    let opts = request.to_init_options();
    assert_eq!(opts.file, "docs/uc.md");
    assert_eq!(opts.id.as_deref(), Some("UC-007"));
    assert!(opts.name.is_none());
    assert_eq!(opts.description.as_deref(), Some("Logs in"));
    assert!(opts.force);
    assert_eq!(opts.item_type(), ItemType::UseCase);
}

#[test]
fn test_type_accepts_every_item_type() {
    for item_type in ItemType::all() {
        assert_eq!(
            parse_item_type(item_type.as_str()),
            Some(item_type),
            "type id `{}` must be accepted by --type",
            item_type.as_str()
        );
    }
}

#[test]
fn test_type_accepts_prefix_in_any_case() {
    assert_eq!(parse_item_type("UC"), Some(ItemType::UseCase));
}

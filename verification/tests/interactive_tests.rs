use sara_core::graph::KnowledgeGraphBuilder;
use sara_core::interactive::{
    build_confirmation_summary, check_id, check_name, compute_default_indices, get_items_of_type,
    optional_answer, traceability_prompt_message, InputCheck, InteractiveInput, PrefilledFields, SelectOption,
    TypeSpecificInput,
};
use sara_core::interactive::{
    apply_selection_to_input, get_prefilled_for_kind, get_preselected_for_kind, get_traceability_prompt_config,
    TraceabilityKind,
};
use sara_core::model::FieldName;
use sara_core::model::{ItemBuilder, ItemId, ItemType, RelationshipType, SourceLocation, TraceabilityLinks};

fn is_valid(c: InputCheck) -> bool {
    matches!(c, InputCheck::Valid)
}

#[test]
fn test_id_validator_valid() {
    assert!(is_valid(check_id("SOL-001")));
    assert!(is_valid(check_id("UC_002")));
}

#[test]
fn test_id_validator_invalid() {
    assert!(!is_valid(check_id("")));
    assert!(!is_valid(check_id("SOL 001")));
    match check_id("SOL 001") {
        InputCheck::Invalid(m) => assert_eq!(m, "ID must contain only letters, numbers, hyphens, and underscores"),
        InputCheck::Valid => panic!("expected invalid"),
    }
}

#[test]
fn test_name_validator_valid() {
    assert!(is_valid(check_name("Test Name")));
}

#[test]
fn test_name_validator_empty() {
    assert!(!is_valid(check_name("")));
    assert!(!is_valid(check_name("   ")));
}

#[test]
fn name_longer_than_two_hundred_bytes_is_refused() {
    let long = "a".repeat(201);
    match check_name(&long) {
        InputCheck::Invalid(m) => assert_eq!(m, "Name must be 200 characters or less"),
        InputCheck::Valid => panic!("expected invalid"),
    }
    assert!(is_valid(check_name(&"a".repeat(200))));
}

#[test]
fn optional_answers_are_trimmed() {
    assert_eq!(optional_answer("  AWS "), Some("AWS".to_string()));
    assert_eq!(optional_answer("   "), None);
}

#[test]
fn select_option_label_and_defaults() {
    let options = vec![
        SelectOption { id: "SOL-001".to_string(), name: "One".to_string() },
        SelectOption { id: "SOL-002".to_string(), name: "Two".to_string() },
    ];
    assert_eq!(options[0].label(), "SOL-001 - One");
    assert_eq!(compute_default_indices(&options, &vec!["SOL-002".to_string()]), vec![1]);
    assert!(compute_default_indices(&options, &Vec::new()).is_empty());
}

#[test]
fn options_list_items_of_the_type() {
    let item = ItemBuilder::new()
        .id(ItemId::new_unchecked("SOL-001"))
        .item_type(ItemType::Solution)
        .name("Platform")
        .source(SourceLocation::new("/repo", "sol.md", 1))
        .build()
        .ok()
        .unwrap();
    let graph = KnowledgeGraphBuilder::new().add_item(item).build().ok().unwrap();
    let options = get_items_of_type(Some(&graph), ItemType::Solution);
    assert_eq!(options.len(), 1);
    assert_eq!(options[0].id, "SOL-001");
    assert!(get_items_of_type(Some(&graph), ItemType::UseCase).is_empty());
    assert!(get_items_of_type(None, ItemType::Solution).is_empty());
}

#[test]
fn traceability_prompt_names_the_parent() {
    assert_eq!(
        traceability_prompt_message(ItemType::UseCase),
        Some("Select Solution this Use Case refines:".to_string())
    );
    assert_eq!(
        traceability_prompt_message(ItemType::SystemRequirement),
        Some("Select Scenario this System Requirement derives from:".to_string())
    );
    assert_eq!(traceability_prompt_message(ItemType::Solution), None);
}

#[test]
fn confirmation_summary_lists_given_fields() {
    let mut links = TraceabilityLinks::new();
    links.set(RelationshipType::Refines, vec!["SOL-001".to_string(), "SOL-002".to_string()]);
    let input = InteractiveInput {
        file: "docs/uc.md".to_string(),
        item_type: ItemType::UseCase,
        id: "UC-001".to_string(),
        name: "Checkout".to_string(),
        description: Some("Pay".to_string()),
        traceability: links,
        type_specific: TypeSpecificInput::default(),
    };
    let expected = "\n  Summary:\n  ────────────────────────────────────\n  Type: Use Case\n  ID:   UC-001\n  Name: Checkout\n  File: docs/uc.md\n  Description: Pay\n  Refines: SOL-001, SOL-002\n";
    assert_eq!(build_confirmation_summary(&input), expected);
    let prefilled = PrefilledFields::default();
    assert!(prefilled.refines.is_empty() && prefilled.file.is_none());
}

#[test]
fn traceability_kind_of_fields() {
    assert_eq!(TraceabilityKind::from_field(FieldName::Refines), TraceabilityKind::Refines);
    assert_eq!(TraceabilityKind::from_field(FieldName::DerivesFrom), TraceabilityKind::DerivesFrom);
    assert_eq!(TraceabilityKind::from_field(FieldName::Satisfies), TraceabilityKind::Satisfies);
    assert_eq!(TraceabilityKind::from_field(FieldName::Name), TraceabilityKind::Refines);
    assert_eq!(TraceabilityKind::Satisfies.relation(), RelationshipType::Satisfies);
}

#[test]
fn traceability_prompt_config_of_types() {
    assert!(get_traceability_prompt_config(ItemType::Solution).is_none());
    let c = get_traceability_prompt_config(ItemType::SystemRequirement).unwrap();
    assert_eq!(c.kind, TraceabilityKind::DerivesFrom);
    assert_eq!(c.parent_type, ItemType::Scenario);
    assert_eq!(c.prompt_message, "Select Scenario this System Requirement derives from:");
    let d = get_traceability_prompt_config(ItemType::SoftwareDetailedDesign).unwrap();
    assert_eq!(d.kind, TraceabilityKind::Satisfies);
}

#[test]
fn prefilled_and_preselected_ids_by_kind() {
    let prefilled = PrefilledFields { satisfies: vec!["SWREQ-001".to_string()], ..PrefilledFields::default() };
    assert_eq!(get_prefilled_for_kind(&prefilled, TraceabilityKind::Satisfies), &vec!["SWREQ-001".to_string()]);
    assert!(get_prefilled_for_kind(&prefilled, TraceabilityKind::Refines).is_empty());
    let mut links = TraceabilityLinks::new();
    apply_selection_to_input(&mut links, TraceabilityKind::Refines, vec!["SOL-001".to_string(), "SOL-002".to_string()]);
    assert_eq!(links.get(RelationshipType::Refines), vec!["SOL-001".to_string(), "SOL-002".to_string()]);
    assert_eq!(get_preselected_for_kind(Some(&links), TraceabilityKind::Refines).len(), 2);
    assert!(get_preselected_for_kind(Some(&links), TraceabilityKind::Satisfies).is_empty());
    assert!(get_preselected_for_kind(None, TraceabilityKind::Refines).is_empty());
}

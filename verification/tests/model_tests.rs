use sara_core::model::{
    AdrStatus, EditSummary, FieldChange, FieldName, FieldValue, ItemBuilder, ItemId, ItemType,
    Relationship, RelationshipRules, RelationshipType, SourceLocation, TraceabilityLinks,
    TypeFields,
};

#[test]
fn test_adr_status_display() {
    assert_eq!(AdrStatus::Proposed.display_name(), "Proposed");
    assert_eq!(AdrStatus::Accepted.display_name(), "Accepted");
    assert_eq!(AdrStatus::Deprecated.display_name(), "Deprecated");
    assert_eq!(AdrStatus::Superseded.display_name(), "Superseded");
}

#[test]
fn test_adr_status_from_str() {
    assert_eq!("proposed".parse::<AdrStatus>().unwrap(), AdrStatus::Proposed);
    assert_eq!("ACCEPTED".parse::<AdrStatus>().unwrap(), AdrStatus::Accepted);
    assert!("invalid".parse::<AdrStatus>().is_err());
}

#[test]
fn test_adr_status_as_str() {
    assert_eq!(AdrStatus::Proposed.as_str(), "proposed");
    assert_eq!(AdrStatus::Superseded.as_str(), "superseded");
}

#[test]
fn test_field_value_accessors() {
    assert_eq!(
        FieldValue::Text("spec".to_string()).as_text(),
        Some(&"spec".to_string())
    );
    assert_eq!(
        FieldValue::Enum("proposed".to_string()).as_enum(),
        Some(&"proposed".to_string())
    );
    assert!(FieldValue::Text("spec".to_string()).as_enum().is_none());
}

#[test]
fn test_source_location_display() {
    let loc = SourceLocation::new("/repo", "docs/SOL-001.md", 5);
    assert_eq!(loc.display(), "docs/SOL-001.md:5");
}

#[test]
fn test_source_location_full_path() {
    let loc = SourceLocation::new("/repo", "docs/SOL-001.md", 5);
    assert_eq!(loc.full_path(), "/repo/docs/SOL-001.md");
}

#[test]
fn test_source_location_with_git_ref() {
    let loc = SourceLocation::with_git_ref("/repo", "docs/SOL-001.md", 5, "main");
    assert_eq!(loc.git_ref, Some("main".to_string()));
}

#[test]
fn test_empty_fields() {
    let fields = TypeFields::new();
    assert!(fields.is_empty());
}

#[test]
fn test_validate_specification_for_requirement() {
    let fields = TypeFields::new().with_specification("Must do X");
    assert!(fields.validate_for_type(ItemType::SystemRequirement).is_ok());
    assert!(fields.validate_for_type(ItemType::SoftwareRequirement).is_ok());
    assert!(fields.validate_for_type(ItemType::HardwareRequirement).is_ok());
}

#[test]
fn test_validate_specification_for_non_requirement() {
    let fields = TypeFields::new().with_specification("Must do X");
    assert!(fields.validate_for_type(ItemType::Solution).is_err());
    assert!(fields.validate_for_type(ItemType::UseCase).is_err());
}

#[test]
fn test_validate_platform_for_architecture() {
    let fields = TypeFields::new().with_platform("Linux x86_64");
    assert!(fields.validate_for_type(ItemType::SystemArchitecture).is_ok());
}

#[test]
fn test_validate_platform_for_non_architecture() {
    let fields = TypeFields::new().with_platform("Linux x86_64");
    assert!(fields.validate_for_type(ItemType::Solution).is_err());
    assert!(fields.validate_for_type(ItemType::SystemRequirement).is_err());
}

#[test]
fn test_validate_adr_fields() {
    let fields = TypeFields::new()
        .with_status(AdrStatus::Proposed)
        .with_deciders(vec!["Alice".to_string()]);
    assert!(fields.validate_for_type(ItemType::ArchitectureDecisionRecord).is_ok());
}

#[test]
fn test_validate_adr_fields_for_non_adr() {
    let fields = TypeFields::new().with_status(AdrStatus::Proposed);
    assert!(fields.validate_for_type(ItemType::Solution).is_err());
}

#[test]
fn fields_test_needs_specification() {
    let empty = TypeFields::new();
    assert!(empty.needs_specification(ItemType::SystemRequirement));
    assert!(!empty.needs_specification(ItemType::Solution));

    let with_spec = TypeFields::new().with_specification("spec");
    assert!(!with_spec.needs_specification(ItemType::SystemRequirement));
}

#[test]
fn test_item_id_valid() {
    assert!(ItemId::new("SOL-001").is_ok());
    assert!(ItemId::new("UC_002").is_ok());
    assert!(ItemId::new("SYSREQ-123-A").is_ok());
}

#[test]
fn test_item_id_invalid() {
    assert!(ItemId::new("").is_err());
    assert!(ItemId::new("SOL 001").is_err());
    assert!(ItemId::new("SOL.001").is_err());
}

#[test]
fn test_item_type_display() {
    assert_eq!(ItemType::Solution.display_name(), "Solution");
    assert_eq!(ItemType::SystemRequirement.display_name(), "System Requirement");
}

#[test]
fn test_item_type_requires_specification() {
    assert!(ItemType::SystemRequirement.requires_specification());
    assert!(ItemType::HardwareRequirement.requires_specification());
    assert!(ItemType::SoftwareRequirement.requires_specification());
    assert!(!ItemType::Solution.requires_specification());
    assert!(!ItemType::Scenario.requires_specification());
}

#[test]
fn test_generate_id() {
    assert_eq!(ItemType::Solution.generate_id(Some(1)), "SOL-001");
    assert_eq!(ItemType::UseCase.generate_id(Some(42)), "UC-042");
    assert_eq!(ItemType::SystemRequirement.generate_id(None), "SYSREQ-001");
}

#[test]
fn test_relationship_type_inverse() {
    assert_eq!(RelationshipType::Refines.inverse(), RelationshipType::IsRefinedBy);
    assert_eq!(RelationshipType::Derives.inverse(), RelationshipType::DerivesFrom);
    assert_eq!(RelationshipType::Satisfies.inverse(), RelationshipType::IsSatisfiedBy);
    assert_eq!(RelationshipType::DependsOn.inverse(), RelationshipType::IsRequiredBy);
}

#[test]
fn test_relationship_type_direction() {
    assert!(RelationshipType::Refines.is_upstream());
    assert!(RelationshipType::DerivesFrom.is_upstream());
    assert!(RelationshipType::Satisfies.is_upstream());

    assert!(RelationshipType::IsRefinedBy.is_downstream());
    assert!(RelationshipType::Derives.is_downstream());
    assert!(RelationshipType::IsSatisfiedBy.is_downstream());

    assert!(RelationshipType::DependsOn.is_peer());
    assert!(RelationshipType::IsRequiredBy.is_peer());
}

#[test]
fn test_valid_relationships() {
    assert!(RelationshipRules::is_valid_relationship(
        ItemType::UseCase,
        ItemType::Solution,
        RelationshipType::Refines
    ));
    assert!(RelationshipRules::is_valid_relationship(
        ItemType::Scenario,
        ItemType::UseCase,
        RelationshipType::Refines
    ));
    assert!(RelationshipRules::is_valid_relationship(
        ItemType::SystemRequirement,
        ItemType::Scenario,
        RelationshipType::DerivesFrom
    ));
    assert!(!RelationshipRules::is_valid_relationship(
        ItemType::Solution,
        ItemType::UseCase,
        RelationshipType::Refines
    ));
}

#[test]
fn test_peer_dependencies() {
    assert!(RelationshipRules::is_valid_relationship(
        ItemType::SystemRequirement,
        ItemType::SystemRequirement,
        RelationshipType::DependsOn
    ));
    assert!(!RelationshipRules::is_valid_relationship(
        ItemType::Solution,
        ItemType::Solution,
        RelationshipType::DependsOn
    ));
}

#[test]
fn relationship_test_adr_justifies_relationship() {
    assert!(RelationshipRules::is_valid_relationship(
        ItemType::ArchitectureDecisionRecord,
        ItemType::SystemArchitecture,
        RelationshipType::Justifies
    ));
    assert!(RelationshipRules::is_valid_relationship(
        ItemType::ArchitectureDecisionRecord,
        ItemType::SoftwareDetailedDesign,
        RelationshipType::Justifies
    ));
    assert!(RelationshipRules::is_valid_relationship(
        ItemType::ArchitectureDecisionRecord,
        ItemType::HardwareDetailedDesign,
        RelationshipType::Justifies
    ));
    assert!(!RelationshipRules::is_valid_relationship(
        ItemType::ArchitectureDecisionRecord,
        ItemType::SystemRequirement,
        RelationshipType::Justifies
    ));
}

#[test]
fn relationship_test_adr_supersession_relationship() {
    assert!(RelationshipRules::is_valid_relationship(
        ItemType::ArchitectureDecisionRecord,
        ItemType::ArchitectureDecisionRecord,
        RelationshipType::Supersedes
    ));
    assert!(RelationshipRules::is_valid_relationship(
        ItemType::ArchitectureDecisionRecord,
        ItemType::ArchitectureDecisionRecord,
        RelationshipType::IsSupersededBy
    ));
    assert!(!RelationshipRules::is_valid_relationship(
        ItemType::ArchitectureDecisionRecord,
        ItemType::SystemArchitecture,
        RelationshipType::Supersedes
    ));
}

#[test]
fn test_adr_relationship_direction() {
    assert!(RelationshipType::Justifies.is_upstream());
    assert!(RelationshipType::IsJustifiedBy.is_downstream());
    assert!(RelationshipType::Supersedes.is_peer());
    assert!(RelationshipType::IsSupersededBy.is_peer());
}

#[test]
fn test_required_parent_type() {
    assert_eq!(ItemType::Solution.required_parent_type(), None);
    assert_eq!(ItemType::UseCase.required_parent_type(), Some(ItemType::Solution));
    assert_eq!(ItemType::Scenario.required_parent_type(), Some(ItemType::UseCase));
}

#[test]
fn test_traceability_field() {
    assert_eq!(ItemType::Solution.traceability_field(), None);
    assert_eq!(ItemType::UseCase.traceability_field(), Some(FieldName::Refines));
    assert_eq!(
        ItemType::SystemRequirement.traceability_field(),
        Some(FieldName::DerivesFrom)
    );
    assert_eq!(
        ItemType::SystemArchitecture.traceability_field(),
        Some(FieldName::Satisfies)
    );
}

#[test]
fn test_suggest_next_id_no_graph() {
    let id = ItemType::Solution.suggest_next_id(None);
    assert!(id.starts_with("SOL-"));
}

#[test]
fn test_field_change_is_changed() {
    let changed = FieldChange::new("Name", "Old", "New");
    assert!(changed.is_changed());

    let unchanged = FieldChange::new("Name", "Same", "Same");
    assert!(!unchanged.is_changed());
}

#[test]
fn test_edit_summary_has_changes() {
    let summary = EditSummary {
        item_id: "SREQ-001".to_string(),
        file_path: "test.md".to_string(),
        changes: vec![
            FieldChange::new("Name", "Old", "New"),
            FieldChange::new("Description", "Same", "Same"),
        ],
    };
    assert!(summary.has_changes());
    assert_eq!(summary.actual_changes().len(), 1);
}

#[test]
fn test_edit_summary_no_changes() {
    let summary = EditSummary {
        item_id: "SREQ-001".to_string(),
        file_path: "test.md".to_string(),
        changes: vec![FieldChange::new("Name", "Same", "Same")],
    };
    assert!(!summary.has_changes());
    assert_eq!(summary.actual_changes().len(), 0);
}

#[test]
fn test_traceability_links_set_get() {
    let mut links = TraceabilityLinks::new();
    assert!(links.is_empty());
    assert!(links.get(RelationshipType::Refines).is_empty());

    links.set(RelationshipType::Refines, vec!["SOL-001".to_string()]);
    links.extend(RelationshipType::Refines, vec!["SOL-002".to_string()]);
    assert!(!links.is_empty());
    assert_eq!(links.get(RelationshipType::Refines), ["SOL-001", "SOL-002"]);
}

#[test]
fn test_traceability_links_from_item() {
    let item = ItemBuilder::new()
        .id(ItemId::new_unchecked("UC-001"))
        .item_type(ItemType::UseCase)
        .name("Test UC-001")
        .source(SourceLocation::new("/repo", "UC-001.md", 1))
        .relationships(vec![Relationship::new(
            ItemId::new_unchecked("SOL-001"),
            RelationshipType::Refines,
        )])
        .build()
        .unwrap();

    let links = TraceabilityLinks::from_item(&item);
    assert_eq!(links.get(RelationshipType::Refines), ["SOL-001"]);
}

#[test]
fn test_item_builder() {
    let source = SourceLocation::new("/repo", "docs/SOL-001.md", 1);
    let item = ItemBuilder::new()
        .id(ItemId::new_unchecked("SOL-001"))
        .item_type(ItemType::Solution)
        .name("Test Solution")
        .source(source)
        .build();

    assert!(item.is_ok());
    let item = item.unwrap();
    assert_eq!(item.id.as_str(), "SOL-001");
    assert_eq!(item.name, "Test Solution");
}

#[test]
fn test_item_builder_with_relationships() {
    let source = SourceLocation::new("/repo", "docs/UC-001.md", 1);
    let item = ItemBuilder::new()
        .id(ItemId::new_unchecked("UC-001"))
        .item_type(ItemType::UseCase)
        .name("Test Use Case")
        .source(source)
        .relationships(vec![Relationship::new(
            ItemId::new_unchecked("SOL-001"),
            RelationshipType::Refines,
        )])
        .build()
        .unwrap();

    let refines = item.relationship_ids(RelationshipType::Refines);
    assert_eq!(refines.len(), 1);
    assert_eq!(refines[0].as_str(), "SOL-001");
}

#[test]
fn field_value_clone_is_equal() {
    let v = sara_core::model::FieldValue::List(vec![
        sara_core::model::FieldValue::text("a"),
        sara_core::model::FieldValue::ItemRef(ItemId::new_unchecked("SOL-001")),
        sara_core::model::FieldValue::List(vec![sara_core::model::FieldValue::Date("2024-01-01".to_string())]),
    ]);
    assert_eq!(v.duplicate(), v);
    assert_eq!(v.clone(), v);
}

#[test]
fn type_ids_and_status_ids_read_back() {
    for t in ItemType::all() {
        assert_eq!(ItemType::from_id(t.as_str()), Some(t));
    }
    assert_eq!(ItemType::from_id("sol"), None);
    for s in [AdrStatus::Proposed, AdrStatus::Accepted, AdrStatus::Deprecated, AdrStatus::Superseded] {
        assert_eq!(AdrStatus::parse(s.as_str()), Ok(s));
        assert_eq!(AdrStatus::parse(&s.as_str().to_uppercase()), Ok(s));
    }
}

use sara_core::generator::mermaid::{neighborhood_to_mermaid, traversal_to_mermaid};
use sara_core::graph::{traverse_downstream, traverse_upstream, KnowledgeGraph, KnowledgeGraphBuilder, TraversalOptions};
use sara_core::model::{Item, ItemBuilder, ItemId, ItemType, Relationship, RelationshipType, SourceLocation};

fn id(value: &str) -> ItemId {
    ItemId::new_unchecked(value)
}

fn create_test_item_with_name(item_id: &str, item_type: ItemType, name: &str) -> Item {
    create_item(item_id, item_type, name, Vec::new())
}

fn create_item(item_id: &str, item_type: ItemType, name: &str, relationships: Vec<Relationship>) -> Item {
    let source = SourceLocation::new("/repo", &format!("{}.md", item_id), 1);
    let mut builder = ItemBuilder::new()
        .id(id(item_id))
        .item_type(item_type)
        .name(name)
        .source(source)
        .relationships(relationships);
    if item_type.requires_specification() {
        builder = builder.specification("Test specification");
    }
    builder.build().ok().unwrap()
}

fn create_test_item(item_id: &str, item_type: ItemType) -> Item {
    create_item(item_id, item_type, &format!("Test {}", item_id), Vec::new())
}

fn create_test_item_with_relationships(item_id: &str, item_type: ItemType, relationships: Vec<Relationship>) -> Item {
    create_item(item_id, item_type, &format!("Test {}", item_id), relationships)
}

fn build(items: Vec<Item>) -> KnowledgeGraph {
    KnowledgeGraphBuilder::new().add_items(items).build().ok().unwrap()
}

fn render_upstream(items: Vec<Item>, origin: &str) -> String {
    let graph = build(items);
    let result = traverse_upstream(&graph, &id(origin), &TraversalOptions::new()).unwrap();
    traversal_to_mermaid(&result, &graph)
}

#[test]
fn renders_chain_with_upstream_relation_name() {
    let items = vec![
        create_test_item_with_name("SOL-001", ItemType::Solution, "Payment platform"),
        create_test_item_with_relationships(
            "UC-001",
            ItemType::UseCase,
            vec![Relationship::new(id("SOL-001"), RelationshipType::Refines)],
        ),
    ];
    let expected = "\
flowchart BT
    SOL-001[\"SOL-001<br>Payment platform\"]
    UC-001[\"UC-001<br>Test UC-001\"]
    UC-001 -->|refines| SOL-001
    class UC-001 origin
    class SOL-001 solution
    class UC-001 use_case
";
    assert_eq!(render_upstream(items, "UC-001"), expected);
}

#[test]
fn renders_cross_edges_of_a_diamond() {
    let items = vec![
        create_test_item("SYSARCH-001", ItemType::SystemArchitecture),
        create_test_item_with_relationships(
            "SWREQ-001",
            ItemType::SoftwareRequirement,
            vec![Relationship::new(id("SYSARCH-001"), RelationshipType::DerivesFrom)],
        ),
        create_test_item_with_relationships(
            "SWREQ-002",
            ItemType::SoftwareRequirement,
            vec![Relationship::new(id("SYSARCH-001"), RelationshipType::DerivesFrom)],
        ),
        create_test_item_with_relationships(
            "SWDD-001",
            ItemType::SoftwareDetailedDesign,
            vec![
                Relationship::new(id("SWREQ-001"), RelationshipType::Satisfies),
                Relationship::new(id("SWREQ-002"), RelationshipType::Satisfies),
            ],
        ),
    ];
    let output = render_upstream(items, "SWDD-001");
    assert!(output.contains("    SWREQ-001 -->|derives_from| SYSARCH-001\n"));
    assert!(output.contains("    SWREQ-002 -->|derives_from| SYSARCH-001\n"));
    assert!(output.contains("    SWDD-001 -->|satisfies| SWREQ-001\n"));
    assert!(output.contains("    SWDD-001 -->|satisfies| SWREQ-002\n"));
    assert_eq!(output.matches("-->").count(), 4);
}

#[test]
fn renders_downstream_declaration_from_declaring_side() {
    let items = vec![
        create_test_item_with_relationships(
            "SOL-001",
            ItemType::Solution,
            vec![Relationship::new(id("UC-001"), RelationshipType::IsRefinedBy)],
        ),
        create_test_item("UC-001", ItemType::UseCase),
    ];
    let output = render_upstream(items, "UC-001");
    assert!(output.contains("    UC-001 -->|refines| SOL-001\n"));
    assert_eq!(output.matches("-->").count(), 1);
}

#[test]
fn renders_peer_relation_once_with_its_own_name() {
    let items = vec![
        create_test_item("SYSARCH-001", ItemType::SystemArchitecture),
        create_test_item_with_relationships(
            "SWREQ-001",
            ItemType::SoftwareRequirement,
            vec![Relationship::new(id("SYSARCH-001"), RelationshipType::DerivesFrom)],
        ),
        create_test_item_with_relationships(
            "SWREQ-002",
            ItemType::SoftwareRequirement,
            vec![
                Relationship::new(id("SYSARCH-001"), RelationshipType::DerivesFrom),
                Relationship::new(id("SWREQ-001"), RelationshipType::DependsOn),
            ],
        ),
    ];
    let graph = build(items);
    let result = traverse_downstream(&graph, &id("SYSARCH-001"), &TraversalOptions::new()).unwrap();
    let output = traversal_to_mermaid(&result, &graph);
    assert!(output.contains("    SWREQ-002 -->|depends_on| SWREQ-001\n"));
    assert!(!output.contains("is_required_by"));
    assert_eq!(output.matches("-->").count(), 3);
}

fn neighborhood_graph() -> KnowledgeGraph {
    build(vec![
        create_test_item("SYSARCH-001", ItemType::SystemArchitecture),
        create_test_item_with_relationships(
            "SWREQ-001",
            ItemType::SoftwareRequirement,
            vec![Relationship::new(id("SYSARCH-001"), RelationshipType::DerivesFrom)],
        ),
        create_test_item_with_relationships(
            "SWREQ-002",
            ItemType::SoftwareRequirement,
            vec![Relationship::new(id("SWREQ-001"), RelationshipType::DependsOn)],
        ),
        create_test_item_with_relationships(
            "SWDD-001",
            ItemType::SoftwareDetailedDesign,
            vec![Relationship::new(id("SWREQ-001"), RelationshipType::Satisfies)],
        ),
    ])
}

#[test]
fn renders_direct_neighborhood_including_peers() {
    let graph = neighborhood_graph();
    let expected = "\
flowchart BT
    SWDD-001[\"SWDD-001<br>Test SWDD-001\"]
    SWREQ-001[\"SWREQ-001<br>Test SWREQ-001\"]
    SWREQ-002[\"SWREQ-002<br>Test SWREQ-002\"]
    SYSARCH-001[\"SYSARCH-001<br>Test SYSARCH-001\"]
    SWDD-001 -->|satisfies| SWREQ-001
    SWREQ-001 -->|derives_from| SYSARCH-001
    SWREQ-002 -->|depends_on| SWREQ-001
    class SWREQ-001 origin
    class SWDD-001 software_detailed_design
    class SWREQ-001,SWREQ-002 software_requirement
    class SYSARCH-001 system_architecture
";
    assert_eq!(neighborhood_to_mermaid(&graph, &id("SWREQ-001"), &TraversalOptions::new()), expected);
}

#[test]
fn neighborhood_keeps_only_requested_types() {
    let graph = neighborhood_graph();
    let expected = "\
flowchart BT
    SWDD-001[\"SWDD-001<br>Test SWDD-001\"]
    SWREQ-001[\"SWREQ-001<br>Test SWREQ-001\"]
    SWDD-001 -->|satisfies| SWREQ-001
    class SWREQ-001 origin
    class SWDD-001 software_detailed_design
    class SWREQ-001 software_requirement
";
    let options = TraversalOptions::new().with_types(vec![ItemType::SoftwareDetailedDesign]);
    assert_eq!(neighborhood_to_mermaid(&graph, &id("SWREQ-001"), &options), expected);
}

#[test]
fn escapes_quotes_and_angle_brackets_in_names() {
    let items = vec![create_test_item_with_name("SOL-001", ItemType::Solution, "Say \"hi\" <now>")];
    let output = render_upstream(items, "SOL-001");
    assert!(output.contains("    SOL-001[\"SOL-001<br>Say #quot;hi#quot; #lt;now#gt;\"]\n"));
}

#[test]
fn omits_edges_toward_items_outside_the_result() {
    let graph = build(vec![
        create_test_item("SOL-001", ItemType::Solution),
        create_test_item_with_relationships(
            "UC-001",
            ItemType::UseCase,
            vec![Relationship::new(id("SOL-001"), RelationshipType::Refines)],
        ),
        create_test_item_with_relationships(
            "SCEN-001",
            ItemType::Scenario,
            vec![Relationship::new(id("UC-001"), RelationshipType::Refines)],
        ),
    ]);
    let result = traverse_upstream(&graph, &id("UC-001"), &TraversalOptions::new().with_max_depth(1)).unwrap();
    let output = traversal_to_mermaid(&result, &graph);
    assert!(!output.contains("SCEN-001"));
    assert_eq!(output.matches("-->").count(), 1);
}

#[test]
fn neighborhood_of_unknown_item_has_only_the_origin_class() {
    let graph = neighborhood_graph();
    let output = neighborhood_to_mermaid(&graph, &id("NOPE-1"), &TraversalOptions::new());
    assert_eq!(output, "flowchart BT\n    class NOPE-1 origin\n");
}

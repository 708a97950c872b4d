use sara_core::cli::{build_traversal_options, requested_traversals, QueryArgs, QueryFormat};
use sara_core::diff::{DiffOptions, DiffService};
use sara_core::export::build_graph_export;
use sara_core::graph::{
    traverse_downstream, traverse_upstream, GraphBuilder, GraphDiff, GraphStats, KnowledgeGraph,
    KnowledgeGraphBuilder, LookupResult, TraversalOptions,
};
use sara_core::model::{AdrStatus, Item, ItemBuilder, ItemId, ItemType, Relationship, RelationshipType, SourceLocation};
use sara_core::query::traceability::{check_parent_exists, get_children, get_parents, QueryEngine};
use sara_core::report::format::{format_matrix_html, format_matrix_text};
use sara_core::report::{CoverageReport, TraceabilityMatrix};

fn item_named(id: &str, item_type: ItemType, name: &str, relationships: Vec<Relationship>) -> Item {
    let source = SourceLocation::new("/repo", &format!("{}.md", id), 1);
    let mut builder = ItemBuilder::new()
        .id(ItemId::new_unchecked(id))
        .item_type(item_type)
        .name(name)
        .source(source)
        .relationships(relationships);
    if item_type.requires_specification() {
        builder = builder.specification("Test specification");
    }
    builder.build().ok().unwrap()
}

fn create_test_item(id: &str, item_type: ItemType) -> Item {
    item_named(id, item_type, &format!("Test {}", id), Vec::new())
}

fn create_test_item_with_relationships(id: &str, item_type: ItemType, relationships: Vec<Relationship>) -> Item {
    item_named(id, item_type, &format!("Test {}", id), relationships)
}

fn create_test_adr(id: &str, justifies: &[&str], supersedes: &[&str]) -> Item {
    let source = SourceLocation::new("/repo", &format!("{}.md", id), 1);
    let relationships: Vec<Relationship> = justifies
        .iter()
        .map(|t| Relationship::new(ItemId::new_unchecked(t), RelationshipType::Justifies))
        .collect();
    let superseded: Vec<ItemId> = supersedes.iter().map(|t| ItemId::new_unchecked(t)).collect();
    ItemBuilder::new()
        .id(ItemId::new_unchecked(id))
        .item_type(ItemType::ArchitectureDecisionRecord)
        .name(&format!("Test {}", id))
        .source(source)
        .relationships(relationships)
        .status(AdrStatus::Accepted)
        .decider("Alice")
        .supersedes_all(superseded)
        .build()
        .ok()
        .unwrap()
}

fn refines(target: &str) -> Vec<Relationship> {
    vec![Relationship::new(ItemId::new_unchecked(target), RelationshipType::Refines)]
}

fn chain_graph() -> KnowledgeGraph {
    KnowledgeGraphBuilder::new()
        .add_item(create_test_item("SOL-001", ItemType::Solution))
        .add_item(create_test_item_with_relationships("UC-001", ItemType::UseCase, refines("SOL-001")))
        .add_item(create_test_item_with_relationships("SCEN-001", ItemType::Scenario, refines("UC-001")))
        .build()
        .ok()
        .unwrap()
}

// ----- knowledge graph -----

#[test]
fn test_add_and_get_item() {
    let graph = KnowledgeGraphBuilder::new()
        .add_item(create_test_item("SOL-001", ItemType::Solution))
        .build()
        .ok()
        .unwrap();
    let id = ItemId::new_unchecked("SOL-001");
    assert!(graph.contains(&id));
    assert_eq!(graph.get(&id).unwrap().name, "Test SOL-001");
}

#[test]
fn test_items_by_type() {
    let graph = KnowledgeGraphBuilder::new()
        .add_item(create_test_item("SOL-001", ItemType::Solution))
        .add_item(create_test_item("UC-001", ItemType::UseCase))
        .add_item(create_test_item("UC-002", ItemType::UseCase))
        .build()
        .ok()
        .unwrap();
    assert_eq!(graph.items_by_type(ItemType::Solution).len(), 1);
    assert_eq!(graph.items_by_type(ItemType::UseCase).len(), 2);
}

#[test]
fn test_item_count() {
    let graph = KnowledgeGraphBuilder::new().build().ok().unwrap();
    assert_eq!(graph.item_count(), 0);

    let graph = KnowledgeGraphBuilder::new()
        .add_item(create_test_item("SOL-001", ItemType::Solution))
        .build()
        .ok()
        .unwrap();
    assert_eq!(graph.item_count(), 1);

    let graph = KnowledgeGraphBuilder::new()
        .add_item(create_test_item("SOL-001", ItemType::Solution))
        .add_item(create_test_item("UC-001", ItemType::UseCase))
        .build()
        .ok()
        .unwrap();
    assert_eq!(graph.item_count(), 2);
}

#[test]
fn knowledge_graph_test_build_simple_graph() {
    let graph = KnowledgeGraphBuilder::new()
        .add_item(create_test_item("SOL-001", ItemType::Solution))
        .build()
        .ok()
        .unwrap();
    assert_eq!(graph.item_count(), 1);
}

#[test]
fn knowledge_graph_test_build_graph_with_relationships() {
    let graph = KnowledgeGraphBuilder::new()
        .add_item(create_test_item("SOL-001", ItemType::Solution))
        .add_item(create_test_item_with_relationships("UC-001", ItemType::UseCase, refines("SOL-001")))
        .build()
        .ok()
        .unwrap();
    assert_eq!(graph.item_count(), 2);
    assert_eq!(graph.relationship_count(), 1);
}

#[test]
fn knowledge_graph_test_adr_justifies_relationship() {
    let graph = KnowledgeGraphBuilder::new()
        .add_item(create_test_item("SYSARCH-001", ItemType::SystemArchitecture))
        .add_item(create_test_adr("ADR-001", &["SYSARCH-001"], &[]))
        .build()
        .ok()
        .unwrap();
    assert_eq!(graph.item_count(), 2);
    assert_eq!(graph.relationship_count(), 2);
}

#[test]
fn knowledge_graph_test_adr_supersession_relationship() {
    let graph = KnowledgeGraphBuilder::new()
        .add_item(create_test_adr("ADR-001", &[], &[]))
        .add_item(create_test_adr("ADR-002", &[], &["ADR-001"]))
        .build()
        .ok()
        .unwrap();
    assert_eq!(graph.item_count(), 2);
    assert_eq!(graph.relationship_count(), 2);
}

#[test]
fn knowledge_graph_test_lookup_found() {
    let graph = KnowledgeGraphBuilder::new()
        .add_item(create_test_item("SOL-001", ItemType::Solution))
        .build()
        .ok()
        .unwrap();
    match graph.lookup("SOL-001") {
        LookupResult::Found(item) => assert_eq!(item.id.as_str(), "SOL-001"),
        LookupResult::NotFound { .. } => panic!("Expected to find item"),
    }
}

fn three_item_graph() -> KnowledgeGraph {
    KnowledgeGraphBuilder::new()
        .add_item(create_test_item("SOL-001", ItemType::Solution))
        .add_item(create_test_item("SOL-002", ItemType::Solution))
        .add_item(create_test_item("UC-001", ItemType::UseCase))
        .build()
        .ok()
        .unwrap()
}

#[test]
fn knowledge_graph_test_lookup_not_found_with_suggestions() {
    let graph = three_item_graph();
    match graph.lookup("SOL-003") {
        LookupResult::Found(_) => panic!("Should not find item"),
        LookupResult::NotFound { suggestions } => {
            assert!(!suggestions.is_empty());
            let strs: Vec<&str> = suggestions.iter().map(|id| id.as_str()).collect();
            assert!(strs.contains(&"SOL-001") || strs.contains(&"SOL-002"));
        }
    }
}

#[test]
fn similar_ids_are_ranked_by_distance_then_insertion() {
    let graph = three_item_graph();
    assert_eq!(
        graph.find_similar_ids("SOL-003", 5),
        vec!["SOL-001".to_string(), "SOL-002".to_string(), "UC-001".to_string()]
    );
    assert_eq!(graph.find_similar_ids("SOL-003", 1), vec!["SOL-001".to_string()]);
    assert!(graph.find_similar_ids("XYZ", 5).is_empty());
}

#[test]
fn lookup_or_suggest_reports_missing_item() {
    let graph = three_item_graph();
    assert!(graph.lookup_or_suggest("SOL-002").is_ok());
    assert!(graph.lookup_or_suggest("SOL-009").is_err());
}

#[test]
fn parents_children_and_orphans() {
    let graph = chain_graph();
    let parents = graph.parents(&ItemId::new_unchecked("UC-001"));
    assert_eq!(parents.len(), 1);
    assert_eq!(parents[0].id.as_str(), "SOL-001");
    let children = graph.children(&ItemId::new_unchecked("UC-001"));
    assert_eq!(children.len(), 1);
    assert_eq!(children[0].id.as_str(), "SCEN-001");
    assert!(graph.orphans().is_empty());

    let lone = KnowledgeGraphBuilder::new()
        .add_item(create_test_item("UC-009", ItemType::UseCase))
        .build()
        .ok()
        .unwrap();
    assert_eq!(lone.orphans().len(), 1);
}

#[test]
fn parent_checks_follow_the_hierarchy() {
    let graph = chain_graph();
    assert!(graph.check_parent_exists(ItemType::SystemRequirement).is_ok());
    assert!(graph.check_parent_exists(ItemType::Solution).is_ok());
    let empty = KnowledgeGraph::new();
    assert!(empty.check_parent_exists(ItemType::UseCase).is_err());
    assert!(check_parent_exists(ItemType::UseCase, None).is_ok());
    let err = check_parent_exists(ItemType::UseCase, Some(&empty)).err().unwrap();
    assert_eq!(err.item_type, "Use Case");
    assert_eq!(err.parent_type, "Solution");
}

#[test]
fn suggest_next_id_counts_past_the_highest_number() {
    let graph = KnowledgeGraphBuilder::new()
        .add_item(create_test_item("SOL-001", ItemType::Solution))
        .add_item(create_test_item("SOL-007", ItemType::Solution))
        .build()
        .ok()
        .unwrap();
    assert_eq!(ItemType::Solution.suggest_next_id(Some(&graph)), "SOL-008");
    assert_eq!(ItemType::UseCase.suggest_next_id(Some(&graph)), "UC-001");
}

#[test]
fn suggested_id_is_not_taken() {
    let graph = KnowledgeGraphBuilder::new()
        .add_item(create_test_item("SOL-2", ItemType::Solution))
        .add_item(create_test_item("SOL-003", ItemType::Solution))
        .add_item(create_test_item("SOL--0004", ItemType::Solution))
        .build()
        .ok()
        .unwrap();
    let next = ItemType::Solution.suggest_next_id(Some(&graph));
    assert_eq!(next, "SOL-005");
    assert!(graph.items().iter().all(|i| i.id.as_str() != next));
}

// ----- graph builder -----

#[test]
fn builder_test_build_simple_graph() {
    let graph = GraphBuilder::new()
        .add_item(create_test_item("SOL-001", ItemType::Solution))
        .build()
        .ok()
        .unwrap();
    assert_eq!(graph.item_count(), 1);
}

#[test]
fn builder_test_build_graph_with_relationships() {
    let graph = GraphBuilder::new()
        .add_item(create_test_item("SOL-001", ItemType::Solution))
        .add_item(create_test_item_with_relationships("UC-001", ItemType::UseCase, refines("SOL-001")))
        .build()
        .ok()
        .unwrap();
    assert_eq!(graph.item_count(), 2);
    assert_eq!(graph.relationship_count(), 2);
}

#[test]
fn test_strict_mode() {
    let graph = GraphBuilder::new()
        .with_strict_mode(true)
        .add_item(create_test_item("SOL-001", ItemType::Solution))
        .build()
        .ok()
        .unwrap();
    assert!(graph.is_strict_mode());
}

#[test]
fn builder_test_adr_justifies_relationship() {
    let graph = GraphBuilder::new()
        .add_item(create_test_item("SYSARCH-001", ItemType::SystemArchitecture))
        .add_item(create_test_adr("ADR-001", &["SYSARCH-001"], &[]))
        .build()
        .ok()
        .unwrap();
    assert_eq!(graph.item_count(), 2);
    assert_eq!(graph.relationship_count(), 2);
}

#[test]
fn builder_test_adr_supersession_relationship() {
    let graph = GraphBuilder::new()
        .add_item(create_test_adr("ADR-001", &[], &[]))
        .add_item(create_test_adr("ADR-002", &[], &["ADR-001"]))
        .build()
        .ok()
        .unwrap();
    assert_eq!(graph.item_count(), 2);
    assert_eq!(graph.relationship_count(), 2);
}

#[test]
fn edges_to_missing_items_are_skipped() {
    let graph = GraphBuilder::new()
        .add_item(create_test_item_with_relationships("UC-001", ItemType::UseCase, refines("SOL-404")))
        .build()
        .ok()
        .unwrap();
    assert_eq!(graph.item_count(), 1);
    assert_eq!(graph.relationship_count(), 0);
}

// ----- traversal -----

#[test]
fn test_upstream_traversal() {
    let graph = chain_graph();
    let result = traverse_upstream(&graph, &ItemId::new_unchecked("SCEN-001"), &TraversalOptions::new());
    let result = result.unwrap();
    assert_eq!(result.items.len(), 3);
    assert_eq!(result.max_depth, 2);
}

#[test]
fn test_downstream_traversal() {
    let graph = KnowledgeGraphBuilder::new()
        .add_item(create_test_item("SOL-001", ItemType::Solution))
        .add_item(create_test_item_with_relationships("UC-001", ItemType::UseCase, refines("SOL-001")))
        .build()
        .ok()
        .unwrap();
    let result = traverse_downstream(&graph, &ItemId::new_unchecked("SOL-001"), &TraversalOptions::new());
    assert_eq!(result.unwrap().items.len(), 2);
}

#[test]
fn test_depth_limited_traversal() {
    let graph = chain_graph();
    let result = traverse_upstream(
        &graph,
        &ItemId::new_unchecked("SCEN-001"),
        &TraversalOptions::new().with_max_depth(1),
    )
    .unwrap();
    assert_eq!(result.max_depth, 1);
    assert!(result.items.len() <= 2);
}

#[test]
fn test_shared_ancestor_is_reported_under_each_parent() {
    let derives = |t: &str| vec![Relationship::new(ItemId::new_unchecked(t), RelationshipType::DerivesFrom)];
    let graph = KnowledgeGraphBuilder::new()
        .add_item(create_test_item("SCEN-001", ItemType::Scenario))
        .add_item(create_test_item_with_relationships("SYSREQ-001", ItemType::SystemRequirement, derives("SCEN-001")))
        .add_item(create_test_item_with_relationships("SYSREQ-002", ItemType::SystemRequirement, derives("SCEN-001")))
        .add_item(create_test_item_with_relationships(
            "SYSARCH-001",
            ItemType::SystemArchitecture,
            vec![
                Relationship::new(ItemId::new_unchecked("SYSREQ-001"), RelationshipType::Satisfies),
                Relationship::new(ItemId::new_unchecked("SYSREQ-002"), RelationshipType::Satisfies),
            ],
        ))
        .build()
        .ok()
        .unwrap();

    let result = traverse_upstream(&graph, &ItemId::new_unchecked("SYSARCH-001"), &TraversalOptions::new()).unwrap();
    let visited: Vec<(&str, usize, Option<&str>)> = result
        .items
        .iter()
        .map(|n| (n.item_id.as_str(), n.depth, n.parent.as_ref().map(|p| p.as_str())))
        .collect();
    assert_eq!(visited.len(), 5, "{visited:?}");
    assert_eq!(visited[0], ("SYSARCH-001", 0, None));
    for block in [1, 3] {
        let (req, depth, parent) = visited[block];
        assert!(req.starts_with("SYSREQ-"), "{visited:?}");
        assert_eq!((depth, parent), (1, Some("SYSARCH-001")));
        assert_eq!(visited[block + 1], ("SCEN-001", 2, Some(req)));
    }
    assert_ne!(visited[1].0, visited[3].0);
    assert_eq!(result.max_depth, 2);
}

#[test]
fn test_cycle_terminates_without_revisiting_path_ancestors() {
    let graph = KnowledgeGraphBuilder::new()
        .add_item(create_test_item_with_relationships("UC-001", ItemType::UseCase, refines("UC-002")))
        .add_item(create_test_item_with_relationships("UC-002", ItemType::UseCase, refines("UC-001")))
        .build()
        .ok()
        .unwrap();
    let result = traverse_upstream(&graph, &ItemId::new_unchecked("UC-001"), &TraversalOptions::new()).unwrap();
    let ids: Vec<&str> = result.items.iter().map(|n| n.item_id.as_str()).collect();
    assert_eq!(ids, ["UC-001", "UC-002"]);
}

#[test]
fn test_type_filtered_traversal() {
    let graph = KnowledgeGraphBuilder::new()
        .add_item(create_test_item("SOL-001", ItemType::Solution))
        .add_item(create_test_item_with_relationships("UC-001", ItemType::UseCase, refines("SOL-001")))
        .build()
        .ok()
        .unwrap();
    let result = traverse_upstream(
        &graph,
        &ItemId::new_unchecked("UC-001"),
        &TraversalOptions::new().with_types(vec![ItemType::Solution]),
    )
    .unwrap();
    assert_eq!(result.items.len(), 1);
    assert_eq!(result.items[0].item_id, ItemId::new_unchecked("SOL-001"));
}

#[test]
fn traversal_from_unknown_item_is_none() {
    let graph = chain_graph();
    assert!(traverse_upstream(&graph, &ItemId::new_unchecked("NOPE"), &TraversalOptions::new()).is_none());
}

#[test]
fn depth_zero_reports_only_the_origin() {
    let graph = chain_graph();
    let result = traverse_upstream(
        &graph,
        &ItemId::new_unchecked("SCEN-001"),
        &TraversalOptions::new().with_max_depth(0),
    )
    .unwrap();
    assert_eq!(result.items.len(), 1);
    assert_eq!(result.max_depth, 0);
}

// ----- diff -----

#[test]
fn test_no_changes() {
    let item = item_named("SOL-001", ItemType::Solution, "Solution", Vec::new());
    let old_graph = GraphBuilder::new().add_item(item.clone()).build().ok().unwrap();
    let new_graph = GraphBuilder::new().add_item(item).build().ok().unwrap();
    assert!(GraphDiff::compute(&old_graph, &new_graph).is_empty());
}

#[test]
fn diff_the_other_way_round_swaps_added_and_removed() {
    let a = GraphBuilder::new()
        .add_item(create_test_item("SOL-001", ItemType::Solution))
        .add_item(item_named("UC-001", ItemType::UseCase, "Old", refines("SOL-001")))
        .build()
        .ok()
        .unwrap();
    let b = GraphBuilder::new()
        .add_item(create_test_item("SOL-001", ItemType::Solution))
        .add_item(create_test_item("SOL-002", ItemType::Solution))
        .add_item(item_named("UC-002", ItemType::UseCase, "New", refines("SOL-002")))
        .build()
        .ok()
        .unwrap();
    let forward = GraphDiff::compute(&a, &b);
    let backward = GraphDiff::compute(&b, &a);
    let ids = |v: &Vec<sara_core::graph::ItemDiff>| v.iter().map(|d| d.id.clone()).collect::<Vec<_>>();
    assert_eq!(ids(&forward.added_items), vec!["SOL-002".to_string(), "UC-002".to_string()]);
    assert_eq!(ids(&forward.added_items), ids(&backward.removed_items));
    assert_eq!(ids(&forward.removed_items), ids(&backward.added_items));
    let rels = |v: &Vec<sara_core::graph::RelationshipDiff>| {
        v.iter().map(|r| (r.from_id.clone(), r.to_id.clone(), r.relationship_type.clone())).collect::<Vec<_>>()
    };
    assert!(!forward.added_relationships.is_empty());
    assert_eq!(rels(&forward.added_relationships), rels(&backward.removed_relationships));
    assert_eq!(rels(&forward.removed_relationships), rels(&backward.added_relationships));
    assert_eq!(forward.stats.items_added, backward.stats.items_removed);
    assert_eq!(forward.stats.relationships_removed, backward.stats.relationships_added);
}

#[test]
fn test_added_item() {
    let old_graph = GraphBuilder::new().build().ok().unwrap();
    let new_graph = GraphBuilder::new()
        .add_item(item_named("SOL-001", ItemType::Solution, "Solution", Vec::new()))
        .build()
        .ok()
        .unwrap();
    let diff = GraphDiff::compute(&old_graph, &new_graph);
    assert_eq!(diff.stats.items_added, 1);
    assert_eq!(diff.added_items[0].id, "SOL-001");
}

#[test]
fn test_removed_item() {
    let old_graph = GraphBuilder::new()
        .add_item(item_named("SOL-001", ItemType::Solution, "Solution", Vec::new()))
        .build()
        .ok()
        .unwrap();
    let new_graph = GraphBuilder::new().build().ok().unwrap();
    let diff = GraphDiff::compute(&old_graph, &new_graph);
    assert_eq!(diff.stats.items_removed, 1);
    assert_eq!(diff.removed_items[0].id, "SOL-001");
}

#[test]
fn test_modified_item() {
    let old_graph = GraphBuilder::new()
        .add_item(item_named("SOL-001", ItemType::Solution, "Old Name", Vec::new()))
        .build()
        .ok()
        .unwrap();
    let new_graph = GraphBuilder::new()
        .add_item(item_named("SOL-001", ItemType::Solution, "New Name", Vec::new()))
        .build()
        .ok()
        .unwrap();
    let diff = GraphDiff::compute(&old_graph, &new_graph);
    assert_eq!(diff.stats.items_modified, 1);
    assert_eq!(diff.modified_items[0].id, "SOL-001");
    let change = diff.modified_items[0].changes.iter().find(|c| c.field == "name").unwrap();
    assert_eq!(change.old_value, "Old Name");
    assert_eq!(change.new_value, "New Name");
}

#[test]
fn diff_reports_added_relationships() {
    let old_graph = GraphBuilder::new()
        .add_item(create_test_item("SOL-001", ItemType::Solution))
        .add_item(create_test_item("UC-001", ItemType::UseCase))
        .build()
        .ok()
        .unwrap();
    let new_graph = GraphBuilder::new()
        .add_item(create_test_item("SOL-001", ItemType::Solution))
        .add_item(create_test_item_with_relationships("UC-001", ItemType::UseCase, refines("SOL-001")))
        .build()
        .ok()
        .unwrap();
    let diff = GraphDiff::compute(&old_graph, &new_graph);
    assert!(!diff.is_empty());
    assert_eq!(diff.stats.relationships_removed, 0);
    assert!(diff.stats.relationships_added >= 1);
    assert!(diff
        .added_relationships
        .iter()
        .any(|r| r.from_id == "UC-001" && r.to_id == "SOL-001"));
}

#[test]
fn diff_service_compares_current_items_with_themselves() {
    let service = DiffService::new();
    let opts = DiffOptions::new("HEAD", "HEAD");
    let result = service
        .diff_current(vec![create_test_item("SOL-001", ItemType::Solution)], &opts)
        .ok()
        .unwrap();
    assert!(result.is_empty());
    assert_eq!(result.ref1, "HEAD");
}

// ----- stats -----

#[test]
fn test_graph_stats() {
    let mut graph = KnowledgeGraph::new();
    graph.add_item(create_test_item("SOL-001", ItemType::Solution));
    graph.add_item(create_test_item("UC-001", ItemType::UseCase));
    graph.add_item(create_test_item("UC-002", ItemType::UseCase));

    let stats = GraphStats::from_graph(&graph);
    assert_eq!(stats.item_count, 3);
    assert_eq!(stats.relationship_count, 0);
    assert_eq!(stats.count_of(ItemType::Solution), 1);
    assert_eq!(stats.count_of(ItemType::UseCase), 2);
    assert_eq!(stats.count_of(ItemType::Scenario), 0);
}

// ----- query -----

fn solution_and_use_case() -> KnowledgeGraph {
    KnowledgeGraphBuilder::new()
        .add_item(create_test_item("SOL-001", ItemType::Solution))
        .add_item(create_test_item_with_relationships("UC-001", ItemType::UseCase, refines("SOL-001")))
        .build()
        .ok()
        .unwrap()
}

#[test]
fn traceability_test_lookup_found() {
    let graph = KnowledgeGraphBuilder::new()
        .add_item(create_test_item("SOL-001", ItemType::Solution))
        .build()
        .ok()
        .unwrap();
    let engine = QueryEngine::new(&graph);
    match engine.lookup("SOL-001") {
        LookupResult::Found(item) => assert_eq!(item.id.as_str(), "SOL-001"),
        LookupResult::NotFound { .. } => panic!("Expected to find item"),
    }
}

#[test]
fn traceability_test_lookup_not_found_with_suggestions() {
    let graph = three_item_graph();
    let engine = QueryEngine::new(&graph);
    match engine.lookup("SOL-003") {
        LookupResult::Found(_) => panic!("Should not find item"),
        LookupResult::NotFound { suggestions } => {
            assert!(!suggestions.is_empty());
            let strs: Vec<&str> = suggestions.iter().map(|id| id.as_str()).collect();
            assert!(strs.contains(&"SOL-001") || strs.contains(&"SOL-002"));
        }
    }
}

#[test]
fn test_trace_upstream() {
    let graph = solution_and_use_case();
    let engine = QueryEngine::new(&graph);
    let result = engine.trace_upstream(&ItemId::new_unchecked("UC-001"), &TraversalOptions::new());
    assert_eq!(result.unwrap().items.len(), 2);
}

#[test]
fn test_trace_downstream() {
    let graph = solution_and_use_case();
    let engine = QueryEngine::new(&graph);
    let result = engine.trace_downstream(&ItemId::new_unchecked("SOL-001"), &TraversalOptions::new());
    assert_eq!(result.unwrap().items.len(), 2);
}

#[test]
fn query_parents_and_children() {
    let graph = solution_and_use_case();
    assert_eq!(get_parents(&graph, &ItemId::new_unchecked("UC-001"))[0].id.as_str(), "SOL-001");
    assert_eq!(get_children(&graph, &ItemId::new_unchecked("SOL-001"))[0].id.as_str(), "UC-001");
    assert!(get_parents(&graph, &ItemId::new_unchecked("SOL-001")).is_empty());
}

// ----- coverage -----

#[test]
fn test_coverage_report_complete() {
    let graph = GraphBuilder::new()
        .add_item(create_test_item("SOL-001", ItemType::Solution))
        .add_item(create_test_item_with_relationships("UC-001", ItemType::UseCase, refines("SOL-001")))
        .build()
        .ok()
        .unwrap();
    let report = CoverageReport::generate(&graph);
    assert!(report.complete_items > 0);
    assert_eq!(report.total_items, 2);
    assert_eq!(report.complete_items, 2);
    assert!(report.incomplete_items.is_empty());
}

#[test]
fn test_coverage_report_incomplete() {
    let graph = GraphBuilder::new()
        .add_item(create_test_item("UC-001", ItemType::UseCase))
        .build()
        .ok()
        .unwrap();
    let report = CoverageReport::generate(&graph);
    assert!(!report.incomplete_items.is_empty());
    assert_eq!(report.incomplete_items[0].id, "UC-001");
    assert_eq!(report.by_type.len(), 1);
    assert_eq!(report.by_type[0].incomplete, 1);
}

// ----- matrix -----

#[test]
fn test_matrix_generation() {
    let graph = GraphBuilder::new()
        .add_item(create_test_item("SOL-001", ItemType::Solution))
        .add_item(create_test_item_with_relationships("UC-001", ItemType::UseCase, refines("SOL-001")))
        .build()
        .ok()
        .unwrap();
    let matrix = TraceabilityMatrix::generate(&graph);
    assert_eq!(matrix.rows.len(), 2);
    assert!(matrix.total_relationships > 0);
}

#[test]
fn test_matrix_csv() {
    let graph = GraphBuilder::new()
        .add_item(create_test_item("SOL-001", ItemType::Solution))
        .build()
        .ok()
        .unwrap();
    let csv = TraceabilityMatrix::generate(&graph).to_csv();
    assert!(csv.contains("Source ID"));
    assert!(csv.contains("SOL-001"));
}

#[test]
fn matrix_rows_follow_hierarchy_then_id() {
    let graph = KnowledgeGraphBuilder::new()
        .add_item(create_test_item_with_relationships("UC-002", ItemType::UseCase, refines("SOL-001")))
        .add_item(create_test_item_with_relationships("UC-001", ItemType::UseCase, refines("SOL-001")))
        .add_item(create_test_item("SOL-001", ItemType::Solution))
        .build()
        .ok()
        .unwrap();
    let matrix = TraceabilityMatrix::generate(&graph);
    let ids: Vec<&str> = matrix.rows.iter().map(|r| r.source_id.as_str()).collect();
    assert_eq!(ids, ["SOL-001", "UC-001", "UC-002"]);
    assert_eq!(matrix.total_relationships, 2);
    assert_eq!(matrix.rows[1].targets[0].id, "SOL-001");
    assert_eq!(matrix.rows[1].targets[0].relationship, "refines");
    assert_eq!(matrix.rows[1].targets[0].target_type, "Solution");
    assert_eq!(matrix.columns.len(), 10);
    assert_eq!(matrix.columns[0], "Solution");
}

#[test]
fn matrix_csv_lines_and_quoting() {
    let graph = KnowledgeGraphBuilder::new()
        .add_item(item_named("SOL-001", ItemType::Solution, "Pay, \"fast\"", Vec::new()))
        .add_item(create_test_item_with_relationships("UC-001", ItemType::UseCase, refines("SOL-001")))
        .build()
        .ok()
        .unwrap();
    let csv = TraceabilityMatrix::generate(&graph).to_csv();
    let expected = "Source ID,Source Name,Source Type,Target ID,Target Name,Target Type,Relationship\n\
SOL-001,\"Pay, \"\"fast\"\"\",Solution,,,, \n\
UC-001,Test UC-001,Use Case,SOL-001,\"Pay, \"\"fast\"\"\",Solution,refines\n";
    assert_eq!(csv, expected);
}

#[test]
fn matrix_text_lists_rows_and_targets() {
    let graph = KnowledgeGraphBuilder::new()
        .add_item(create_test_item("SOL-001", ItemType::Solution))
        .add_item(create_test_item_with_relationships("UC-001", ItemType::UseCase, refines("SOL-001")))
        .build()
        .ok()
        .unwrap();
    let matrix = TraceabilityMatrix::generate(&graph);
    assert_eq!(
        format_matrix_text(&matrix),
        "Traceability Matrix\nTotal Relationships: 1\n\nSOL-001 (Solution)\nUC-001 (Use Case)\n  └─ refines SOL-001 (Solution) [Test SOL-001]\n"
    );
    let html = format_matrix_html(&matrix);
    assert!(html.starts_with("<!DOCTYPE html>\n"));
    assert!(html.contains("<p><strong>Total Relationships:</strong> 1</p>"));
    assert!(html.contains(
        "<tbody>\n<tr><td>SOL-001</td><td>Test SOL-001</td><td>Solution</td><td>-</td><td>-</td><td>-</td></tr>\n<tr><td>UC-001</td><td>Test UC-001</td><td>Use Case</td><td>SOL-001</td><td>Test SOL-001</td><td>refines</td></tr>\n</tbody>"
    ));
    assert!(html.ends_with("</html>\n"));
}

// ----- query arguments -----

fn query_args(id: &str, upstream: bool, downstream: bool) -> QueryArgs {
    QueryArgs {
        item_id: id.to_string(),
        depth: Some(1),
        item_types: vec![ItemType::UseCase],
        downstream,
        upstream,
        format: QueryFormat::Tree,
    }
}

#[test]
fn traversal_options_follow_the_query() {
    let options = build_traversal_options(&query_args("UC-001", true, false));
    assert_eq!(options.max_depth, Some(1));
    assert_eq!(options.type_filter, vec![ItemType::UseCase]);
    let mut unlimited = query_args("UC-001", true, false);
    unlimited.depth = None;
    assert_eq!(build_traversal_options(&unlimited).max_depth, None);
}

#[test]
fn requested_traversals_come_upstream_first() {
    let graph = chain_graph();
    let item = graph.get(&ItemId::new_unchecked("UC-001")).unwrap();
    let options = TraversalOptions::new();
    let both = requested_traversals(&query_args("UC-001", true, true), item, &graph, &options);
    assert_eq!(both.len(), 2);
    assert_eq!(both[0].0, "Upstream Traceability for UC-001");
    assert_eq!(both[1].0, "Downstream from UC-001");
    let up = traverse_upstream(&graph, &ItemId::new_unchecked("UC-001"), &options).unwrap();
    assert_eq!(both[0].1.items.len(), up.items.len());
    let none = requested_traversals(&query_args("UC-001", false, false), item, &graph, &options);
    assert!(none.is_empty());
    let down = requested_traversals(&query_args("UC-001", false, true), item, &graph, &options);
    assert_eq!(down.len(), 1);
    assert_eq!(down[0].0, "Downstream from UC-001");
}

#[test]
fn test_diff_options_builder() {
    let opts = DiffOptions::new("HEAD~1", "HEAD").add_repository("/path/to/repo1").add_repository("/path/to/repo2");
    assert_eq!(opts.ref1, "HEAD~1");
    assert_eq!(opts.ref2, "HEAD");
    assert_eq!(opts.repositories.len(), 2);
}

#[test]
fn graph_export_lists_items_and_relationships_in_order() {
    let graph = chain_graph();
    let export = build_graph_export(&graph);
    let ids: Vec<&str> = export.items.iter().map(|i| i.id.as_str()).collect();
    assert_eq!(ids, vec!["SOL-001", "UC-001", "SCEN-001"]);
    assert_eq!(export.items[1].item_type, "Use Case");
    assert_eq!(export.items[1].file, "UC-001.md");
    assert!(export.items.iter().all(|i| i.description.is_none()));
    assert_eq!(export.relationships.len(), graph.relationship_count());
    assert_eq!(export.relationships[0].from, "UC-001");
    assert_eq!(export.relationships[0].to, "SOL-001");
    assert_eq!(export.relationships[0].relationship_type, "refines");
}

#[test]
fn graph_export_carries_the_specification() {
    let graph = KnowledgeGraphBuilder::new()
        .add_item(create_test_item("SYSREQ-001", ItemType::SystemRequirement))
        .build()
        .ok()
        .unwrap();
    let export = build_graph_export(&graph);
    assert_eq!(export.items[0].specification.as_deref(), Some("Test specification"));
    assert_eq!(export.items[0].item_type, "System Requirement");
}

#[test]
fn coverage_counts_each_item_once() {
    let graph = GraphBuilder::new()
        .add_item(create_test_item("SOL-001", ItemType::Solution))
        .add_item(create_test_item("SOL-002", ItemType::Solution))
        .add_item(create_test_item_with_relationships("UC-001", ItemType::UseCase, refines("SOL-001")))
        .add_item(create_test_item("UC-002", ItemType::UseCase))
        .build()
        .ok()
        .unwrap();
    let report = CoverageReport::generate(&graph);
    assert_eq!(report.total_items, 4);
    assert_eq!(report.complete_items, 2);
    assert_eq!(report.incomplete_items.len(), 2);
    assert_eq!(report.incomplete_items.len() + report.complete_items, report.total_items);
}

#[test]
fn diff_names_relations_as_debug_prints_them() {
    let old = GraphBuilder::new().add_item(create_test_item("SOL-001", ItemType::Solution)).build().ok().unwrap();
    let new = GraphBuilder::new()
        .add_item(create_test_item("SOL-001", ItemType::Solution))
        .add_item(create_test_item_with_relationships("UC-001", ItemType::UseCase, refines("SOL-001")))
        .build()
        .ok()
        .unwrap();
    let diff = GraphDiff::compute(&old, &new);
    assert!(diff.added_relationships.iter().any(|r| r.relationship_type == "RelationshipType(\"refines\")"));
    assert_eq!(RelationshipType::Refines.debug_name(), "RelationshipType(\"refines\")");
}

#[test]
fn traversal_respects_depth_and_type_filter() {
    let graph = chain_graph();
    let options = TraversalOptions::new().with_max_depth(1).with_types(vec![ItemType::Scenario, ItemType::UseCase]);
    let r = traverse_upstream(&graph, &ItemId::new_unchecked("SCEN-001"), &options).unwrap();
    assert!(r.items.iter().all(|n| n.depth <= 1));
    let ids: Vec<&str> = r.items.iter().map(|n| n.item_id.as_str()).collect();
    assert_eq!(ids, vec!["SCEN-001", "UC-001"]);
    assert_eq!(r.max_depth, r.items.iter().map(|n| n.depth).max().unwrap_or(0));
}

#[test]
fn cycle_walk_stays_shallower_than_item_count() {
    let graph = KnowledgeGraphBuilder::new()
        .add_item(create_test_item_with_relationships("UC-001", ItemType::UseCase, refines("UC-002")))
        .add_item(create_test_item_with_relationships("UC-002", ItemType::UseCase, refines("UC-001")))
        .build()
        .ok()
        .unwrap();
    let result = traverse_downstream(&graph, &ItemId::new_unchecked("UC-002"), &TraversalOptions::new()).unwrap();
    assert!(!result.items.is_empty());
    assert!(result.items.iter().all(|n| n.depth < 2));
    assert!(result.max_depth < 2);
    let ids: Vec<&str> = result.items.iter().map(|n| n.item_id.as_str()).collect();
    assert_eq!(ids, ["UC-002", "UC-001"]);
    assert!(result.items[0].parent.is_none());
    assert_eq!(result.items[1].parent.as_ref().map(|p| p.as_str()), Some("UC-002"));
}

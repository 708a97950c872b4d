use sara_core::model::{AdrStatus, ItemType, RelationshipType};
use sara_core::parser::{parse_document, parse_markdown_file, RawFrontmatter};

fn frontmatter(id: &str, item_type: ItemType, name: &str) -> RawFrontmatter {
    RawFrontmatter {
        id: id.to_string(),
        item_type,
        name: name.to_string(),
        description: None,
        specification: None,
        platform: None,
        depends_on: Vec::new(),
        status: None,
        deciders: Vec::new(),
        supersedes: Vec::new(),
        relations: Vec::new(),
    }
}

fn entry(key: &str, ids: &[&str]) -> (String, Vec<String>) {
    (key.to_string(), ids.iter().map(|s| s.to_string()).collect())
}

const SOLUTION_MD: &str = "---\nid: \"SOL-001\"\ntype: solution\nname: \"Test Solution\"\ndescription: \"A test solution\"\nis_refined_by:\n  - \"UC-001\"\n---\n# Test Solution\n\nThis is the body content.\n";

fn solution() -> RawFrontmatter {
    let mut fm = frontmatter("SOL-001", ItemType::Solution, "Test Solution");
    fm.description = Some("A test solution".to_string());
    fm.relations = vec![entry("is_refined_by", &["UC-001"])];
    fm
}

#[test]
fn test_parse_solution() {
    let item = parse_markdown_file(&solution(), "SOL-001.md", "/repo").ok().unwrap();
    assert_eq!(item.id.as_str(), "SOL-001");
    assert_eq!(item.item_type, ItemType::Solution);
    assert_eq!(item.name, "Test Solution");
    assert_eq!(item.description, Some("A test solution".to_string()));
    let is_refined_by = item.relationship_ids(RelationshipType::IsRefinedBy);
    assert_eq!(is_refined_by.len(), 1);
    assert_eq!(is_refined_by[0].as_str(), "UC-001");
}

#[test]
fn test_parse_requirement() {
    let mut fm = frontmatter("SYSREQ-001", ItemType::SystemRequirement, "Performance Requirement");
    fm.specification = Some("The system SHALL respond within 100ms.".to_string());
    fm.relations = vec![entry("derives_from", &["SCEN-001"]), entry("is_satisfied_by", &["SYSARCH-001"])];
    let item = parse_markdown_file(&fm, "SYSREQ-001.md", "/repo").ok().unwrap();
    assert_eq!(item.id.as_str(), "SYSREQ-001");
    assert_eq!(item.item_type, ItemType::SystemRequirement);
    assert_eq!(
        item.attributes.specification().map(String::as_str),
        Some("The system SHALL respond within 100ms.")
    );
    assert_eq!(item.relationship_ids(RelationshipType::DerivesFrom).len(), 1);
    assert_eq!(item.relationship_ids(RelationshipType::IsSatisfiedBy).len(), 1);
}

#[test]
fn test_parse_document() {
    let doc = parse_document(SOLUTION_MD, &solution(), "SOL-001.md", "/repo").ok().unwrap();
    assert_eq!(doc.item.id.as_str(), "SOL-001");
    assert!(doc.body.contains("# Test Solution"));
}

#[test]
fn test_parse_invalid_id() {
    let fm = frontmatter("invalid id with spaces", ItemType::Solution, "Test");
    assert!(parse_markdown_file(&fm, "test.md", "/repo").is_err());
}

#[test]
fn test_parse_adr() {
    let mut fm = frontmatter("ADR-001", ItemType::ArchitectureDecisionRecord, "Use Microservices Architecture");
    fm.description = Some("Decision to adopt microservices".to_string());
    fm.status = Some(AdrStatus::Proposed);
    fm.deciders = vec!["Alice Smith".to_string(), "Bob Jones".to_string()];
    fm.relations = vec![entry("justifies", &["SYSARCH-001", "SWDD-001"])];
    let item = parse_markdown_file(&fm, "ADR-001.md", "/repo").ok().unwrap();
    assert_eq!(item.id.as_str(), "ADR-001");
    assert_eq!(item.item_type, ItemType::ArchitectureDecisionRecord);
    assert_eq!(item.name, "Use Microservices Architecture");
    assert_eq!(item.description, Some("Decision to adopt microservices".to_string()));
    assert_eq!(item.attributes.status(), Some(AdrStatus::Proposed));
    assert_eq!(item.attributes.deciders().len(), 2);
    let justifies = item.relationship_ids(RelationshipType::Justifies);
    assert_eq!(justifies.len(), 2);
    assert_eq!(justifies[0].as_str(), "SYSARCH-001");
    assert_eq!(justifies[1].as_str(), "SWDD-001");
    assert!(item.attributes.supersedes().is_empty());
}

#[test]
fn test_parse_adr_missing_deciders() {
    let mut fm = frontmatter("ADR-002", ItemType::ArchitectureDecisionRecord, "Test Decision");
    fm.status = Some(AdrStatus::Proposed);
    assert!(parse_markdown_file(&fm, "test.md", "/repo").is_err());
}

#[test]
fn test_parse_adr_missing_status() {
    let mut fm = frontmatter("ADR-003", ItemType::ArchitectureDecisionRecord, "Test Decision");
    fm.deciders = vec!["Alice".to_string()];
    let err = parse_markdown_file(&fm, "test.md", "/repo").err().unwrap();
    assert_eq!(err.message(), "Invalid frontmatter in test.md: Missing required field 'status' in test.md");
}

#[test]
fn test_parse_adr_with_supersession() {
    let mut fm = frontmatter("ADR-005", ItemType::ArchitectureDecisionRecord, "Updated Architecture Decision");
    fm.status = Some(AdrStatus::Accepted);
    fm.deciders = vec!["Alice Smith".to_string()];
    fm.relations = vec![entry("justifies", &["SYSARCH-001"])];
    fm.supersedes = vec!["ADR-001".to_string(), "ADR-002".to_string()];
    let item = parse_markdown_file(&fm, "ADR-005.md", "/repo").ok().unwrap();
    let justifies = item.relationship_ids(RelationshipType::Justifies);
    assert_eq!(justifies.len(), 1);
    assert_eq!(justifies[0].as_str(), "SYSARCH-001");
    let supersedes = item.attributes.supersedes();
    assert_eq!(supersedes.len(), 2);
    assert_eq!(supersedes[0].as_str(), "ADR-001");
    assert_eq!(supersedes[1].as_str(), "ADR-002");
}

#[test]
fn invalid_id_reason_names_the_id() {
    let fm = frontmatter("", ItemType::Solution, "Test");
    let err = parse_markdown_file(&fm, "t.md", "/repo").err().unwrap();
    assert_eq!(
        err.message(),
        "Invalid frontmatter in t.md: Invalid item ID: Invalid item ID '': Item ID cannot be empty"
    );
}

#[test]
fn requirement_without_specification_is_refused() {
    let fm = frontmatter("SYSREQ-009", ItemType::SystemRequirement, "Fast");
    let err = parse_markdown_file(&fm, "r.md", "/repo").err().unwrap();
    assert_eq!(err.message(), "Invalid frontmatter in r.md: Missing required field 'specification' in r.md");
}

#[test]
fn requirement_dependencies_become_attributes() {
    let mut fm = frontmatter("SWREQ-002", ItemType::SoftwareRequirement, "Second");
    fm.specification = Some("S".to_string());
    fm.depends_on = vec!["SWREQ-001".to_string()];
    fm.relations = vec![entry("depends_on", &["SWREQ-001"]), entry("derives_from", &["SYSARCH-001"])];
    let item = parse_markdown_file(&fm, "r.md", "/repo").ok().unwrap();
    assert_eq!(item.attributes.depends_on().len(), 1);
    assert!(item.relationship_ids(RelationshipType::DependsOn).is_empty());
    assert_eq!(item.relationships.len(), 1);
    assert_eq!(item.source.line, 1);
}

#[test]
fn document_without_frontmatter_is_refused() {
    let fm = frontmatter("SOL-001", ItemType::Solution, "X");
    let err = parse_document("# No frontmatter", &fm, "x.md", "/repo").err().unwrap();
    assert_eq!(err.message(), "Missing frontmatter in x.md");
}

use schema_forge_acton::admin::views::{DashboardEntry, GraphRelation, GraphSchema, SchemaGraphView};
use schema_forge_acton::export_job::{new_job_id, ExportJobStatus, ExportJobTable, StatusValue};

fn entry(name: &str, count: usize) -> DashboardEntry {
    DashboardEntry { schema_name: name.to_string(), entity_count: count }
}

fn schema(name: &str, rels: &[(&str, &str, bool)]) -> GraphSchema {
    GraphSchema {
        name: name.to_string(),
        relations: rels
            .iter()
            .map(|(f, t, many)| GraphRelation { field_name: f.to_string(), target: t.to_string(), many: *many })
            .collect(),
    }
}

#[test]
fn graph_from_entries_no_relations() {
    let graph = SchemaGraphView::from_entries(&[entry("Contact", 5)], &[schema("Contact", &[])]);
    assert!(!graph.has_edges);
    assert!(graph.json.contains("\"edges\":[]"));
    assert_eq!(graph.json, "{\"nodes\":[{\"id\":\"Contact\",\"entity_count\":5}],\"edges\":[]}");
}

#[test]
fn graph_from_entries_with_relation() {
    let graph = SchemaGraphView::from_entries(
        &[entry("Employee", 10), entry("Company", 3)],
        &[schema("Employee", &[("company", "Company", false)]), schema("Company", &[])],
    );
    assert!(graph.has_edges);
    assert!(graph.json.contains("\"from\":\"Employee\""));
    assert!(graph.json.contains("\"to\":\"Company\""));
    assert!(graph.json.contains("\"label\":\"company\""));
    assert!(graph.json.contains("\"cardinality\":\"One\""));
    let parsed: serde_json::Value = serde_json::from_str(&graph.json).unwrap();
    assert_eq!(parsed["nodes"][1]["entity_count"], 3);
}

#[test]
fn graph_from_entries_many_cardinality() {
    let graph = SchemaGraphView::from_entries(
        &[entry("Article", 5), entry("Tag", 8)],
        &[schema("Article", &[("tags", "Tag", true)]), schema("Tag", &[])],
    );
    assert!(graph.has_edges);
    assert!(graph.json.contains("\"cardinality\":\"Many\""));
}

#[test]
fn graph_from_entries_missing_target_excluded() {
    let graph = SchemaGraphView::from_entries(
        &[entry("Employee", 10)],
        &[schema("Employee", &[("company", "Company", false)])],
    );
    assert!(!graph.has_edges, "edge to missing target should be excluded");
    assert!(graph.json.contains("\"edges\":[]"));
}

#[test]
fn graph_json_escapes_names() {
    let graph = SchemaGraphView::from_entries(&[entry("A\"b\\\n", 1)], &[]);
    let parsed: serde_json::Value = serde_json::from_str(&graph.json).unwrap();
    assert_eq!(parsed["nodes"][0]["id"], "A\"b\\\n");
}

#[test]
fn status_strings_are_stable() {
    assert_eq!(ExportJobStatus::Queued.as_str(), "queued");
    assert_eq!(ExportJobStatus::Running.as_str(), "running");
    assert_eq!(ExportJobStatus::Complete.as_str(), "complete");
    assert_eq!(ExportJobStatus::Failed.as_str(), "failed");
}

#[test]
fn job_lifecycle() {
    let mut t = ExportJobTable::new();
    t.register("exp_1".to_string(), "Subject".to_string(), Some("alice".to_string()), "csv".to_string());
    assert_eq!(t.get("exp_1").unwrap().status, ExportJobStatus::Queued);
    t.mark_running("exp_1");
    assert_eq!(t.get("exp_1").unwrap().status, ExportJobStatus::Running);
    t.complete("exp_1", "exports/exp_1.csv".to_string(), 12);
    let rec = t.get("exp_1").unwrap();
    assert_eq!(rec.status, ExportJobStatus::Complete);
    assert_eq!(rec.row_count, Some(12));
    assert_eq!(rec.object_key.as_deref(), Some("exports/exp_1.csv"));
    t.mark_running("exp_1");
    assert_eq!(t.get("exp_1").unwrap().status, ExportJobStatus::Complete);
    t.fail("missing", "x".to_string());
    assert!(t.get("missing").is_none());
}

#[test]
fn failed_status_fields_carry_error() {
    let mut t = ExportJobTable::new();
    t.register("exp_2".to_string(), "Subject".to_string(), None, "ndjson".to_string());
    t.fail("exp_2", "boom".to_string());
    let rec = t.get("exp_2").unwrap();
    assert_eq!(rec.status.as_str(), "failed");
    let fields = rec.status_fields();
    assert_eq!(fields[0], ("job_id".to_string(), StatusValue::Text("exp_2".to_string())));
    assert_eq!(fields.last().unwrap(), &("error".to_string(), StatusValue::Text("boom".to_string())));
    assert!(!fields.iter().any(|(k, _)| k == "row_count"));
}

#[test]
fn job_ids_are_unique() {
    let a = new_job_id();
    let b = new_job_id();
    assert_ne!(a, b);
    assert!(a.starts_with("exp_"));
}

#[test]
fn job_ids_carry_a_simple_v4_uuid() {
    let id = new_job_id();
    let u = &id[4..];
    assert_eq!(u.len(), 32);
    assert!(u.chars().all(|c| c.is_ascii_hexdigit() && !c.is_ascii_uppercase()));
    assert_eq!(&u[12..13], "4");
    assert!(matches!(&u[16..17], "8" | "9" | "a" | "b"));
}

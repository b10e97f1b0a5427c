use schema_forge_acton::admin::refs::{ref_label, ref_targets};
use schema_forge_acton::definition::{FieldDefinition, FieldType, IntegerConstraints, SchemaDefinition, TextConstraints};
use schema_forge_acton::form::FieldValue;

fn field(name: &str, ft: FieldType) -> FieldDefinition {
    FieldDefinition::new(name.to_string(), ft)
}

fn schema(name: &str, fields: Vec<FieldDefinition>, display_field: Option<&str>) -> SchemaDefinition {
    SchemaDefinition {
        id: "sch-test".to_string(),
        name: name.to_string(),
        fields,
        access: None,
        version: None,
        display_field: display_field.map(|s| s.to_string()),
        system: false,
    }
}

fn text() -> FieldType {
    FieldType::Text(TextConstraints { max_length: None })
}

fn pairs(p: &[(&str, &str)]) -> Vec<(String, String)> {
    p.iter().map(|(k, v)| (k.to_string(), v.to_string())).collect()
}

#[test]
fn ref_targets_collect_relation_references_in_field_then_entity_order() {
    let s = schema(
        "Contact",
        vec![
            field("name", text()),
            field("company", FieldType::Relation { target: "Company".to_string(), many: false }),
            field("tags", FieldType::Relation { target: "Tag".to_string(), many: true }),
        ],
        None,
    );
    let e1 = vec![
        ("name".to_string(), FieldValue::Text("Ann".to_string())),
        ("company".to_string(), FieldValue::Ref("c1".to_string())),
        ("tags".to_string(), FieldValue::RefArray(vec!["t1".to_string(), "t2".to_string()])),
    ];
    let e2 = vec![("company".to_string(), FieldValue::Ref("c2".to_string()))];
    let e3 = vec![("company".to_string(), FieldValue::Text("not a ref".to_string()))];
    let r = ref_targets(&s, &[e1, e2, e3]);
    assert_eq!(
        r,
        pairs(&[("Company", "c1"), ("Company", "c2"), ("Tag", "t1"), ("Tag", "t2")])
    );
}

#[test]
fn ref_targets_empty_without_relations() {
    let s = schema("Plain", vec![field("n", FieldType::Integer(IntegerConstraints::unconstrained()))], None);
    let e = vec![("n".to_string(), FieldValue::Integer(3))];
    assert!(ref_targets(&s, &[e]).is_empty());
}

#[test]
fn ref_label_prefers_display_field() {
    let target = schema("Company", vec![field("code", text()), field("title", text())], Some("title"));
    let values = pairs(&[("code", "ACME"), ("title", "Acme Corp")]);
    assert_eq!(ref_label(&target, &values, "c1"), "Acme Corp");
    // The display field without a value: the id.
    assert_eq!(ref_label(&target, &pairs(&[("code", "ACME")]), "c1"), "c1");
}

#[test]
fn ref_label_falls_back_to_first_text_field_with_a_value() {
    let target = schema(
        "Company",
        vec![
            field("size", FieldType::Integer(IntegerConstraints::unconstrained())),
            field("code", text()),
            field("title", text()),
        ],
        None,
    );
    assert_eq!(ref_label(&target, &pairs(&[("size", "12"), ("title", "Acme")]), "c1"), "Acme");
    assert_eq!(ref_label(&target, &pairs(&[("code", "AC"), ("title", "Acme")]), "c1"), "AC");
    assert_eq!(ref_label(&target, &pairs(&[("size", "12")]), "c9"), "c9");
}

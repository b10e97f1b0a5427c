use schema_forge_acton::definition::{
    FieldDefinition, FieldType, FloatConstraints, IntegerConstraints, SchemaDefinition, TextConstraints,
};
use schema_forge_acton::form::{form_to_entity_fields, FieldValue, ValueVerdicts};

fn field(name: &str, ft: FieldType) -> FieldDefinition {
    FieldDefinition::new(name.to_string(), ft)
}

fn required_field(name: &str, ft: FieldType) -> FieldDefinition {
    let mut f = field(name, ft);
    f.required = true;
    f
}

fn text() -> FieldType {
    FieldType::Text(TextConstraints { max_length: None })
}

fn schema(fields: Vec<FieldDefinition>) -> SchemaDefinition {
    SchemaDefinition {
        id: "sch-test".to_string(),
        name: "TestSchema".to_string(),
        fields,
        access: None,
        version: None,
        display_field: None,
        system: false,
    }
}

fn pairs(p: &[(&str, &str)]) -> Vec<(String, String)> {
    p.iter().map(|(k, v)| (k.to_string(), v.to_string())).collect()
}

fn no_verdicts() -> ValueVerdicts {
    ValueVerdicts { bad_numbers: vec![], bad_ids: vec![] }
}

fn get<'a>(fields: &'a [(String, FieldValue)], name: &str) -> Option<&'a FieldValue> {
    fields.iter().find(|(k, _)| k == name).map(|(_, v)| v)
}

fn text_of(v: Option<&FieldValue>) -> Option<String> {
    match v {
        Some(FieldValue::Text(s)) => Some(s.clone()),
        _ => None,
    }
}

#[test]
fn form_basic_text_field() {
    let s = schema(vec![field("name", text())]);
    let form = pairs(&[("name", "Alice")]);
    let result = form_to_entity_fields(&s, &form, &no_verdicts()).unwrap();
    assert_eq!(text_of(get(&result, "name")), Some("Alice".to_string()));
}

#[test]
fn form_integer_field() {
    let s = schema(vec![field("age", FieldType::Integer(IntegerConstraints::unconstrained()))]);
    let form = pairs(&[("age", "30")]);
    let result = form_to_entity_fields(&s, &form, &no_verdicts()).unwrap();
    assert!(matches!(get(&result, "age"), Some(FieldValue::Integer(30))));
}

#[test]
fn form_integer_field_invalid() {
    let s = schema(vec![field("age", FieldType::Integer(IntegerConstraints::unconstrained()))]);
    let form = pairs(&[("age", "not-a-number")]);
    let result = form_to_entity_fields(&s, &form, &no_verdicts());
    assert!(result.is_err());
    assert_eq!(result.unwrap_err(), vec!["field 'age': expected integer, got 'not-a-number'".to_string()]);
}

#[test]
fn float_field() {
    let s = schema(vec![field("price", FieldType::Float(FloatConstraints { precision: Some(2) }))]);
    let form = pairs(&[("price", "9.99")]);
    let result = form_to_entity_fields(&s, &form, &no_verdicts()).unwrap();
    match get(&result, "price") {
        Some(FieldValue::Float(t)) => {
            assert_eq!(t, "9.99");
            assert_eq!(t.parse::<f64>().unwrap(), 9.99);
        }
        other => panic!("expected Float, got {other:?}"),
    }
}

#[test]
fn float_field_refused_number_text() {
    let s = schema(vec![field("price", FieldType::Float(FloatConstraints { precision: None }))]);
    let form = pairs(&[("price", "cheap")]);
    let verdicts = ValueVerdicts { bad_numbers: vec!["cheap".to_string()], bad_ids: vec![] };
    let result = form_to_entity_fields(&s, &form, &verdicts);
    assert_eq!(result.unwrap_err(), vec!["field 'price': expected number, got 'cheap'".to_string()]);
}

#[test]
fn form_boolean_checkbox_present() {
    let s = schema(vec![field("active", FieldType::Boolean)]);
    let form = pairs(&[("active", "false"), ("active", "true")]);
    let result = form_to_entity_fields(&s, &form, &no_verdicts()).unwrap();
    assert!(matches!(get(&result, "active"), Some(FieldValue::Boolean(true))));
}

#[test]
fn form_boolean_checkbox_absent() {
    let s = schema(vec![field("active", FieldType::Boolean)]);
    let form: Vec<(String, String)> = vec![];
    let result = form_to_entity_fields(&s, &form, &no_verdicts()).unwrap();
    assert!(matches!(get(&result, "active"), Some(FieldValue::Boolean(false))));
}

#[test]
fn checkbox_on_counts_as_checked() {
    let s = schema(vec![field("active", FieldType::Boolean)]);
    let form = pairs(&[("active", "on")]);
    let result = form_to_entity_fields(&s, &form, &no_verdicts()).unwrap();
    assert!(matches!(get(&result, "active"), Some(FieldValue::Boolean(true))));
}

#[test]
fn datetime_field() {
    let s = schema(vec![field("created_at", FieldType::DateTime)]);
    let form = pairs(&[("created_at", "2024-01-15T10:30")]);
    let result = form_to_entity_fields(&s, &form, &no_verdicts()).unwrap();
    assert!(matches!(get(&result, "created_at"), Some(FieldValue::DateTime { .. })));
    assert!(matches!(
        get(&result, "created_at"),
        Some(FieldValue::DateTime { seconds: 1705314600, nanos: 0 })
    ));
}

#[test]
fn datetime_field_rfc3339_and_seconds() {
    let s = schema(vec![field("a", FieldType::DateTime), field("b", FieldType::DateTime)]);
    let form = pairs(&[("a", "2024-01-15T11:30:00+01:00"), ("b", "2024-01-15T10:30:45")]);
    let result = form_to_entity_fields(&s, &form, &no_verdicts()).unwrap();
    assert_eq!(result.len(), 2);
    assert!(matches!(get(&result, "a"), Some(FieldValue::DateTime { seconds: 1705314600, nanos: 0 })));
    assert!(matches!(get(&result, "b"), Some(FieldValue::DateTime { seconds: 1705314645, nanos: 0 })));
}

#[test]
fn datetime_field_invalid() {
    let s = schema(vec![field("created_at", FieldType::DateTime)]);
    let form = pairs(&[("created_at", "yesterday")]);
    let result = form_to_entity_fields(&s, &form, &no_verdicts());
    assert_eq!(result.unwrap_err(), vec!["field 'created_at': invalid datetime format 'yesterday'".to_string()]);
}

#[test]
fn enum_field() {
    let s = schema(vec![field("status", FieldType::Enum(vec!["Active".to_string(), "Inactive".to_string()]))]);
    let form = pairs(&[("status", "Active")]);
    let result = form_to_entity_fields(&s, &form, &no_verdicts()).unwrap();
    match get(&result, "status") {
        Some(FieldValue::Enum(v)) => assert_eq!(v, "Active"),
        other => panic!("expected Enum, got {other:?}"),
    }
}

#[test]
fn json_field() {
    let s = schema(vec![field("metadata", FieldType::Json)]);
    let form = pairs(&[("metadata", r#"{"key": "value"}"#)]);
    let result = form_to_entity_fields(&s, &form, &no_verdicts()).unwrap();
    assert!(matches!(get(&result, "metadata"), Some(FieldValue::Json(_))));
}

#[test]
fn json_field_invalid() {
    let s = schema(vec![field("metadata", FieldType::Json)]);
    let form = pairs(&[("metadata", "not json")]);
    let result = form_to_entity_fields(&s, &form, &no_verdicts());
    assert!(result.is_err());
    let errs = result.unwrap_err();
    assert_eq!(errs.len(), 1);
    assert!(errs[0].starts_with("field 'metadata': invalid JSON: "));
}

#[test]
fn form_required_field_missing() {
    let s = schema(vec![required_field("name", text())]);
    let form: Vec<(String, String)> = vec![];
    let result = form_to_entity_fields(&s, &form, &no_verdicts());
    assert!(result.is_err());
    let errors = result.unwrap_err();
    assert!(errors.iter().any(|e| e.contains("required") && e.contains("name")));
    assert_eq!(errors, vec!["required field 'name' is missing".to_string()]);
}

#[test]
fn form_empty_value_skipped_for_optional() {
    let s = schema(vec![field("notes", text())]);
    let form = pairs(&[("notes", "")]);
    let result = form_to_entity_fields(&s, &form, &no_verdicts()).unwrap();
    assert!(get(&result, "notes").is_none());
}

#[test]
fn form_composite_dot_notation() {
    let subs = vec![field("street", text()), field("city", text())];
    let s = schema(vec![field("address", FieldType::Composite(subs))]);
    let form = pairs(&[("address.street", "123 Main St"), ("address.city", "Springfield")]);
    let result = form_to_entity_fields(&s, &form, &no_verdicts()).unwrap();
    let address = get(&result, "address").unwrap();
    if let FieldValue::Composite(entries) = address {
        assert_eq!(text_of(get(entries, "street")), Some("123 Main St".to_string()));
        assert_eq!(text_of(get(entries, "city")), Some("Springfield".to_string()));
        // Sub-fields come in ascending key order.
        assert_eq!(entries[0].0, "city");
        assert_eq!(entries[1].0, "street");
    } else {
        panic!("expected Composite");
    }
}

#[test]
fn relation_one_field() {
    let s = schema(vec![field("company", FieldType::Relation { target: "Company".to_string(), many: false })]);
    let form = pairs(&[("company", "01J0COMPANY")]);
    let result = form_to_entity_fields(&s, &form, &no_verdicts()).unwrap();
    assert!(matches!(get(&result, "company"), Some(FieldValue::Ref(_))));
}

#[test]
fn relation_one_field_refused_id() {
    let s = schema(vec![field("company", FieldType::Relation { target: "Company".to_string(), many: false })]);
    let form = pairs(&[("company", "bad id")]);
    let verdicts = ValueVerdicts { bad_ids: vec![("bad id".to_string(), "not an id".to_string())], bad_numbers: vec![] };
    let result = form_to_entity_fields(&s, &form, &verdicts);
    assert_eq!(result.unwrap_err(), vec!["field 'company': invalid entity reference: not an id".to_string()]);
}

#[test]
fn relation_many_field() {
    let s = schema(vec![field("tags", FieldType::Relation { target: "Tag".to_string(), many: true })]);
    let form = pairs(&[("tags", "01J0TAGONE"), ("tags", "01J0TAGTWO")]);
    let result = form_to_entity_fields(&s, &form, &no_verdicts()).unwrap();
    if let Some(FieldValue::RefArray(ids)) = get(&result, "tags") {
        assert_eq!(ids.len(), 2);
    } else {
        panic!("expected RefArray");
    }
}

#[test]
fn relation_many_keeps_good_ids_and_reports_bad_ones() {
    let s = schema(vec![field("tags", FieldType::Relation { target: "Tag".to_string(), many: true })]);
    let form = pairs(&[("tags", "good"), ("tags", ""), ("tags", "bad")]);
    let verdicts = ValueVerdicts { bad_ids: vec![("bad".to_string(), "nope".to_string())], bad_numbers: vec![] };
    let result = form_to_entity_fields(&s, &form, &verdicts);
    assert_eq!(result.unwrap_err(), vec!["field 'tags': invalid entity reference 'bad': nope".to_string()]);
}

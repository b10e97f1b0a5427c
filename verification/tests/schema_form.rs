use schema_forge_acton::admin::form::{form_to_schema_definition, parse_schema_form, schema_from_form, RuleVerdicts};
use schema_forge_acton::definition::{FieldType, FloatConstraints, IntegerConstraints, SchemaDefinition, TextConstraints};

fn pairs(items: &[(&str, &str)]) -> Vec<(String, String)> {
    items.iter().map(|(k, v)| (k.to_string(), v.to_string())).collect()
}

/// Verdicts that accept everything.
fn accept_all() -> RuleVerdicts {
    RuleVerdicts {
        schema_names: vec![],
        field_names: vec![],
        enum_variants: vec![],
        integer_ranges: vec![],
        versions: vec![],
    }
}

fn ok(form: &[(&str, &str)]) -> SchemaDefinition {
    form_to_schema_definition(&pairs(form), None, &accept_all()).unwrap()
}

#[test]
fn schema_form_basic_text_field() {
    let result = ok(&[("schema_name", "Contact"), ("field_0_name", "name"), ("field_0_type", "text")]);
    assert_eq!(result.name.as_str(), "Contact");
    assert_eq!(result.fields.len(), 1);
    assert_eq!(result.fields[0].name.as_str(), "name");
    assert!(matches!(result.fields[0].field_type, FieldType::Text(_)));
}

#[test]
fn schema_form_all_field_types() {
    let result = ok(&[
        ("schema_name", "Multi"),
        ("field_0_name", "title"),
        ("field_0_type", "text"),
        ("field_0_text_max_length", "200"),
        ("field_1_name", "count"),
        ("field_1_type", "integer"),
        ("field_1_integer_min", "0"),
        ("field_1_integer_max", "100"),
        ("field_2_name", "price"),
        ("field_2_type", "float"),
        ("field_2_float_precision", "2"),
        ("field_3_name", "active"),
        ("field_3_type", "boolean"),
        ("field_4_name", "created_at"),
        ("field_4_type", "datetime"),
        ("field_5_name", "metadata"),
        ("field_5_type", "json"),
    ]);
    assert_eq!(result.fields.len(), 6);
    assert!(matches!(result.fields[0].field_type, FieldType::Text(TextConstraints { max_length: Some(200) })));
    assert!(matches!(
        result.fields[1].field_type,
        FieldType::Integer(IntegerConstraints { min: Some(0), max: Some(100) })
    ));
    assert!(matches!(result.fields[2].field_type, FieldType::Float(FloatConstraints { precision: Some(2) })));
    assert!(matches!(result.fields[3].field_type, FieldType::Boolean));
    assert!(matches!(result.fields[4].field_type, FieldType::DateTime));
    assert!(matches!(result.fields[5].field_type, FieldType::Json));
}

#[test]
fn schema_form_text_constraints() {
    let result = ok(&[
        ("schema_name", "Test"),
        ("field_0_name", "bio"),
        ("field_0_type", "text"),
        ("field_0_text_max_length", "500"),
    ]);
    if let FieldType::Text(c) = &result.fields[0].field_type {
        assert_eq!(c.max_length, Some(500));
    } else {
        panic!("expected Text");
    }
}

#[test]
fn schema_form_integer_constraints() {
    let result = ok(&[
        ("schema_name", "Test"),
        ("field_0_name", "age"),
        ("field_0_type", "integer"),
        ("field_0_integer_min", "0"),
        ("field_0_integer_max", "150"),
    ]);
    if let FieldType::Integer(c) = &result.fields[0].field_type {
        assert_eq!(c.min, Some(0));
        assert_eq!(c.max, Some(150));
    } else {
        panic!("expected Integer");
    }
}

#[test]
fn schema_form_float_constraints() {
    let result = ok(&[
        ("schema_name", "Test"),
        ("field_0_name", "price"),
        ("field_0_type", "float"),
        ("field_0_float_precision", "2"),
    ]);
    if let FieldType::Float(c) = &result.fields[0].field_type {
        assert_eq!(c.precision, Some(2));
    } else {
        panic!("expected Float");
    }
}

#[test]
fn schema_form_modifiers() {
    let result = ok(&[
        ("schema_name", "Test"),
        ("field_0_name", "email"),
        ("field_0_type", "text"),
        ("field_0_required", "true"),
        ("field_0_indexed", "true"),
    ]);
    assert!(result.fields[0].required);
    assert!(result.fields[0].indexed);
}

#[test]
fn schema_form_annotations() {
    let result = ok(&[
        ("schema_name", "Contact"),
        ("version", "2"),
        ("display_field", "name"),
        ("field_0_name", "name"),
        ("field_0_type", "text"),
    ]);
    assert_eq!(result.version, Some(2));
    assert_eq!(result.display_field.as_deref(), Some("name"));
}

#[test]
fn schema_form_invalid_schema_name() {
    let form = pairs(&[("schema_name", "not-valid"), ("field_0_name", "name"), ("field_0_type", "text")]);
    let mut verdicts = accept_all();
    verdicts.schema_names.push(("not-valid".to_string(), "must be PascalCase".to_string()));
    let result = form_to_schema_definition(&form, None, &verdicts);
    assert!(result.is_err());
    let errors = result.unwrap_err();
    assert!(errors.iter().any(|e| e.contains("schema name")));
    assert_eq!(errors, vec!["Invalid schema name 'not-valid': must be PascalCase".to_string()]);
}

#[test]
fn schema_form_invalid_field_name() {
    let form = pairs(&[("schema_name", "Test"), ("field_0_name", "NotSnakeCase"), ("field_0_type", "text")]);
    let mut verdicts = accept_all();
    verdicts.field_names.push(("NotSnakeCase".to_string(), "must be snake_case".to_string()));
    let result = form_to_schema_definition(&form, None, &verdicts);
    assert!(result.is_err());
    assert_eq!(result.unwrap_err(), vec!["Invalid field name 'NotSnakeCase': must be snake_case".to_string()]);
}

#[test]
fn schema_form_empty_fields() {
    let result = form_to_schema_definition(&pairs(&[("schema_name", "Test")]), None, &accept_all());
    assert!(result.is_err());
    let errors = result.unwrap_err();
    assert!(errors.iter().any(|e| e.contains("field is required")));
}

#[test]
fn schema_form_duplicate_names() {
    let form = pairs(&[
        ("schema_name", "Test"),
        ("field_0_name", "name"),
        ("field_0_type", "text"),
        ("field_1_name", "name"),
        ("field_1_type", "text"),
    ]);
    let result = form_to_schema_definition(&form, None, &accept_all());
    assert!(result.is_err());
    let errors = result.unwrap_err();
    assert!(errors.iter().any(|e| e.contains("Duplicate")));
    assert_eq!(errors, vec!["Duplicate field name 'name'".to_string()]);
}

#[test]
fn schema_form_enum_field() {
    let result = ok(&[
        ("schema_name", "Test"),
        ("field_0_name", "status"),
        ("field_0_type", "enum"),
        ("field_0_enum_variants", "Active\nInactive\nPending"),
    ]);
    if let FieldType::Enum(v) = &result.fields[0].field_type {
        assert_eq!(v.as_slice(), &["Active", "Inactive", "Pending"]);
    } else {
        panic!("expected Enum");
    }
}

#[test]
fn schema_form_relation_field() {
    let result = ok(&[
        ("schema_name", "Test"),
        ("field_0_name", "company"),
        ("field_0_type", "relation"),
        ("field_0_relation_target", "Company"),
        ("field_0_relation_cardinality", "one"),
    ]);
    if let FieldType::Relation { target, many } = &result.fields[0].field_type {
        assert_eq!(target.as_str(), "Company");
        assert!(!many);
    } else {
        panic!("expected Relation");
    }
}

#[test]
fn schema_form_relation_invalid_target() {
    let form = pairs(&[
        ("schema_name", "Test"),
        ("field_0_name", "company"),
        ("field_0_type", "relation"),
        ("field_0_relation_target", "not_valid"),
        ("field_0_relation_cardinality", "one"),
    ]);
    let mut verdicts = accept_all();
    verdicts.schema_names.push(("not_valid".to_string(), "must be PascalCase".to_string()));
    let result = form_to_schema_definition(&form, None, &verdicts);
    assert!(result.is_err());
    assert_eq!(
        result.unwrap_err(),
        vec!["Field 'company': invalid relation target 'not_valid': must be PascalCase".to_string()]
    );
}

#[test]
fn schema_form_integer_min_greater_than_max() {
    let form = pairs(&[
        ("schema_name", "Test"),
        ("field_0_name", "value"),
        ("field_0_type", "integer"),
        ("field_0_integer_min", "100"),
        ("field_0_integer_max", "10"),
    ]);
    let mut verdicts = accept_all();
    verdicts.integer_ranges.push((100, 10, "min must not exceed max".to_string()));
    let result = form_to_schema_definition(&form, None, &verdicts);
    assert!(result.is_err());
    assert_eq!(result.unwrap_err(), vec!["Field 'value': min must not exceed max".to_string()]);
}

#[test]
fn schema_form_non_contiguous_indices() {
    let result = ok(&[
        ("schema_name", "Test"),
        ("field_0_name", "first"),
        ("field_0_type", "text"),
        ("field_5_name", "second"),
        ("field_5_type", "integer"),
        ("field_10_name", "third"),
        ("field_10_type", "boolean"),
    ]);
    assert_eq!(result.fields.len(), 3);
    assert_eq!(result.fields[0].name.as_str(), "first");
    assert_eq!(result.fields[1].name.as_str(), "second");
    assert_eq!(result.fields[2].name.as_str(), "third");
}

#[test]
fn schema_form_reports_every_error_in_order() {
    let form = pairs(&[
        ("schema_name", "bad"),
        ("version", "two"),
        ("display_field", "Label"),
        ("field_3_name", ""),
        ("field_3_type", "text"),
        ("field_1_name", "title"),
        ("field_1_type", "text"),
        ("field_2_name", "title"),
        ("field_2_type", "text"),
        ("field_4_name", "body"),
        ("field_4_type", "markdown"),
        ("field_5_name", "level"),
        ("field_5_type", "enum"),
        ("field_5_enum_variants", " Low \n\n  High\n"),
    ]);
    let mut verdicts = accept_all();
    verdicts.schema_names.push(("bad".to_string(), "must be PascalCase".to_string()));
    verdicts.field_names.push(("Label".to_string(), "must be snake_case".to_string()));
    verdicts.enum_variants.push((vec!["Low".to_string(), "High".to_string()], "too few variants".to_string()));
    let errors = form_to_schema_definition(&form, None, &verdicts).unwrap_err();
    assert_eq!(
        errors,
        vec![
            "Invalid schema name 'bad': must be PascalCase".to_string(),
            "Duplicate field name 'title'".to_string(),
            "Field 3 has an empty name".to_string(),
            "Field 'body': unknown type 'markdown'".to_string(),
            "Field 'level': too few variants".to_string(),
            "Version 'two' is not a valid number".to_string(),
            "Invalid display field 'Label': must be snake_case".to_string(),
        ]
    );
}

#[test]
fn schema_form_refused_version_and_many_relation() {
    let form = pairs(&[
        ("schema_name", "Task"),
        ("version", "0"),
        ("field_0_name", "owner"),
        ("field_0_type", "relation"),
        ("field_0_relation_target", "User"),
        ("field_0_relation_cardinality", "many"),
    ]);
    let mut verdicts = accept_all();
    verdicts.versions.push((0, "version must be at least 1".to_string()));
    assert_eq!(
        form_to_schema_definition(&form, None, &verdicts).unwrap_err(),
        vec!["Invalid version '0': version must be at least 1".to_string()]
    );
    let without_version: Vec<(String, String)> = form.iter().filter(|p| p.0 != "version").cloned().collect();
    let accepted = form_to_schema_definition(&without_version, None, &verdicts).unwrap();
    assert!(matches!(&accepted.fields[0].field_type, FieldType::Relation { target, many: true } if target == "User"));
    assert_eq!(accepted.version, None);
}

#[test]
fn parse_schema_form_takes_last_value_and_trims_variants() {
    let form = pairs(&[
        ("schema_name", "First"),
        ("schema_name", "Second"),
        ("field_7_name", "kind"),
        ("field_7_type", "enum"),
        ("field_7_enum_variants", "  A\r\n B \n\n"),
        ("field_+2_name", "ignored_key_form"),
    ]);
    let parsed = parse_schema_form(&form);
    assert_eq!(parsed.schema_name, "Second");
    assert_eq!(parsed.fields.len(), 2);
    assert_eq!(parsed.fields[0].index, 2);
    assert_eq!(parsed.fields[0].name, "");
    assert_eq!(parsed.fields[1].index, 7);
    assert_eq!(parsed.fields[1].enum_variants, vec!["A".to_string(), "B".to_string()]);
    let errors = schema_from_form(&parsed, "sch-1".to_string(), &accept_all()).unwrap_err();
    assert_eq!(errors, vec!["Field 2 has an empty name".to_string()]);
}

#[test]
fn schema_form_preserves_existing_id() {
    let existing_id = "sch-0042".to_string();
    let form = pairs(&[("schema_name", "Test"), ("field_0_name", "name"), ("field_0_type", "text")]);
    let result = form_to_schema_definition(&form, Some(existing_id.clone()), &accept_all()).unwrap();
    assert_eq!(result.id, existing_id);
}

#[test]
fn schema_form_gives_a_new_schema_a_fresh_id() {
    let form = pairs(&[("schema_name", "Test"), ("field_0_name", "name"), ("field_0_type", "text")]);
    let a = form_to_schema_definition(&form, None, &accept_all()).unwrap();
    let b = form_to_schema_definition(&form, None, &accept_all()).unwrap();
    assert_eq!(a.id.len(), 32);
    assert_ne!(a.id, b.id);
}

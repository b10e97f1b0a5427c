use schema_forge_acton::graphql::input_types::parse_filter_field_op;
use schema_forge_acton::graphql::schema_builder::{check_field_collisions, lcfirst, pluralize};

#[test]
fn parse_filter_field_op_eq() {
    assert_eq!(parse_filter_field_op("name_eq"), Some(("name", "eq")));
}

#[test]
fn parse_filter_field_op_gt() {
    assert_eq!(parse_filter_field_op("age_gt"), Some(("age", "gt")));
}

#[test]
fn parse_filter_field_op_contains() {
    assert_eq!(
        parse_filter_field_op("name_contains"),
        Some(("name", "contains"))
    );
}

#[test]
fn parse_filter_field_op_unknown() {
    assert_eq!(parse_filter_field_op("name_foobar"), None);
}

#[test]
fn parse_filter_field_op_edge_cases() {
    assert_eq!(parse_filter_field_op("age_gte"), Some(("age", "gte")));
    assert_eq!(parse_filter_field_op("created_at_lte"), Some(("created_at", "lte")));
    assert_eq!(parse_filter_field_op("title_starts_with"), Some(("title", "starts_with")));
    assert_eq!(parse_filter_field_op("_eq"), None);
    assert_eq!(parse_filter_field_op("eq"), None);
    assert_eq!(parse_filter_field_op("tags_in"), Some(("tags", "in")));
}

#[test]
fn lcfirst_basic() {
    assert_eq!(lcfirst("Contact"), "contact");
    assert_eq!(lcfirst("MySchema"), "mySchema");
    assert_eq!(lcfirst("a"), "a");
    assert_eq!(lcfirst(""), "");
}

#[test]
fn lcfirst_unicode_first_letter() {
    assert_eq!(lcfirst("Émile"), "émile");
}

#[test]
fn pluralize_regular() {
    assert_eq!(pluralize("contact"), "contacts");
    assert_eq!(pluralize("user"), "users");
}

#[test]
fn pluralize_s_ending() {
    assert_eq!(pluralize("status"), "statuses");
    assert_eq!(pluralize("address"), "addresses");
}

#[test]
fn pluralize_x_ending() {
    assert_eq!(pluralize("box"), "boxes");
}

#[test]
fn pluralize_sh_ending() {
    assert_eq!(pluralize("dish"), "dishes");
}

#[test]
fn pluralize_ch_ending() {
    assert_eq!(pluralize("match"), "matches");
}

#[test]
fn pluralize_consonant_y() {
    assert_eq!(pluralize("company"), "companies");
    assert_eq!(pluralize("category"), "categories");
}

#[test]
fn pluralize_vowel_y() {
    assert_eq!(pluralize("day"), "days");
    assert_eq!(pluralize("key"), "keys");
}

#[test]
fn pluralize_short_and_z() {
    assert_eq!(pluralize("y"), "ys");
    assert_eq!(pluralize("quiz"), "quizes");
}

#[test]
fn field_name_collision_detected() {
    let names = vec![
        ("contact".to_string(), "Contact".to_string()),
        ("contact".to_string(), "ContactDup".to_string()),
    ];
    let result = check_field_collisions(&names);
    assert!(result.is_err());
    assert!(result.unwrap_err().contains("collision"));
}

#[test]
fn collision_message_names_both_schemas() {
    let names = vec![
        ("a".to_string(), "A".to_string()),
        ("b".to_string(), "B1".to_string()),
        ("b".to_string(), "B2".to_string()),
        ("a".to_string(), "A2".to_string()),
    ];
    assert_eq!(
        check_field_collisions(&names).unwrap_err(),
        "GraphQL field name collision: 'b' is generated by both 'B1' and 'B2'"
    );
}

#[test]
fn no_collision_with_different_names() {
    let names = vec![
        ("contact".to_string(), "Contact".to_string()),
        ("company".to_string(), "Company".to_string()),
    ];
    assert!(check_field_collisions(&names).is_ok());
}

use schema_forge_acton::error::ForgeError;
use schema_forge_acton::definition::{FieldType, FloatConstraints, IntegerConstraints, TextConstraints};
use schema_forge_acton::graphql::resolvers::forge_error_to_gql;
use schema_forge_acton::graphql::type_mapping::{
    field_type_to_type_ref, fits_i32, DATETIME_SCALAR, INT64_SCALAR, JSON_SCALAR,
};

fn range(min: i64, max: i64) -> IntegerConstraints {
    IntegerConstraints { min: Some(min), max: Some(max) }
}

#[test]
fn fits_i32_constrained() {
    assert!(fits_i32(&range(0, 100)));
}

#[test]
fn fits_i32_unconstrained() {
    assert!(!fits_i32(&IntegerConstraints::unconstrained()));
}

#[test]
fn fits_i32_exceeds_max() {
    assert!(!fits_i32(&range(0, i64::from(i32::MAX) + 1)));
}

#[test]
fn fits_i32_exceeds_min() {
    assert!(!fits_i32(&range(i64::from(i32::MIN) - 1, 0)));
}

#[test]
fn text_maps_to_string() {
    assert_eq!(field_type_to_type_ref("Test", "name", &FieldType::Text(TextConstraints { max_length: None }), false), "String");
}

#[test]
fn integer_constrained_maps_to_int() {
    assert_eq!(field_type_to_type_ref("Test", "count", &FieldType::Integer(range(0, 100)), false), "Int");
}

#[test]
fn integer_unconstrained_maps_to_int64() {
    let tr = field_type_to_type_ref("Test", "big_id", &FieldType::Integer(IntegerConstraints::unconstrained()), false);
    assert_eq!(tr, INT64_SCALAR);
}

#[test]
fn float_maps_to_float() {
    assert_eq!(field_type_to_type_ref("Test", "score", &FieldType::Float(FloatConstraints { precision: None }), false), "Float");
}

#[test]
fn boolean_maps_to_boolean() {
    assert_eq!(field_type_to_type_ref("Test", "active", &FieldType::Boolean, false), "Boolean");
}

#[test]
fn datetime_maps_to_scalar() {
    assert_eq!(field_type_to_type_ref("Test", "created", &FieldType::DateTime, false), DATETIME_SCALAR);
}

#[test]
fn json_maps_to_scalar() {
    assert_eq!(field_type_to_type_ref("Test", "meta", &FieldType::Json, false), JSON_SCALAR);
}

#[test]
fn required_produces_non_null() {
    let s = field_type_to_type_ref("Test", "name", &FieldType::Text(TextConstraints { max_length: None }), true);
    assert!(s.ends_with('!'));
}

#[test]
fn relation_one_always_nullable() {
    let s = field_type_to_type_ref(
        "Contact",
        "company",
        &FieldType::Relation { target: "Company".to_string(), many: false },
        false,
    );
    assert!(!s.ends_with('!'));
    assert_eq!(s, "Company");
}

#[test]
fn compound_type_refs() {
    assert_eq!(field_type_to_type_ref("Contact", "status", &FieldType::Enum(vec!["Active".to_string()]), true), "Contact_status!");
    assert_eq!(
        field_type_to_type_ref("Contact", "tags", &FieldType::Array(Box::new(FieldType::Text(TextConstraints { max_length: None }))), true),
        "[String!]"
    );
    assert_eq!(
        field_type_to_type_ref("Contact", "tags", &FieldType::Array(Box::new(FieldType::Text(TextConstraints { max_length: None }))), false),
        "[String]"
    );
    assert_eq!(
        field_type_to_type_ref(
            "Contact",
            "notes",
            &FieldType::Relation { target: "Note".to_string(), many: true },
            true
        ),
        "[Note!]"
    );
}

#[test]
fn forge_error_to_gql_not_found() {
    let gql_err = forge_error_to_gql(ForgeError::SchemaNotFound { name: "X".into() });
    assert!(gql_err.message.contains("not found"));
    assert_eq!(gql_err.code, "NOT_FOUND");
}

#[test]
fn forge_error_to_gql_validation() {
    let gql_err = forge_error_to_gql(ForgeError::ValidationFailed { details: vec!["bad field".into()] });
    assert_eq!(gql_err.code, "VALIDATION_ERROR");
}

#[test]
fn forge_error_to_gql_bad_request() {
    let gql_err = forge_error_to_gql(ForgeError::InvalidQuery { message: "bad filter".into() });
    assert_eq!(gql_err.code, "BAD_REQUEST");
}

#[test]
fn forge_error_to_gql_internal() {
    let gql_err = forge_error_to_gql(ForgeError::Internal { message: "oops".into() });
    assert_eq!(gql_err.code, "INTERNAL_ERROR");
    assert_eq!(gql_err.message, "internal error: oops");
}

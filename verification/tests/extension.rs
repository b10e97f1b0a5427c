use schema_forge_acton::definition::{FieldDefinition, FieldType, FileConstraints, SchemaDefinition, TextConstraints};
use schema_forge_acton::error::ForgeError;
use schema_forge_acton::extension::validate_file_references;

fn file_field(name: &str, bucket: &str) -> FieldDefinition {
    FieldDefinition::new(name.to_string(), FieldType::File(FileConstraints { bucket: bucket.to_string() }))
}

fn text_field(name: &str) -> FieldDefinition {
    FieldDefinition::new(name.to_string(), FieldType::Text(TextConstraints { max_length: None }))
}

fn schema(name: &str, fields: Vec<FieldDefinition>) -> SchemaDefinition {
    SchemaDefinition { id: "sch-test".to_string(), name: name.to_string(), fields, access: None, version: None, display_field: None, system: false }
}

#[test]
fn no_file_fields_pass_without_backends() {
    let schemas = vec![schema("Contact", vec![text_field("name")])];
    assert_eq!(validate_file_references(&schemas, &[]), Ok(()));
}

#[test]
fn declared_bucket_passes() {
    let schemas = vec![schema("Contact", vec![text_field("name"), file_field("photo", "media")])];
    let declared = vec!["media".to_string(), "archive".to_string()];
    assert_eq!(validate_file_references(&schemas, &declared), Ok(()));
}

#[test]
fn undeclared_bucket_is_refused_with_its_field() {
    let schemas = vec![schema("Contact", vec![file_field("photo", "media")])];
    let err = validate_file_references(&schemas, &["archive".to_string()]).unwrap_err();
    match err {
        ForgeError::Internal { message } => assert_eq!(
            message,
            "file field(s) reference undeclared storage backends: [Contact::photo -> bucket \"media\"]. \
             Add matching [schema_forge.storage.backends.<name>] entries."
        ),
        other => panic!("unexpected error: {other:?}"),
    }
}

#[test]
fn every_undeclared_field_is_listed_in_order() {
    let schemas = vec![
        schema("Contact", vec![file_field("photo", "media"), file_field("cv", "docs")]),
        schema("Invoice", vec![text_field("number"), file_field("scan", "scans"), file_field("logo", "docs")]),
    ];
    let declared = vec!["docs".to_string()];
    let err = validate_file_references(&schemas, &declared).unwrap_err();
    match err {
        ForgeError::Internal { message } => assert_eq!(
            message,
            "file field(s) reference undeclared storage backends: \
             [Contact::photo -> bucket \"media\", Invoice::scan -> bucket \"scans\"]. \
             Add matching [schema_forge.storage.backends.<name>] entries."
        ),
        other => panic!("unexpected error: {other:?}"),
    }
}

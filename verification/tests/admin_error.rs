use schema_forge_acton::admin::error::{html_escape, AdminError};
use schema_forge_acton::error::BackendError;

#[test]
fn display_unauthorized() {
    let err = AdminError::Unauthorized;
    assert_eq!(err.to_string(), "Unauthorized");
}

#[test]
fn display_schema_not_found() {
    let err = AdminError::SchemaNotFound {
        name: "Contact".into(),
    };
    assert_eq!(err.to_string(), "Schema 'Contact' not found");
}

#[test]
fn display_entity_not_found() {
    let err = AdminError::EntityNotFound {
        schema: "Contact".into(),
        entity_id: "entity_abc".into(),
    };
    assert!(err.to_string().contains("entity_abc"));
}

#[test]
fn display_validation_failed() {
    let err = AdminError::ValidationFailed {
        details: vec!["field 'name': required".into()],
    };
    assert!(err.to_string().contains("name"));
}

#[test]
fn admin_status_codes() {
    assert_eq!(AdminError::Unauthorized.status_code(), 401);
    assert_eq!(AdminError::SchemaNotFound { name: "X".into() }.status_code(), 404);
    assert_eq!(
        AdminError::EntityNotFound { schema: "X".into(), entity_id: "Y".into() }.status_code(),
        404
    );
    assert_eq!(AdminError::ValidationFailed { details: vec!["x".into()] }.status_code(), 422);
    assert_eq!(AdminError::BackendError { message: "x".into() }.status_code(), 502);
    assert_eq!(AdminError::Internal { message: "x".into() }.status_code(), 500);
}

#[test]
fn html_escape_works() {
    assert_eq!(html_escape("<script>"), "&lt;script&gt;");
    assert_eq!(html_escape("a&b"), "a&amp;b");
}

#[test]
fn html_escape_quotes_and_plain_text() {
    assert_eq!(html_escape("\"it's\""), "&quot;it&#39;s&quot;");
    assert_eq!(html_escape("plain"), "plain");
    let escaped = html_escape("<a href='x'>\"&\"</a>");
    assert!(!escaped.contains('<') && !escaped.contains('>'));
    assert!(!escaped.contains('"') && !escaped.contains('\''));
}

#[test]
fn validation_details_are_joined() {
    let err = AdminError::ValidationFailed {
        details: vec!["a".into(), "b".into()],
    };
    assert_eq!(err.to_string(), "Validation failed: a; b");
}

#[test]
fn admin_error_from_backend_failures() {
    let e = AdminError::from_backend(BackendError::EntityNotFound {
        schema: "Contact".into(),
        entity_id: "e1".into(),
    });
    assert_eq!(e.to_string(), "Entity 'e1' not found in schema 'Contact'");
    let e = AdminError::from_backend(BackendError::QueryError { message: "bad".into() });
    assert_eq!(e.to_string(), "Backend error: bad");
    assert_eq!(e.status_code(), 502);
    let e = AdminError::from_backend(BackendError::RequiredFieldMissing { field: "name".into() });
    assert_eq!(e.to_string(), "Internal error: required field 'name' is missing");
}

use schema_forge_acton::error::{BackendError, ForgeError};

#[test]
fn error_display_schema_not_found() {
    let err = ForgeError::SchemaNotFound {
        name: "Contact".into(),
    };
    assert_eq!(err.to_string(), "schema 'Contact' not found");
}

#[test]
fn error_display_entity_not_found() {
    let err = ForgeError::EntityNotFound {
        schema: "Contact".into(),
        entity_id: "entity_abc123".into(),
    };
    let msg = err.to_string();
    assert!(msg.contains("entity_abc123"));
    assert!(msg.contains("Contact"));
}

#[test]
fn display_schema_already_exists() {
    let err = ForgeError::SchemaAlreadyExists {
        name: "Contact".into(),
    };
    assert_eq!(err.to_string(), "schema 'Contact' already exists");
}

#[test]
fn error_display_validation_failed() {
    let err = ForgeError::ValidationFailed {
        details: vec!["field 'email': required".into(), "field 'name': too short".into()],
    };
    let msg = err.to_string();
    assert!(msg.contains("email"));
    assert!(msg.contains("name"));
}

#[test]
fn display_invalid_schema_name() {
    let err = ForgeError::InvalidSchemaName {
        name: "bad_name".into(),
    };
    assert!(err.to_string().contains("bad_name"));
    assert!(err.to_string().contains("PascalCase"));
}

#[test]
fn display_invalid_entity_id() {
    let err = ForgeError::InvalidEntityId {
        id: "not-valid".into(),
    };
    assert!(err.to_string().contains("not-valid"));
}

#[test]
fn display_invalid_query() {
    let err = ForgeError::InvalidQuery {
        message: "missing filter value".into(),
    };
    assert!(err.to_string().contains("missing filter value"));
}

#[test]
fn display_backend_unavailable() {
    let err = ForgeError::BackendUnavailable {
        message: "connection refused".into(),
    };
    assert!(err.to_string().contains("connection refused"));
}

#[test]
fn display_internal() {
    let err = ForgeError::Internal {
        message: "unexpected null".into(),
    };
    assert!(err.to_string().contains("unexpected null"));
}

#[test]
fn error_status_codes() {
    assert_eq!(ForgeError::SchemaNotFound { name: "X".into() }.status_code(), 404);
    assert_eq!(
        ForgeError::EntityNotFound { schema: "X".into(), entity_id: "Y".into() }.status_code(),
        404
    );
    assert_eq!(ForgeError::SchemaAlreadyExists { name: "X".into() }.status_code(), 409);
    assert_eq!(ForgeError::ValidationFailed { details: vec!["x".into()] }.status_code(), 422);
    assert_eq!(ForgeError::InvalidSchemaName { name: "X".into() }.status_code(), 400);
    assert_eq!(ForgeError::InvalidEntityId { id: "X".into() }.status_code(), 400);
    assert_eq!(ForgeError::InvalidQuery { message: "X".into() }.status_code(), 400);
    assert_eq!(ForgeError::BackendUnavailable { message: "X".into() }.status_code(), 502);
    assert_eq!(ForgeError::Internal { message: "X".into() }.status_code(), 500);
}

#[test]
fn error_kinds() {
    assert_eq!(ForgeError::SchemaNotFound { name: "X".into() }.error_kind(), "schema_not_found");
    assert_eq!(ForgeError::Internal { message: "X".into() }.error_kind(), "internal_error");
    assert_eq!(ForgeError::InvalidQuery { message: "X".into() }.error_kind(), "invalid_query");
}

#[test]
fn from_backend_entity_not_found() {
    let forge_err = ForgeError::from_backend(BackendError::EntityNotFound {
        schema: "Contact".into(),
        entity_id: "entity_abc".into(),
    });
    assert!(matches!(
        forge_err,
        ForgeError::EntityNotFound { schema, entity_id } if schema == "Contact" && entity_id == "entity_abc"
    ));
}

#[test]
fn from_backend_schema_not_found() {
    let forge_err = ForgeError::from_backend(BackendError::SchemaNotFound { schema: "Contact".into() });
    assert!(matches!(forge_err, ForgeError::SchemaNotFound { name } if name == "Contact"));
}

#[test]
fn from_backend_schema_already_exists() {
    let forge_err = ForgeError::from_backend(BackendError::SchemaAlreadyExists { schema: "Contact".into() });
    assert!(matches!(forge_err, ForgeError::SchemaAlreadyExists { name } if name == "Contact"));
}

#[test]
fn from_backend_validation_failed() {
    let forge_err = ForgeError::from_backend(BackendError::ValidationFailed {
        field: "email".into(),
        reason: "too long".into(),
    });
    assert!(matches!(forge_err, ForgeError::ValidationFailed { details } if details.len() == 1 && details[0] == "field 'email': too long"));
}

#[test]
fn from_backend_connection_error() {
    let forge_err = ForgeError::from_backend(BackendError::ConnectionError { message: "refused".into() });
    assert!(matches!(forge_err, ForgeError::BackendUnavailable { message } if message == "refused"));
}

#[test]
fn from_backend_internal() {
    let forge_err = ForgeError::from_backend(BackendError::Internal { message: "oops".into() });
    assert!(matches!(forge_err, ForgeError::Internal { message } if message == "oops"));
}

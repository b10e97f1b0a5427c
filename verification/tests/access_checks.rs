use schema_forge_acton::access::{
    check_schema_access, entity_permissions, filter_entity_fields, schema_permissions, AccessAction, AccessError,
    FieldFilterDirection,
};
use schema_forge_acton::auth::Claims;
use schema_forge_acton::authz::adapters::EntityParts;
use schema_forge_acton::authz::principal_claims::{CedarAttr, PrincipalClaimMappings};
use schema_forge_acton::authz::role_ranks::RoleRanks;
use schema_forge_acton::authz::store::PolicyStoreSnapshot;
use schema_forge_acton::definition::{FieldAccessRoles, FieldDefinition, FieldType, SchemaDefinition, TextConstraints};
use schema_forge_acton::form::FieldValue;

fn text() -> FieldType {
    FieldType::Text(TextConstraints { max_length: None })
}

fn employee() -> SchemaDefinition {
    let mut salary = FieldDefinition::new("salary".to_string(), text());
    salary.field_access = Some(FieldAccessRoles { read: vec!["hr".to_string()], write: vec!["hr".to_string()] });
    SchemaDefinition {
        id: "sch-test".to_string(),
        name: "Employee".to_string(),
        fields: vec![FieldDefinition::new("name".to_string(), text()), salary],
        access: None,
        version: None,
        display_field: None,
        system: false,
    }
}

fn claims() -> Claims {
    Claims { sub: "user:alice".to_string(), roles: vec!["member".to_string()], custom: vec![], tenant_chain: vec![] }
}

fn snapshot() -> PolicyStoreSnapshot {
    PolicyStoreSnapshot::from_schemas(&[employee()], &[], RoleRanks::empty()).unwrap()
}

fn row() -> EntityParts {
    EntityParts {
        uid: "Employee::\"e1\"".to_string(),
        attrs: vec![("name".to_string(), CedarAttr::String("Ann".to_string()))],
        parents: vec![],
    }
}

fn fields() -> Vec<(String, FieldValue)> {
    vec![
        ("name".to_string(), FieldValue::Text("Ann".to_string())),
        ("salary".to_string(), FieldValue::Text("100".to_string())),
    ]
}

#[test]
fn schema_access_without_claims_is_unauthorized() {
    let s = employee();
    let snap = snapshot();
    match check_schema_access(&snap, &PrincipalClaimMappings::empty(), &s, None, AccessAction::Read) {
        Err(AccessError::Unauthorized { message }) => assert_eq!(message, "authentication required"),
        other => panic!("expected unauthorized, got {other:?}"),
    }
}

#[test]
fn schema_access_engine_failure_is_internal() {
    // The engine refuses the request (see the engine tests), so the check
    // reports an internal error naming it.
    let s = employee();
    let snap = snapshot();
    let c = claims();
    match check_schema_access(&snap, &PrincipalClaimMappings::empty(), &s, Some(&c), AccessAction::Write) {
        Err(AccessError::Internal { message }) => {
            assert!(message.starts_with("authz engine error: invalid Cedar request: "), "{message}")
        },
        other => panic!("expected an internal error, got {other:?}"),
    }
}

#[test]
fn permissions_are_false_when_the_engine_fails() {
    let s = employee();
    let snap = snapshot();
    let c = claims();
    let m = PrincipalClaimMappings::empty();
    assert!(!schema_permissions(&snap, &m, &s, Some(&c)).create);
    let p = entity_permissions(&snap, &m, &s, &row(), Some(&c));
    assert!(!p.update);
    assert!(!p.delete);
}

#[test]
fn field_filter_without_claims_keeps_everything() {
    let s = employee();
    let snap = snapshot();
    let mut f = fields();
    filter_entity_fields(&snap, &PrincipalClaimMappings::empty(), &mut f, &row(), &s, None, FieldFilterDirection::Read);
    assert_eq!(f.len(), 2);
}

#[test]
fn field_filter_removes_restricted_fields_it_cannot_grant() {
    let s = employee();
    let snap = snapshot();
    let c = claims();
    let mut f = fields();
    filter_entity_fields(&snap, &PrincipalClaimMappings::empty(), &mut f, &row(), &s, Some(&c), FieldFilterDirection::Read);
    assert_eq!(f.len(), 1);
    assert_eq!(f[0].0, "name");
}

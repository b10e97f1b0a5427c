use schema_forge_acton::auth::Claims;
use schema_forge_acton::authz::adapters::{AdapterError, EntityParts};
use schema_forge_acton::authz::engine::{authorize, authorize_field, AuthzError, FieldDirection};
use schema_forge_acton::authz::namespace::ActionVerb;
use schema_forge_acton::authz::principal_claims::{CedarAttr, PrincipalClaimMappings};
use schema_forge_acton::authz::role_ranks::RoleRanks;
use schema_forge_acton::authz::store::PolicyStoreSnapshot;
use schema_forge_acton::definition::{AccessRoles, FieldDefinition, FieldType, SchemaDefinition, TextConstraints};

fn schema(name: &str, access: Option<AccessRoles>) -> SchemaDefinition {
    SchemaDefinition {
        id: "sch-test".to_string(),
        name: name.to_string(),
        fields: vec![FieldDefinition::new("title".to_string(), FieldType::Text(TextConstraints { max_length: None }))],
        access,
        version: None,
        display_field: None,
        system: false,
    }
}

fn claims(roles: &[&str]) -> Claims {
    Claims {
        sub: "user:alice".to_string(),
        roles: roles.iter().map(|r| r.to_string()).collect(),
        custom: vec![],
        tenant_chain: vec![],
    }
}

fn secured() -> SchemaDefinition {
    schema(
        "Secured",
        Some(AccessRoles {
            read: vec!["viewer".to_string()],
            write: vec!["editor".to_string()],
            delete: vec!["admin".to_string()],
        }),
    )
}

fn snapshot(schemas: &[SchemaDefinition]) -> PolicyStoreSnapshot {
    PolicyStoreSnapshot::from_schemas(schemas, &[], RoleRanks::empty()).unwrap()
}

/// The action UIDs are built in the `Forge::Action` namespace while the
/// generated Cedar schema declares its actions at the top level, so Cedar's
/// request validation refuses the request: the decision is never reached.
#[test]
fn namespaced_action_is_refused_by_request_validation() {
    let s = secured();
    let snap = snapshot(&[s.clone_shallow()]);
    let m = PrincipalClaimMappings::empty();
    for (who, resource) in [(Some(claims(&["viewer"])), None), (None, None)] {
        match authorize(&snap, &m, who.as_ref(), ActionVerb::Read, &s, resource) {
            Err(AuthzError::Request(msg)) => {
                assert!(msg.contains("Forge::Action::\"ReadSecured\""), "{msg}");
                assert!(msg.contains("not declared"), "{msg}");
            },
            other => panic!("expected a request error, got {other:?}"),
        }
    }
    let row = EntityParts {
        uid: "Secured::\"e1\"".to_string(),
        attrs: vec![("title".to_string(), CedarAttr::String("hello".to_string()))],
        parents: vec![],
    };
    let r = authorize(&snap, &m, Some(&claims(&["platform_admin"])), ActionVerb::Delete, &s, Some(&row));
    assert!(matches!(r, Err(AuthzError::Request(_))), "{r:?}");
}

#[test]
fn unparsable_action_is_an_adapter_error() {
    let s = secured();
    let snap = snapshot(&[s.clone_shallow()]);
    let bad = schema("Bad\"Name", None);
    match authorize(&snap, &PrincipalClaimMappings::empty(), None, ActionVerb::Read, &bad, None) {
        Err(AuthzError::Adapter(AdapterError::InvalidIdentifier { value, .. })) => {
            assert_eq!(value, "Forge::Action::\"ReadBad\"Name\"");
        },
        other => panic!("expected an invalid identifier, got {other:?}"),
    }
}

trait CloneShallow {
    fn clone_shallow(&self) -> SchemaDefinition;
}

impl CloneShallow for SchemaDefinition {
    fn clone_shallow(&self) -> SchemaDefinition {
        schema(&self.name, self.access.clone())
    }
}

fn row() -> EntityParts {
    EntityParts {
        uid: "Secured::\"e1\"".to_string(),
        attrs: vec![("title".to_string(), CedarAttr::String("hello".to_string()))],
        parents: vec![],
    }
}

#[test]
fn field_check_evaluates_the_field_action() {
    let s = secured();
    let snap = snapshot(&[s.clone_shallow()]);
    let m = PrincipalClaimMappings::empty();
    let r = authorize_field(&snap, &m, Some(&claims(&["viewer"])), &s, &row(), "title", FieldDirection::Read);
    match r {
        Err(AuthzError::Request(msg)) => assert!(msg.contains("ReadFieldSecured_title"), "{msg}"),
        other => panic!("expected a request error, got {other:?}"),
    }
    let w = authorize_field(&snap, &m, None, &s, &row(), "title", FieldDirection::Write);
    match w {
        Err(AuthzError::Request(msg)) => assert!(msg.contains("WriteFieldSecured_title"), "{msg}"),
        other => panic!("expected a request error, got {other:?}"),
    }
}

#[test]
fn unparsable_field_action_is_a_request_error() {
    let s = secured();
    let snap = snapshot(&[s.clone_shallow()]);
    let r = authorize_field(&snap, &PrincipalClaimMappings::empty(), None, &s, &row(), "ti\"tle", FieldDirection::Read);
    assert!(matches!(r, Err(AuthzError::Request(_))), "{r:?}");
}

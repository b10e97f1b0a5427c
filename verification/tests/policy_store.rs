use schema_forge_acton::authz::loader::CustomPolicySource;
use schema_forge_acton::authz::role_ranks::RoleRanks;
use schema_forge_acton::authz::store::{
    digest_hex, validation_verdict, PolicyStore, PolicyStoreError, PolicyStoreSnapshot,
};
use schema_forge_acton::definition::{
    AccessRoles, FieldAccessRoles, FieldDefinition, FieldType, IntegerConstraints, SchemaDefinition, TextConstraints,
};

const MINIMAL_SCHEMA: &str = r#"
    namespace Forge {
        entity Principal = { id: String };
        entity Group;
    }
    entity Contact = {};
    action "ReadContact" appliesTo {
        principal: [Forge::Principal],
        resource: [Contact],
    };
"#;

const MINIMAL_POLICY: &str = r#"
    permit(
        principal,
        action == Action::"ReadContact",
        resource is Contact
    );
"#;

fn schema_named(name: &str) -> SchemaDefinition {
    SchemaDefinition {
        id: "sch-test".to_string(),
        name: name.to_string(),
        fields: vec![FieldDefinition::new(
            "title".to_string(),
            FieldType::Text(TextConstraints { max_length: None }),
        )],
        access: None,
        version: None,
        display_field: None,
        system: false,
    }
}

#[test]
fn compile_succeeds_for_validated_bundle() {
    let snap = PolicyStoreSnapshot::compile(MINIMAL_SCHEMA, MINIMAL_POLICY, RoleRanks::empty()).unwrap();
    assert_eq!(snap.policy_count, 1);
    assert_eq!(snap.policy_hash.len(), 64);
}

#[test]
fn compile_rejects_policy_referencing_unknown_action() {
    let bad = r#"permit(principal, action == Action::"GhostAction", resource);"#;
    let err = PolicyStoreSnapshot::compile(MINIMAL_SCHEMA, bad, RoleRanks::empty()).unwrap_err();
    assert!(matches!(err, PolicyStoreError::Validation(_)));
}

#[test]
fn store_swap_makes_new_snapshot_visible() {
    let s1 = PolicyStoreSnapshot::compile(MINIMAL_SCHEMA, MINIMAL_POLICY, RoleRanks::empty()).unwrap();
    let mut store = PolicyStore::new(s1);
    let h1 = store.current().policy_hash.clone();
    let s2 = PolicyStoreSnapshot::compile(MINIMAL_SCHEMA, MINIMAL_POLICY, RoleRanks::empty()).unwrap();
    store.swap(s2);
    assert_eq!(store.current().policy_hash, h1);
}

#[test]
fn recompile_from_schemas_installs_new_bundle() {
    let s1 = PolicyStoreSnapshot::from_schemas(&[schema_named("Alpha")], &[], RoleRanks::empty()).unwrap();
    let initial_count = s1.policy_count;
    let initial_hash = s1.policy_hash.clone();
    let mut store = PolicyStore::new(s1);

    store
        .recompile_from_schemas(&[schema_named("Alpha"), schema_named("Beta")], &[])
        .expect("recompile should succeed");

    let current = store.current();
    assert!(
        current.policy_count > initial_count,
        "second schema should add at least one policy ({} -> {})",
        initial_count,
        current.policy_count,
    );
    assert_ne!(current.policy_hash, initial_hash, "policy hash must change after recompile");
}

#[test]
fn recompile_from_schemas_keeps_old_bundle_on_failure() {
    let s1 = PolicyStoreSnapshot::from_schemas(&[schema_named("Alpha")], &[], RoleRanks::empty()).unwrap();
    let original_hash = s1.policy_hash.clone();
    let mut store = PolicyStore::new(s1);

    let custom = vec![CustomPolicySource {
        path: std::path::PathBuf::from("/policies/invalid.cedar"),
        text: r#"permit(principal, action == Action::"DoesNotExist", resource);"#.to_string(),
    }];
    let result = store.recompile_from_schemas(&[schema_named("Alpha")], &custom);
    assert!(matches!(result, Err(PolicyStoreError::Validation(_))), "expected validation failure, got {result:?}");
    assert_eq!(
        store.current().policy_hash,
        original_hash,
        "store must preserve the original snapshot when recompile fails",
    );
}

#[test]
fn compile_reports_schema_and_parse_errors() {
    let schema_err = PolicyStoreSnapshot::compile("entity {", MINIMAL_POLICY, RoleRanks::empty()).unwrap_err();
    assert!(matches!(schema_err, PolicyStoreError::Schema(_)));
    let parse_err = PolicyStoreSnapshot::compile(MINIMAL_SCHEMA, "permit(", RoleRanks::empty()).unwrap_err();
    assert!(matches!(parse_err, PolicyStoreError::Parse(_)));
}

#[test]
fn generated_bundles_validate_for_annotated_schemas() {
    let mut owned = schema_named("Ticket");
    let mut owner = FieldDefinition::new("owner_id".to_string(), FieldType::Text(TextConstraints { max_length: None }));
    owner.owner = true;
    owned.fields.push(owner);
    let mut user = schema_named("User");
    let mut rank = FieldDefinition::new("role_rank".to_string(), FieldType::Integer(IntegerConstraints { min: None, max: None }));
    rank.required = true;
    user.fields.push(rank);
    let snap = PolicyStoreSnapshot::from_schemas(&[user, owned], &[], RoleRanks::empty());
    let snap = snap.unwrap_or_else(|e| panic!("generated bundle must validate: {e:?}"));
    assert!(snap.policy_count >= 3);
}

#[test]
fn validation_verdict_joins_errors_then_warnings() {
    assert!(validation_verdict(true, &["ignored".to_string()], &[]).is_ok());
    match validation_verdict(false, &["e1".to_string(), "e2".to_string()], &["w1".to_string()]) {
        Err(PolicyStoreError::Validation(m)) => assert_eq!(m, "e1\ne2\nw1"),
        other => panic!("unexpected: {other:?}"),
    }
}

#[test]
fn digest_hex_is_lowercase_sha256() {
    assert_eq!(digest_hex(b""), "e3b0c44298fc1c149afbf4c8996fb92427ae41e4649b934ca495991b7852b855");
    assert_eq!(digest_hex(b"abc"), "ba7816bf8f01cfea414140de5dae2223b00361a396177a9cb410ff61f20015ad");
}

#[test]
fn generated_bundles_validate_with_access_annotations() {
    let mut doc = schema_named("Document");
    doc.access = Some(AccessRoles {
        read: vec!["viewer".to_string(), "editor".to_string()],
        write: vec!["editor".to_string()],
        delete: vec!["admin".to_string()],
    });
    let mut salary = FieldDefinition::new("salary".to_string(), FieldType::Integer(IntegerConstraints { min: Some(0), max: None }));
    salary.field_access = Some(FieldAccessRoles { read: vec!["hr".to_string()], write: vec!["hr".to_string()] });
    doc.fields.push(salary);
    let mut secret = FieldDefinition::new("secret".to_string(), FieldType::Json);
    secret.hidden = true;
    doc.fields.push(secret);
    doc.fields.push(FieldDefinition::new(
        "status".to_string(),
        FieldType::Enum(vec!["Open".to_string(), "Closed".to_string()]),
    ));
    doc.fields.push(FieldDefinition::new(
        "author".to_string(),
        FieldType::Relation { target: "Person".to_string(), many: false },
    ));
    doc.fields.push(FieldDefinition::new("flag".to_string(), FieldType::Boolean));
    let snap = PolicyStoreSnapshot::from_schemas(&[schema_named("Person"), doc], &[], RoleRanks::empty());
    let snap = snap.unwrap_or_else(|e| panic!("generated bundle must validate: {e:?}"));
    assert!(snap.policy_count >= 4);
}

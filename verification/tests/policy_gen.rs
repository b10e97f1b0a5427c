use schema_forge_acton::cedar::schema_gen::generate_cedar_schema;
use schema_forge_acton::authz::store::PolicyBundle;
use schema_forge_acton::authz::loader::CustomPolicySource;
use schema_forge_acton::cedar::policy_gen::{
    generate_cedar_policies, generate_full_policy_set, generate_global_policies, sanitize_id,
};
use schema_forge_acton::definition::{
    AccessRoles, FieldAccessRoles, FieldDefinition, FieldType, IntegerConstraints, SchemaDefinition, TextConstraints,
};

fn field(name: &str) -> FieldDefinition {
    FieldDefinition::new(name.to_string(), FieldType::Text(TextConstraints { max_length: None }))
}

fn schema(name: &str, access: Option<AccessRoles>, fields: Vec<FieldDefinition>) -> SchemaDefinition {
    SchemaDefinition { id: "sch-test".to_string(), name: name.to_string(), fields, access, version: None, display_field: None, system: false }
}

fn roles(r: &[&str]) -> Vec<String> {
    r.iter().map(|s| s.to_string()).collect()
}

fn access(read: &[&str], write: &[&str], delete: &[&str]) -> Option<AccessRoles> {
    Some(AccessRoles { read: roles(read), write: roles(write), delete: roles(delete) })
}

#[test]
fn global_policies_include_platform_admin_permit() {
    let g = generate_global_policies(&[]);
    assert!(g.iter().any(|p| p.cedar_text.contains("platform_admin")));
    assert_eq!(g.len(), 1);
}

#[test]
fn global_policies_include_user_role_rank_forbid_when_user_schema_present() {
    let g = generate_global_policies(&[schema("User", None, vec![field("email")])]);
    assert!(g.iter().any(|p| p.cedar_text.contains("forbid")));
    assert!(g.iter().any(|p| p.cedar_text.contains("role_rank")));
    assert!(g[0].cedar_text.contains("platform_admin"));
}

#[test]
fn global_policies_omit_user_role_rank_forbid_when_user_schema_absent() {
    let g = generate_global_policies(&[]);
    assert!(!g.iter().any(|p| p.cedar_text.contains("ReadUser")));
}

#[test]
fn schema_without_access_annotation_emits_only_schema_admin() {
    let policies = generate_cedar_policies(&schema("Contact", None, vec![field("name")]));
    assert_eq!(policies.len(), 1, "expected only the schema_admin policy");
    assert!(policies[0].cedar_text.contains("UpdateSchema"));
    assert!(policies[0].cedar_text.contains("schema-admin"));
}

#[test]
fn owner_annotation_emits_owner_write_independent_of_access() {
    let mut owner = field("created_by");
    owner.owner = true;
    let policies = generate_cedar_policies(&schema("Doc", None, vec![field("title"), owner]));
    assert!(policies
        .iter()
        .any(|p| p.cedar_text.contains("created_by") && p.cedar_text.contains("principal.id")));
}

#[test]
fn access_annotation_drives_per_role_policies() {
    let policies = generate_cedar_policies(&schema("Contact", access(&["viewer"], &["editor"], &["admin"]), vec![]));
    assert!(policies.iter().any(|p| p.cedar_text.contains("Forge::Group::\"viewer\"")));
    assert!(policies.iter().any(|p| p.cedar_text.contains("Forge::Group::\"editor\"")));
    assert!(policies.iter().any(|p| p.cedar_text.contains("Forge::Group::\"admin\"")));
}

#[test]
fn public_role_emits_unauthenticated_permit() {
    let policies = generate_cedar_policies(&schema("Contact", access(&["public"], &["editor"], &["admin"]), vec![]));
    let read = policies
        .iter()
        .find(|p| p.cedar_text.contains("read_public"))
        .expect("should emit a public read policy");
    assert!(read.cedar_text.contains("principal,"));
}

#[test]
fn empty_role_list_emits_authenticated_permit() {
    let policies = generate_cedar_policies(&schema("Contact", access(&[], &["editor"], &["admin"]), vec![]));
    let read = policies
        .iter()
        .find(|p| p.cedar_text.contains("read_authenticated"))
        .expect("should emit an authenticated read policy");
    assert!(read.cedar_text.contains("Forge::Principal"));
}

#[test]
fn field_access_emits_per_field_per_role_policies() {
    let mut salary = field("salary");
    salary.field_access = Some(FieldAccessRoles { read: roles(&["hr"]), write: roles(&["hr"]) });
    let policies = generate_cedar_policies(&schema("Employee", None, vec![field("name"), salary]));
    assert!(policies.iter().any(|p| p.cedar_text.contains("ReadFieldEmployee_salary")));
    assert!(policies.iter().any(|p| p.cedar_text.contains("WriteFieldEmployee_salary")));
    assert!(policies.iter().any(|p| p.cedar_text.contains("Forge::Group::\"hr\"")));
}

#[test]
fn full_policy_set_is_globals_then_each_schema() {
    let schemas = vec![
        schema("Contact", None, vec![field("name")]),
        schema("User", access(&["viewer"], &[], &["admin"]), vec![field("email")]),
    ];
    let all = generate_full_policy_set(&schemas);
    let globals = generate_global_policies(&schemas);
    let first = generate_cedar_policies(&schemas[0]);
    let second = generate_cedar_policies(&schemas[1]);
    assert_eq!(all.len(), globals.len() + first.len() + second.len());
    assert_eq!(all[..globals.len()], globals[..]);
    assert_eq!(all[globals.len()], first[0]);
    assert_eq!(all[all.len() - 1], second[second.len() - 1]);
}

#[test]
fn sanitize_id_replaces_non_identifier_characters() {
    assert_eq!(sanitize_id("schema-admin"), "schema_admin");
    assert_eq!(sanitize_id("a.b c_d9"), "a_b_c_d9");
}

#[test]
fn bundle_is_schema_source_and_generated_then_custom_policies() {
    let schemas = vec![schema("Contact", access(&["member"], &[], &[]), vec![field("name")])];
    let custom = vec![CustomPolicySource {
        path: std::path::PathBuf::from("/etc/forge/policies/extra.cedar"),
        text: "forbid (principal, action, resource);".to_string(),
    }];
    let bundle = PolicyBundle::from_schemas(&schemas, &custom).unwrap();
    assert_eq!(bundle.schema_source, generate_cedar_schema(&schemas).unwrap());
    let generated: Vec<String> = generate_full_policy_set(&schemas).into_iter().map(|p| p.cedar_text).collect();
    assert_eq!(bundle.policy_source, format!("{}\n\nforbid (principal, action, resource);", generated.join("\n\n")));
    let plain = PolicyBundle::from_schemas(&schemas, &[]).unwrap();
    assert_eq!(plain.policy_source, generated.join("\n\n"));
}

fn make_validation_schemas() -> Vec<SchemaDefinition> {
    let mut created_by = field("created_by");
    created_by.owner = true;
    let mut salary = FieldDefinition::new(
        "salary".to_string(),
        FieldType::Integer(IntegerConstraints { min: None, max: None }),
    );
    salary.field_access = Some(FieldAccessRoles { read: roles(&["hr"]), write: roles(&["hr"]) });
    let mut role_rank = FieldDefinition::new(
        "role_rank".to_string(),
        FieldType::Integer(IntegerConstraints { min: None, max: None }),
    );
    role_rank.required = true;
    vec![
        schema("Contact", None, vec![field("name")]),
        schema("Task", None, vec![field("title"), created_by]),
        schema("Secured", access(&["viewer"], &["editor"], &["admin"]), vec![field("name")]),
        schema("Employee", None, vec![field("name"), salary]),
        schema("User", None, vec![field("email"), role_rank]),
    ]
}

#[test]
fn full_policy_set_validates_against_generated_schema() {
    let schemas = make_validation_schemas();
    let schema_src = generate_cedar_schema(&schemas).unwrap();
    let (cedar_schema, _warnings) =
        cedar_policy::Schema::from_cedarschema_str(&schema_src).expect("schema must parse");
    let policies = generate_full_policy_set(&schemas);
    let policy_src = policies.iter().map(|p| p.cedar_text.clone()).collect::<Vec<_>>().join("\n\n");
    let policy_set: cedar_policy::PolicySet = policy_src.parse().expect("policies must parse");
    let validator = cedar_policy::Validator::new(cedar_schema);
    let result = validator.validate(&policy_set, cedar_policy::ValidationMode::Strict);
    assert!(
        result.validation_passed(),
        "validator must accept the bundle.\nErrors:\n{}\n\nSchema:\n{}\n\nPolicies:\n{}",
        result.validation_errors().map(|e| e.to_string()).collect::<Vec<_>>().join("\n"),
        schema_src,
        policy_src
    );
}

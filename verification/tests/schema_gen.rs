use schema_forge_acton::authz::principal_claims::{
    PrincipalClaimConfigEntry, PrincipalClaimMappings, PrincipalClaimType, PrincipalClaimsConfig,
};
use schema_forge_acton::cedar::schema_gen::{cedar_type_for, generate_cedar_schema, generate_cedar_schema_with_inputs};
use schema_forge_acton::definition::{
    FieldAccessRoles, FieldDefinition, FieldType, FloatConstraints, IntegerConstraints, SchemaDefinition, TextConstraints,
};

fn field(name: &str, field_type: FieldType) -> FieldDefinition {
    FieldDefinition::new(name.to_string(), field_type)
}

fn text() -> FieldType {
    FieldType::Text(TextConstraints { max_length: None })
}

fn schema(name: &str, fields: Vec<FieldDefinition>) -> SchemaDefinition {
    SchemaDefinition { id: "sch-test".to_string(), name: name.to_string(), fields, access: None, version: None, display_field: None, system: false }
}

fn contact_schema() -> SchemaDefinition {
    schema("Contact", vec![field("name", text()), field("age", FieldType::Integer(IntegerConstraints::unconstrained()))])
}

fn employee_schema_with_field_access() -> SchemaDefinition {
    let mut salary = field("salary", FieldType::Integer(IntegerConstraints::unconstrained()));
    salary.field_access = Some(FieldAccessRoles { read: vec!["hr".to_string()], write: vec!["hr".to_string()] });
    schema("Employee", vec![field("name", text()), salary])
}

fn principal_claims_for_test() -> PrincipalClaimMappings {
    let mut cfg = PrincipalClaimsConfig::new();
    cfg.insert(
        "client_org_id".into(),
        PrincipalClaimConfigEntry { claim: None, claim_type: PrincipalClaimType::String, required: false, default: None },
    );
    cfg.insert(
        "team_ids".into(),
        PrincipalClaimConfigEntry {
            claim: None,
            claim_type: PrincipalClaimType::SetOfString,
            required: false,
            default: None,
        },
    );
    PrincipalClaimMappings::from_config(cfg).unwrap()
}

#[test]
fn generates_forge_namespace() {
    let src = generate_cedar_schema(&[contact_schema()]).unwrap();
    assert!(src.contains("namespace Forge"));
    assert!(src.contains("entity Principal"));
    assert!(src.contains("entity Group"));
    assert!(src.contains("entity Tenant"));
}

#[test]
fn generates_app_schema_entity() {
    let src = generate_cedar_schema(&[contact_schema()]).unwrap();
    assert!(src.contains("entity Contact in [Forge::Tenant]"));
    assert!(src.contains("\"name\"?: String"));
    assert!(src.contains("\"age\"?: Long"));
}

#[test]
fn generates_crud_actions_per_schema() {
    let src = generate_cedar_schema(&[contact_schema()]).unwrap();
    assert!(src.contains("action ReadContact, ListContact, CreateContact, UpdateContact, DeleteContact"));
}

#[test]
fn generates_per_field_actions_only_for_field_access_fields() {
    let src = generate_cedar_schema(&[employee_schema_with_field_access()]).unwrap();
    assert!(src.contains("ReadFieldEmployee_salary"));
    assert!(src.contains("WriteFieldEmployee_salary"));
    assert!(!src.contains("ReadFieldEmployee_name"));
}

#[test]
fn user_schema_role_rank_field_is_emitted_when_present_and_required() {
    let mut role_rank = field("role_rank", FieldType::Integer(IntegerConstraints::unconstrained()));
    role_rank.required = true;
    let user = schema("User", vec![field("email", text()), role_rank]);
    let src = generate_cedar_schema(&[user]).unwrap();
    assert!(src.contains("\"role_rank\": Long,"), "expected required role_rank declaration, got:\n{src}");
}

#[test]
fn empty_mappings_yield_byte_identical_principal_block() {
    let src = generate_cedar_schema(&[contact_schema()]).unwrap();
    let expected_principal = "    entity Principal in [Group, Tenant] = {\n\
                              \x20       id: String,\n\
                              \x20       role_rank: Long,\n\
                              \x20       roles: Set<String>,\n\
                              \x20   };";
    assert!(src.contains(expected_principal), "expected Principal block, got:\n{src}");
}

#[test]
fn principal_claim_mappings_emit_optional_attributes_in_order() {
    let claims = principal_claims_for_test();
    let src = generate_cedar_schema_with_inputs(&[contact_schema()], &claims).unwrap();
    let principal_start = src.find("entity Principal").expect("principal block");
    let principal_block = &src[principal_start..];
    let order = [
        "id: String",
        "role_rank: Long",
        "roles: Set<String>",
        "\"client_org_id\"?: String",
        "\"team_ids\"?: Set<String>",
    ];
    let mut last = 0usize;
    for needle in order {
        let pos = principal_block[last..]
            .find(needle)
            .unwrap_or_else(|| panic!("missing or out-of-order: {needle}\n{src}"));
        last += pos + needle.len();
    }
}

#[test]
fn cedar_types_of_field_kinds() {
    assert_eq!(cedar_type_for(&text()).as_deref(), Some("String"));
    assert_eq!(cedar_type_for(&FieldType::Float(FloatConstraints { precision: None })).as_deref(), Some("Long"));
    assert_eq!(cedar_type_for(&FieldType::Boolean).as_deref(), Some("Bool"));
    assert_eq!(cedar_type_for(&FieldType::Relation { target: "Company".to_string(), many: true }).as_deref(), Some("Set<String>"));
    assert_eq!(cedar_type_for(&FieldType::Relation { target: "Company".to_string(), many: false }).as_deref(), Some("String"));
    assert_eq!(cedar_type_for(&FieldType::Array(Box::new(FieldType::Integer(IntegerConstraints::unconstrained())))).as_deref(), Some("Set<Long>"));
    assert_eq!(cedar_type_for(&FieldType::Json), None);
    assert_eq!(cedar_type_for(&FieldType::Array(Box::new(FieldType::Composite(vec![])))), None);
}

#[test]
fn hidden_and_untyped_fields_are_left_out_of_the_entity() {
    let mut secret = field("secret", text());
    secret.hidden = true;
    let s = schema("Note", vec![field("title", text()), secret, field("meta", FieldType::Json)]);
    let src = generate_cedar_schema(&[s]).unwrap();
    assert!(src.contains("\"title\"?: String"));
    assert!(!src.contains("\"secret\""));
    assert!(!src.contains("\"meta\""));
}

#[test]
fn schemas_are_emitted_in_order() {
    let src = generate_cedar_schema(&[contact_schema(), employee_schema_with_field_access()]).unwrap();
    let c = src.find("entity Contact").unwrap();
    let e = src.find("entity Employee").unwrap();
    assert!(c < e);
    assert!(src.starts_with("namespace Forge {\n"));
}

#[test]
fn output_parses_as_cedar_schema() {
    let src = generate_cedar_schema(&[contact_schema(), employee_schema_with_field_access()]).unwrap();
    let result = cedar_policy::Schema::from_cedarschema_str(&src);
    assert!(result.is_ok(), "generated Cedar schema must parse:\n{}\nError: {:?}", src, result.err());
}

#[test]
fn output_with_principal_claims_parses_and_strict_validates_with_has_guarded_policy() {
    let schema_src = generate_cedar_schema_with_inputs(&[contact_schema()], &principal_claims_for_test()).unwrap();
    let (schema, _warnings) = cedar_policy::Schema::from_cedarschema_str(&schema_src).expect("schema must parse");
    let policy_src = r#"
permit (
    principal,
    action == Action::"ReadContact",
    resource is Contact
)
when {
    principal has client_org_id &&
    principal.client_org_id == "org-42"
};
"#;
    let policy_set: cedar_policy::PolicySet = policy_src.parse().expect("policy must parse");
    let validator = cedar_policy::Validator::new(schema);
    let result = validator.validate(&policy_set, cedar_policy::ValidationMode::Strict);
    assert!(
        result.validation_passed(),
        "strict-mode validation must accept guarded references to operator-mapped \
         principal attributes.\nErrors:\n{}\nSchema:\n{schema_src}\nPolicy:\n{policy_src}",
        result.validation_errors().map(|e| e.to_string()).collect::<Vec<_>>().join("\n")
    );
}

use schema_forge_acton::authz::adapters::{build_resource_placeholder, default_cedar_expr};
use schema_forge_acton::authz::principal_claims::CedarAttr;
use schema_forge_acton::definition::{
    FieldDefinition, FieldType, FloatConstraints, IntegerConstraints, SchemaDefinition, TextConstraints,
};

fn text() -> FieldType {
    FieldType::Text(TextConstraints { max_length: None })
}

fn required(name: &str, ft: FieldType) -> FieldDefinition {
    let mut f = FieldDefinition::new(name.to_string(), ft);
    f.required = true;
    f
}

#[test]
fn defaults_by_field_type() {
    assert_eq!(default_cedar_expr(&text()), Some(CedarAttr::String(String::new())));
    assert_eq!(default_cedar_expr(&FieldType::Integer(IntegerConstraints::unconstrained())), Some(CedarAttr::Long(0)));
    assert_eq!(default_cedar_expr(&FieldType::Float(FloatConstraints { precision: None })), Some(CedarAttr::Long(0)));
    assert_eq!(default_cedar_expr(&FieldType::Boolean), Some(CedarAttr::Bool(false)));
    assert_eq!(
        default_cedar_expr(&FieldType::Relation { target: "Company".to_string(), many: true }),
        Some(CedarAttr::SetOfString(vec![]))
    );
    assert_eq!(
        default_cedar_expr(&FieldType::Relation { target: "Company".to_string(), many: false }),
        Some(CedarAttr::String(String::new()))
    );
    assert_eq!(default_cedar_expr(&FieldType::Array(Box::new(text()))), Some(CedarAttr::SetOfString(vec![])));
    assert_eq!(default_cedar_expr(&FieldType::Json), None);
    assert_eq!(default_cedar_expr(&FieldType::Composite(vec![])), None);
}

#[test]
fn placeholder_carries_required_visible_fields_only() {
    let mut hidden = required("secret", text());
    hidden.hidden = true;
    let schema = SchemaDefinition {
        id: "sch-test".to_string(),
        name: "Contact".to_string(),
        fields: vec![
            required("name", text()),
            FieldDefinition::new("nickname".to_string(), text()),
            hidden,
            required("meta", FieldType::Json),
            required("age", FieldType::Integer(IntegerConstraints::unconstrained())),
        ],
        access: None,
        version: None,
        display_field: None,
        system: false,
    };
    let e = build_resource_placeholder(&schema);
    assert_eq!(e.uid, "Contact::\"_any\"");
    assert!(e.parents.is_empty());
    assert_eq!(
        e.attrs,
        vec![("name".to_string(), CedarAttr::String(String::new())), ("age".to_string(), CedarAttr::Long(0))]
    );
}

use schema_forge_acton::auth::{Claims, TenantRef};
use schema_forge_acton::authz::adapters::{build_principal_entities, AdapterError, EntityParts};
use schema_forge_acton::authz::principal_claims::{
    JsonValue, PrincipalClaimConfigEntry, PrincipalClaimMappings, PrincipalClaimType, PrincipalClaimsConfig,
};
use schema_forge_acton::authz::role_ranks::RoleRanks;

fn claims_with(custom: Vec<(&str, JsonValue)>) -> Claims {
    Claims {
        sub: "user:alice".to_string(),
        roles: vec!["editor".to_string()],
        custom: custom.into_iter().map(|(k, v)| (k.to_string(), v)).collect(),
        tenant_chain: vec![],
    }
}

fn mappings(entries: &[(&str, PrincipalClaimType, bool, Option<JsonValue>)]) -> PrincipalClaimMappings {
    let mut cfg = PrincipalClaimsConfig::new();
    for (name, t, required, default) in entries {
        let default = match default {
            Some(JsonValue::String(s)) => Some(JsonValue::String(s.clone())),
            Some(JsonValue::Number(n)) => Some(JsonValue::Number(*n)),
            _ => None,
        };
        cfg.insert(
            (*name).to_string(),
            PrincipalClaimConfigEntry { claim: None, claim_type: *t, required: *required, default },
        );
    }
    PrincipalClaimMappings::from_config(cfg).unwrap()
}

fn principal_attr_keys(entities: &[EntityParts]) -> Vec<String> {
    entities[0].attrs.iter().map(|(k, _)| k.clone()).collect()
}

#[test]
fn empty_mapping_yields_only_intrinsic_attributes() {
    let claims = claims_with(vec![("client_org_id", JsonValue::String("org-42".to_string()))]);
    let entities = build_principal_entities(&claims, &RoleRanks::empty(), &PrincipalClaimMappings::empty()).unwrap();
    let mut keys = principal_attr_keys(&entities);
    keys.sort();
    assert_eq!(keys, vec!["id", "role_rank", "roles"]);
}

#[test]
fn string_claim_populates_attribute_when_present() {
    let m = mappings(&[("client_org_id", PrincipalClaimType::String, false, None)]);
    let claims = claims_with(vec![("client_org_id", JsonValue::String("org-42".to_string()))]);
    let entities = build_principal_entities(&claims, &RoleRanks::empty(), &m).unwrap();
    let mut keys = principal_attr_keys(&entities);
    keys.sort();
    assert_eq!(keys, vec!["client_org_id", "id", "role_rank", "roles"]);
}

#[test]
fn set_of_string_claim_populates_from_array() {
    let m = mappings(&[("team_ids", PrincipalClaimType::SetOfString, false, None)]);
    let claims = claims_with(vec![(
        "team_ids",
        JsonValue::Array(vec![JsonValue::String("t-1".to_string()), JsonValue::String("t-2".to_string())]),
    )]);
    let entities = build_principal_entities(&claims, &RoleRanks::empty(), &m).unwrap();
    assert!(principal_attr_keys(&entities).iter().any(|k| k == "team_ids"));
}

#[test]
fn long_claim_populates_from_number() {
    let m = mappings(&[("level", PrincipalClaimType::Long, false, None)]);
    let claims = claims_with(vec![("level", JsonValue::Number(Some(7)))]);
    let entities = build_principal_entities(&claims, &RoleRanks::empty(), &m).unwrap();
    assert!(principal_attr_keys(&entities).iter().any(|k| k == "level"));
}

#[test]
fn required_claim_missing_returns_unrepresentable() {
    let m = mappings(&[("client_org_id", PrincipalClaimType::String, true, None)]);
    let err = build_principal_entities(&claims_with(vec![]), &RoleRanks::empty(), &m).err().unwrap();
    assert!(matches!(err, AdapterError::UnrepresentableValue { .. }), "expected UnrepresentableValue, got {err:?}");
}

#[test]
fn type_mismatch_returns_unrepresentable() {
    let m = mappings(&[("level", PrincipalClaimType::Long, false, None)]);
    let claims = claims_with(vec![("level", JsonValue::String("not-a-number".to_string()))]);
    let err = build_principal_entities(&claims, &RoleRanks::empty(), &m).err().unwrap();
    assert!(matches!(err, AdapterError::UnrepresentableValue { .. }));
}

#[test]
fn optional_claim_missing_with_default_uses_default() {
    let m = mappings(&[(
        "client_org_id",
        PrincipalClaimType::String,
        false,
        Some(JsonValue::String("fallback-org".to_string())),
    )]);
    let entities = build_principal_entities(&claims_with(vec![]), &RoleRanks::empty(), &m).unwrap();
    assert!(principal_attr_keys(&entities).iter().any(|k| k == "client_org_id"));
}

#[test]
fn optional_claim_missing_without_default_is_omitted() {
    let m = mappings(&[("client_org_id", PrincipalClaimType::String, false, None)]);
    let entities = build_principal_entities(&claims_with(vec![]), &RoleRanks::empty(), &m).unwrap();
    assert!(!principal_attr_keys(&entities).iter().any(|k| k == "client_org_id"));
}

#[test]
fn groups_and_tenants_become_parent_entities() {
    let ranks = RoleRanks::from_role_table(vec![("editor".to_string(), 20), ("viewer".to_string(), 10)]).unwrap();
    let claims = Claims {
        sub: "user:alice".to_string(),
        roles: vec!["editor".to_string(), "viewer".to_string(), "editor".to_string(), "guest".to_string()],
        custom: vec![],
        tenant_chain: vec![
            TenantRef { schema: "Org".to_string(), entity_id: "o1".to_string() },
            TenantRef { schema: "Team".to_string(), entity_id: "t1".to_string() },
        ],
    };
    let es = build_principal_entities(&claims, &ranks, &PrincipalClaimMappings::empty()).unwrap();
    assert_eq!(es.len(), 1 + 3 + 2);
    let p = &es[0];
    assert_eq!(p.uid, "Forge::Principal::\"alice\"");
    assert_eq!(p.attrs[0], ("id".to_string(), CedarAttr::String("alice".to_string())));
    assert_eq!(p.attrs[1], ("role_rank".to_string(), CedarAttr::Long(20)));
    assert_eq!(
        p.parents,
        vec![
            "Forge::Group::\"editor\"",
            "Forge::Group::\"viewer\"",
            "Forge::Group::\"guest\"",
            "Forge::Tenant::\"o1\"",
            "Forge::Tenant::\"t1\"",
        ]
    );
    assert_eq!(es[1].uid, "Forge::Group::\"editor\"");
    assert_eq!(es[1].attrs[1], ("rank".to_string(), CedarAttr::Long(20)));
    assert_eq!(es[3].attrs[1], ("rank".to_string(), CedarAttr::Long(0)));
    assert_eq!(es[5].uid, "Forge::Tenant::\"t1\"");
    assert_eq!(es[5].attrs[0], ("schema".to_string(), CedarAttr::String("Team".to_string())));
}

use schema_forge_acton::authz::adapters::{action_entity_uid, principal_uid, schema_entity_uid};
use schema_forge_acton::authz::namespace::ActionVerb;

#[test]
fn action_and_schema_uids_parse_as_cedar_uids() {
    let action = action_entity_uid(ActionVerb::Read, "Contact").unwrap();
    assert_eq!(action.cedar().to_string(), "Forge::Action::\"ReadContact\"");
    let schema = schema_entity_uid("Contact").unwrap();
    assert_eq!(schema.cedar().to_string(), "Forge::Schema::\"Contact\"");
}

#[test]
fn principal_uid_drops_the_user_prefix() {
    let uid = principal_uid(&claims_with(vec![])).unwrap();
    assert_eq!(uid.cedar().to_string(), "Forge::Principal::\"alice\"");
}

#[test]
fn unparsable_uid_is_an_invalid_identifier() {
    match schema_entity_uid("Bad\"Name") {
        Err(AdapterError::InvalidIdentifier { value, detail }) => {
            assert_eq!(value, "Forge::Schema::\"Bad\"Name\"");
            assert!(!detail.is_empty());
        },
        other => panic!("expected an invalid identifier, got {:?}", other.err()),
    }
}

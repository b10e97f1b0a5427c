use schema_forge_acton::authz::principal_claims::{
    is_cedar_identifier, JsonValue, PrincipalClaimConfigEntry, PrincipalClaimMappings, PrincipalClaimType,
    PrincipalClaimsConfig, PrincipalClaimsError,
};

fn entry(t: PrincipalClaimType) -> PrincipalClaimConfigEntry {
    PrincipalClaimConfigEntry { claim: None, claim_type: t, required: false, default: None }
}

fn config(pairs: Vec<(&str, PrincipalClaimConfigEntry)>) -> PrincipalClaimsConfig {
    let mut c = PrincipalClaimsConfig::new();
    for (k, v) in pairs {
        c.insert(k.to_string(), v);
    }
    c
}

#[test]
fn from_config_rejects_reserved_names() {
    for reserved in ["id", "role_rank", "roles"] {
        let cfg = config(vec![(reserved, entry(PrincipalClaimType::String))]);
        let err = PrincipalClaimMappings::from_config(cfg).err().unwrap();
        assert!(matches!(err, PrincipalClaimsError::ReservedName { .. }));
    }
}

#[test]
fn from_config_rejects_non_identifier_names() {
    for bad in ["my-key", "1leading", "with space", "", "🦀"] {
        let cfg = config(vec![(bad, entry(PrincipalClaimType::String))]);
        let err = PrincipalClaimMappings::from_config(cfg).err().unwrap();
        assert!(matches!(err, PrincipalClaimsError::InvalidName { .. }), "expected InvalidName for {bad:?}, got {err:?}");
    }
}

#[test]
fn from_config_accepts_identifier_names() {
    for ok in ["org_id", "_internal", "ClientOrg42"] {
        let cfg = config(vec![(ok, entry(PrincipalClaimType::String))]);
        assert!(PrincipalClaimMappings::from_config(cfg).is_ok());
    }
}

#[test]
fn from_config_rejects_empty_claim_key() {
    let mut e = entry(PrincipalClaimType::String);
    e.claim = Some(String::new());
    let err = PrincipalClaimMappings::from_config(config(vec![("client_org_id", e)])).err().unwrap();
    assert!(matches!(err, PrincipalClaimsError::EmptyClaimKey { .. }));
}

#[test]
fn from_config_defaults_claim_to_section_name() {
    let m = PrincipalClaimMappings::from_config(config(vec![("org_id", entry(PrincipalClaimType::String))])).unwrap();
    assert_eq!(m.iter()[0].claim_name, "org_id");
}

#[test]
fn from_config_rejects_default_type_mismatch() {
    let mut e = entry(PrincipalClaimType::Long);
    e.default = Some(JsonValue::String("not a number".to_string()));
    let err = PrincipalClaimMappings::from_config(config(vec![("level", e)])).err().unwrap();
    assert_eq!(
        err.to_string(),
        "principal claim 'level': default value does not match declared type Long (got: string)"
    );
}

#[test]
fn from_config_accepts_well_typed_defaults() {
    let cases = vec![
        (PrincipalClaimType::String, JsonValue::String("ok".to_string())),
        (PrincipalClaimType::Long, JsonValue::Number(Some(42))),
        (PrincipalClaimType::Bool, JsonValue::Bool(true)),
        (
            PrincipalClaimType::SetOfString,
            JsonValue::Array(vec![JsonValue::String("a".to_string()), JsonValue::String("b".to_string())]),
        ),
    ];
    for (t, default) in cases {
        let mut e = entry(t);
        e.default = Some(default);
        assert!(PrincipalClaimMappings::from_config(config(vec![("k", e)])).is_ok());
    }
}

#[test]
fn mixed_array_default_is_rejected() {
    let mut e = entry(PrincipalClaimType::SetOfString);
    e.default = Some(JsonValue::Array(vec![JsonValue::String("a".to_string()), JsonValue::Number(Some(7))]));
    let err = PrincipalClaimMappings::from_config(config(vec![("teams", e)])).err().unwrap();
    assert!(matches!(err, PrincipalClaimsError::DefaultTypeMismatch { .. }));
    let mut e = entry(PrincipalClaimType::Long);
    e.default = Some(JsonValue::Number(None));
    assert!(PrincipalClaimMappings::from_config(config(vec![("level", e)])).is_err());
}

#[test]
fn cedar_schema_fragment_is_deterministic_and_optional() {
    let mappings = PrincipalClaimMappings::from_config(config(vec![
        ("zeta", entry(PrincipalClaimType::Bool)),
        ("alpha", entry(PrincipalClaimType::String)),
        ("beta", entry(PrincipalClaimType::SetOfString)),
    ]))
    .unwrap();
    let fragment = mappings.cedar_schema_fragment();
    let lines: Vec<&str> = fragment.lines().collect();
    assert_eq!(
        lines,
        vec![
            "    \"alpha\"?: String,",
            "    \"beta\"?: Set<String>,",
            "    \"zeta\"?: Bool,",
        ]
    );
}

#[test]
fn cedar_schema_fragment_empty_when_no_mappings() {
    let mappings = PrincipalClaimMappings::empty();
    assert!(mappings.cedar_schema_fragment().is_empty());
    assert!(mappings.is_empty());
}

#[test]
fn config_insert_replaces_and_orders() {
    let mut c = PrincipalClaimsConfig::new();
    assert!(c.insert("b".to_string(), entry(PrincipalClaimType::Bool)).is_none());
    assert!(c.insert("a".to_string(), entry(PrincipalClaimType::Long)).is_none());
    let prev = c.insert("b".to_string(), entry(PrincipalClaimType::String)).unwrap();
    assert_eq!(prev.claim_type, PrincipalClaimType::Bool);
    assert_eq!(c.len(), 2);
    assert!(c.contains_key("a") && c.contains_key("b") && !c.contains_key("c"));
    let m = PrincipalClaimMappings::from_config(c).unwrap();
    assert_eq!(m.iter()[0].attribute_name, "a");
    assert_eq!(m.iter()[1].claim_type, PrincipalClaimType::String);
}

#[test]
fn cedar_identifier_rule() {
    assert!(is_cedar_identifier("_x9"));
    assert!(!is_cedar_identifier("9x"));
    assert!(!is_cedar_identifier(""));
    assert_eq!(PrincipalClaimType::SetOfString.cedar_type_fragment(), "Set<String>");
}

use schema_forge_acton::authz::principal_claims::CedarAttr;

fn custom(pairs: Vec<(&str, JsonValue)>) -> Vec<(String, JsonValue)> {
    pairs.into_iter().map(|(k, v)| (k.to_string(), v)).collect()
}

#[test]
fn extract_attributes_typed_values_and_defaults() {
    let mut level = entry(PrincipalClaimType::Long);
    level.default = Some(JsonValue::Number(Some(0)));
    let mappings = PrincipalClaimMappings::from_config(config(vec![
        ("client_org_id", entry(PrincipalClaimType::String)),
        ("level", level),
        ("team_ids", entry(PrincipalClaimType::SetOfString)),
    ]))
    .unwrap();
    let attrs = mappings
        .extract_attributes(&custom(vec![
            ("client_org_id", JsonValue::String("org-42".to_string())),
            ("team_ids", JsonValue::Array(vec![JsonValue::String("t-1".to_string())])),
        ]))
        .unwrap();
    assert_eq!(
        attrs,
        vec![
            ("client_org_id".to_string(), CedarAttr::String("org-42".to_string())),
            ("level".to_string(), CedarAttr::Long(0)),
            ("team_ids".to_string(), CedarAttr::SetOfString(vec!["t-1".to_string()])),
        ]
    );
}

#[test]
fn extract_attributes_omits_optional_and_rejects_required() {
    let mappings = PrincipalClaimMappings::from_config(config(vec![("client_org_id", entry(PrincipalClaimType::String))])).unwrap();
    assert!(mappings.extract_attributes(&[]).unwrap().is_empty());
    let mut e = entry(PrincipalClaimType::String);
    e.required = true;
    let mappings = PrincipalClaimMappings::from_config(config(vec![("client_org_id", e)])).unwrap();
    let msg = mappings.extract_attributes(&[]).unwrap_err().to_string();
    assert_eq!(msg, "field 'principal.client_org_id' carried unrepresentable value: required claim 'client_org_id' missing from token");
}

#[test]
fn extract_attributes_rejects_wrong_shapes() {
    let mappings = PrincipalClaimMappings::from_config(config(vec![("level", entry(PrincipalClaimType::Long))])).unwrap();
    let msg = mappings
        .extract_attributes(&custom(vec![("level", JsonValue::String("x".to_string()))]))
        .unwrap_err()
        .to_string();
    assert!(msg.contains("level") && msg.contains("Long"), "{msg}");
    let mappings = PrincipalClaimMappings::from_config(config(vec![("team_ids", entry(PrincipalClaimType::SetOfString))])).unwrap();
    let msg = mappings
        .extract_attributes(&custom(vec![(
            "team_ids",
            JsonValue::Array(vec![JsonValue::String("a".to_string()), JsonValue::Number(Some(7))]),
        )]))
        .unwrap_err()
        .to_string();
    assert!(msg.contains("team_ids") && msg.contains("number"), "{msg}");
}

fn mapping_set(pairs: Vec<(&str, PrincipalClaimConfigEntry)>) -> PrincipalClaimMappings {
    PrincipalClaimMappings::from_config(config(pairs)).unwrap()
}

fn has_attr(attrs: &[(String, CedarAttr)], name: &str) -> bool {
    attrs.iter().any(|(k, _)| k == name)
}

#[test]
fn extract_into_writes_string_when_present() {
    let mappings = mapping_set(vec![("client_org_id", entry(PrincipalClaimType::String))]);
    let attrs = mappings
        .extract_attributes(&custom(vec![("client_org_id", JsonValue::String("org-42".to_string()))]))
        .unwrap();
    assert!(has_attr(&attrs, "client_org_id"));
}

#[test]
fn extract_into_writes_long_from_number() {
    let mappings = mapping_set(vec![("level", entry(PrincipalClaimType::Long))]);
    let attrs = mappings.extract_attributes(&custom(vec![("level", JsonValue::Number(Some(7)))])).unwrap();
    assert!(has_attr(&attrs, "level"));
    assert_eq!(attrs[0].1, CedarAttr::Long(7));
}

#[test]
fn extract_into_writes_set_from_string_array() {
    let mappings = mapping_set(vec![("team_ids", entry(PrincipalClaimType::SetOfString))]);
    let attrs = mappings
        .extract_attributes(&custom(vec![(
            "team_ids",
            JsonValue::Array(vec![JsonValue::String("t-1".to_string()), JsonValue::String("t-2".to_string())]),
        )]))
        .unwrap();
    assert!(has_attr(&attrs, "team_ids"));
}

#[test]
fn extract_into_omits_optional_when_absent_with_no_default() {
    let mappings = mapping_set(vec![("client_org_id", entry(PrincipalClaimType::String))]);
    let attrs = mappings.extract_attributes(&[]).unwrap();
    assert!(!has_attr(&attrs, "client_org_id"));
}

#[test]
fn extract_into_uses_default_when_claim_absent() {
    let mut e = entry(PrincipalClaimType::String);
    e.default = Some(JsonValue::String("fallback".to_string()));
    let mappings = mapping_set(vec![("client_org_id", e)]);
    let attrs = mappings.extract_attributes(&[]).unwrap();
    assert!(has_attr(&attrs, "client_org_id"));
}

#[test]
fn extract_into_errors_when_required_claim_missing() {
    let mut e = entry(PrincipalClaimType::String);
    e.required = true;
    let mappings = mapping_set(vec![("client_org_id", e)]);
    let msg = mappings.extract_attributes(&[]).unwrap_err().to_string();
    assert!(msg.contains("client_org_id") && msg.contains("required"), "expected required-claim error, got: {msg}");
}

#[test]
fn extract_into_errors_on_type_mismatch() {
    let mappings = mapping_set(vec![("level", entry(PrincipalClaimType::Long))]);
    let msg = mappings
        .extract_attributes(&custom(vec![("level", JsonValue::String("not a number".to_string()))]))
        .unwrap_err()
        .to_string();
    assert!(msg.contains("level") && msg.contains("Long"), "expected type-mismatch error, got: {msg}");
}

#[test]
fn extract_into_errors_on_mixed_set_elements() {
    let mappings = mapping_set(vec![("team_ids", entry(PrincipalClaimType::SetOfString))]);
    let msg = mappings
        .extract_attributes(&custom(vec![(
            "team_ids",
            JsonValue::Array(vec![JsonValue::String("a".to_string()), JsonValue::Number(Some(7))]),
        )]))
        .unwrap_err()
        .to_string();
    assert!(msg.contains("team_ids"), "expected team_ids error, got: {msg}");
}

#[test]
fn empty_mappings_is_no_op() {
    let mappings = PrincipalClaimMappings::empty();
    let attrs = mappings
        .extract_attributes(&custom(vec![("client_org_id", JsonValue::String("org-42".to_string()))]))
        .unwrap();
    assert!(attrs.is_empty());
}

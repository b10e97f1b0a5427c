use schema_forge_acton::access::AccessAction;
use schema_forge_acton::auth::NoopAuthProvider;
use schema_forge_acton::authz::adapters::{is_platform_admin, principal_uid_text, schema_uid_text, user_id_from_sub, AdapterError};
use schema_forge_acton::authz::engine::{render_error_chain, AuthzDecision, AuthzError};
use schema_forge_acton::authz::namespace::ActionVerb;
use schema_forge_acton::authz::read_scope::canonical_identity;
use schema_forge_acton::config::{default_route_prefix, AuthzConfig, ClientConfig};
use schema_forge_acton::decimal::{parse_i64, parse_u32, parse_usize, usize_to_decimal};

#[test]
fn write_is_create_or_update() {
    assert!(matches!(AccessAction::Write.primary_verb(), ActionVerb::Create));
    let extra = AccessAction::Write.additional_verbs();
    assert_eq!(extra.len(), 1);
    assert!(matches!(extra[0], ActionVerb::Update));
    assert!(AccessAction::Read.additional_verbs().is_empty());
    assert!(matches!(AccessAction::List.primary_verb(), ActionVerb::List));
}

#[test]
fn noop_provider_roles() {
    let p = NoopAuthProvider::new(vec!["member".to_string(), "viewer".to_string()]);
    assert_eq!(p.roles(), vec!["member".to_string(), "viewer".to_string()]);
    assert_eq!(NoopAuthProvider::admin().roles(), vec!["admin".to_string()]);
}

#[test]
fn subject_and_uids() {
    assert_eq!(user_id_from_sub("user:alice"), "alice");
    assert_eq!(user_id_from_sub("alice"), "alice");
    assert_eq!(user_id_from_sub("user:user:x"), "user:x");
    assert_eq!(principal_uid_text("user:alice"), "Forge::Principal::\"alice\"");
    assert_eq!(schema_uid_text("Contact"), "Forge::Schema::\"Contact\"");
    assert!(is_platform_admin(&["x".to_string(), "platform_admin".to_string()]));
    assert!(!is_platform_admin(&["admin".to_string()]));
}

#[test]
fn authz_decisions_and_errors() {
    let d = AuthzDecision { allowed: true, matched_policies: vec![], errors: vec![] };
    assert!(d.is_allow());
    let d = AuthzDecision { allowed: true, matched_policies: vec![], errors: vec!["e".to_string()] };
    assert!(!d.is_allow());
    let e = AuthzError::Adapter(AdapterError::InvalidIdentifier { value: "v".to_string(), detail: "d".to_string() });
    assert_eq!(e.to_string(), "invalid Cedar identifier 'v': d");
    assert_eq!(AuthzError::Request("r".to_string()).to_string(), "invalid Cedar request: r");
    assert_eq!(render_error_chain(&["outer".to_string(), "inner".to_string()]), "outer: inner");
}

#[test]
fn canonical_identities() {
    assert!(canonical_identity("tenant:abc-1_2"));
    assert!(!canonical_identity(""));
    assert!(!canonical_identity("a b"));
    assert!(!canonical_identity("é"));
}

#[test]
fn config_defaults() {
    assert_eq!(default_route_prefix(), "/forge");
    let c = ClientConfig::default();
    assert!(c.server.is_none() && c.timeout_secs.is_none());
    assert!(AuthzConfig::default().principal_claims.is_empty());
}

#[test]
fn decimal_read_and_write() {
    assert_eq!(parse_usize("42"), Some(42));
    assert_eq!(parse_usize("+7"), Some(7));
    assert_eq!(parse_usize("-7"), None);
    assert_eq!(parse_usize(""), None);
    assert_eq!(parse_usize("+"), None);
    assert_eq!(parse_u32("4294967295"), Some(u32::MAX));
    assert_eq!(parse_u32("4294967296"), None);
    assert_eq!(parse_i64("-9223372036854775808"), Some(i64::MIN));
    assert_eq!(parse_i64("9223372036854775808"), None);
    assert_eq!(parse_i64("-"), None);
    assert_eq!(usize_to_decimal(0), "0");
    assert_eq!(usize_to_decimal(1203), "1203");
    assert_eq!(parse_usize(&usize_to_decimal(usize::MAX)), Some(usize::MAX));
}

#[test]
fn default_values_are_correct() {
    let config = schema_forge_acton::config::SchemaForgeConfig::default();
    assert_eq!(config.schema_forge.route_prefix, "/forge");
    assert!(!config.schema_forge.auto_generate_cedar_policies);
    assert!(config.schema_forge.client.server.is_none());
}

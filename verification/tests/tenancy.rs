use schema_forge_acton::access::{tenant_for_create, tenant_scope_for_query};
use schema_forge_acton::auth::{Claims, TenantRef};

fn claims(roles: &[&str], chain: &[&str]) -> Claims {
    Claims {
        sub: "user:u1".to_string(),
        custom: vec![],
        roles: roles.iter().map(|r| r.to_string()).collect(),
        tenant_chain: chain
            .iter()
            .map(|id| TenantRef { schema: "Organization".to_string(), entity_id: id.to_string() })
            .collect(),
    }
}

#[test]
fn query_scoped_to_deepest_tenant_when_enabled() {
    let c = claims(&["member"], &["org-1", "team-7"]);
    assert_eq!(tenant_scope_for_query(Some(&c), true), Some("team-7".to_string()));
}

#[test]
fn query_unscoped_when_tenancy_disabled() {
    let c = claims(&["member"], &["org-1"]);
    assert_eq!(tenant_scope_for_query(Some(&c), false), None);
}

#[test]
fn query_unscoped_for_platform_admin() {
    let c = claims(&["platform_admin"], &["org-1"]);
    assert_eq!(tenant_scope_for_query(Some(&c), true), None);
}

#[test]
fn query_unscoped_without_claims_or_chain() {
    assert_eq!(tenant_scope_for_query(None, true), None);
    let c = claims(&["member"], &[]);
    assert_eq!(tenant_scope_for_query(Some(&c), true), None);
}

#[test]
fn create_stamped_with_deepest_tenant() {
    let c = claims(&["member"], &["org-1"]);
    assert_eq!(tenant_for_create(Some(&c), true), Some("org-1".to_string()));
    let admin = claims(&["platform_admin"], &["org-1", "org-2"]);
    assert_eq!(tenant_for_create(Some(&admin), true), Some("org-2".to_string()));
}

#[test]
fn create_unstamped_when_disabled_or_no_claims_or_empty_chain() {
    let c = claims(&["member"], &["org-1"]);
    assert_eq!(tenant_for_create(Some(&c), false), None);
    assert_eq!(tenant_for_create(None, true), None);
    let empty = claims(&["member"], &[]);
    assert_eq!(tenant_for_create(Some(&empty), true), None);
}

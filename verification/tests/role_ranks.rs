use schema_forge_acton::authz::role_ranks::{RoleRanks, RoleRanksError, PLATFORM_ADMIN_RANK, PLATFORM_ADMIN_ROLE};

#[test]
fn empty_contains_only_platform_admin() {
    let ranks = RoleRanks::empty();
    assert_eq!(ranks.get(PLATFORM_ADMIN_ROLE), Some(PLATFORM_ADMIN_RANK));
    assert_eq!(ranks.role_names().len(), 1);
}

#[test]
fn parses_simple_toml() {
    let toml = r#"
            [roles]
            org_admin = 800
            manager   = 500
            member    = 100
        "#;
    let ranks = RoleRanks::from_toml_str(toml).unwrap();
    assert_eq!(ranks.get("org_admin"), Some(800));
    assert_eq!(ranks.get("manager"), Some(500));
    assert_eq!(ranks.get("member"), Some(100));
    assert_eq!(ranks.get(PLATFORM_ADMIN_ROLE), Some(PLATFORM_ADMIN_RANK));
}

#[test]
fn rejects_platform_admin_override() {
    let toml = "[roles]\nplatform_admin = 1\n";
    let err = RoleRanks::from_toml_str(toml).unwrap_err();
    assert!(matches!(err, RoleRanksError::PlatformAdminOverride));
}

#[test]
fn rejects_negative_rank() {
    let toml = "[roles]\nlow = -1\n";
    let err = RoleRanks::from_toml_str(toml).unwrap_err();
    assert!(matches!(err, RoleRanksError::InvalidRank { .. }));
}

#[test]
fn rejects_max_rank_for_non_admin() {
    let toml = format!("[roles]\noverlord = {}\n", i64::MAX);
    let err = RoleRanks::from_toml_str(&toml).unwrap_err();
    assert!(matches!(err, RoleRanksError::InvalidRank { .. }));
}

#[test]
fn malformed_toml_is_a_parse_error() {
    let err = RoleRanks::from_toml_str("[roles\nx = ").unwrap_err();
    assert!(matches!(err, RoleRanksError::Parse { .. }));
}

#[test]
fn max_rank_picks_highest_role() {
    let toml = r#"[roles]
manager = 500
member = 100
"#;
    let ranks = RoleRanks::from_toml_str(toml).unwrap();
    assert_eq!(
        ranks.max_rank(&["member".to_string(), "manager".to_string()]),
        500
    );
}

#[test]
fn max_rank_unknown_role_is_zero() {
    let ranks = RoleRanks::empty();
    assert_eq!(ranks.max_rank(&["someone".to_string()]), 0);
}

#[test]
fn max_rank_platform_admin_dominates() {
    let toml = "[roles]\nmanager = 500\n";
    let ranks = RoleRanks::from_toml_str(toml).unwrap();
    assert_eq!(
        ranks.max_rank(&["manager".to_string(), PLATFORM_ADMIN_ROLE.to_string()]),
        PLATFORM_ADMIN_RANK
    );
}

#[test]
fn ensure_all_registered_reports_first_missing() {
    let toml = "[roles]\nmember = 1\n";
    let ranks = RoleRanks::from_toml_str(toml).unwrap();
    let err = ranks
        .ensure_all_registered(&["member", "manager", "ghost"])
        .unwrap_err();
    match err {
        RoleRanksError::UnregisteredRole { role } => assert_eq!(role, "manager"),
        other => panic!("expected UnregisteredRole, got {other:?}"),
    }
}

#[test]
fn ensure_all_registered_passes_when_all_present() {
    let toml = "[roles]\nmanager = 1\nmember = 2\n";
    let ranks = RoleRanks::from_toml_str(toml).unwrap();
    ranks
        .ensure_all_registered(&["manager", "member", PLATFORM_ADMIN_ROLE])
        .unwrap();
}

#[test]
fn role_names_are_ascending() {
    let ranks = RoleRanks::from_toml_str("[roles]\nviewer = 10\nadmin = 50\nmember = 20\n").unwrap();
    assert_eq!(ranks.role_names(), vec!["admin", "member", "platform_admin", "viewer"]);
}

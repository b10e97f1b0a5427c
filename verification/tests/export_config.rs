use schema_forge_acton::export_config::{
    resolve_max_rows, ExportSettings, RateWindow, DEFAULT_MAX_ROWS, DEFAULT_RATE_LIMIT_MAX_REQUESTS,
    DEFAULT_RATE_LIMIT_WINDOW_SECS,
};
use schema_forge_acton::export_rate_limit::{rate_limit_key, ExportRateLimiter};

#[test]
fn settings_default_to_documented_constants() {
    let s = ExportSettings::default();
    assert_eq!(s.default_max_rows, DEFAULT_MAX_ROWS);
    assert_eq!(s.rate_limit.max_requests, DEFAULT_RATE_LIMIT_MAX_REQUESTS);
    assert_eq!(s.rate_limit.window_secs, DEFAULT_RATE_LIMIT_WINDOW_SECS);
}

#[test]
fn entity_cap_below_server_default_wins() {
    assert_eq!(resolve_max_rows(100, 100_000), 100);
}

#[test]
fn entity_cap_above_server_default_is_clamped_to_ceiling() {
    assert_eq!(resolve_max_rows(1_000_000, 1_000), 1_000);
}

#[test]
fn equal_caps_resolve_to_that_value() {
    assert_eq!(resolve_max_rows(50, 50), 50);
}

#[test]
fn first_request_opens_window_and_is_admitted() {
    let w = RateWindow::opened_at(0);
    assert_eq!(w, RateWindow::opened_at(0));
}

#[test]
fn admits_up_to_limit_within_window() {
    let mut w = RateWindow::opened_at(0);
    let (a2, n2) = w.try_admit(100, 3, 1000);
    assert!(a2);
    w = n2;
    let (a3, n3) = w.try_admit(200, 3, 1000);
    assert!(a3);
    w = n3;
    let (a4, n4) = w.try_admit(300, 3, 1000);
    assert!(!a4);
    assert_eq!(n4, w);
}

#[test]
fn window_rolls_after_elapse_and_readmits() {
    let mut w = RateWindow::opened_at(0);
    let (a2, _n2) = w.try_admit(100, 1, 1000);
    assert!(!a2);
    let (a3, n3) = w.try_admit(1000, 1, 1000);
    assert!(a3);
    w = n3;
    assert_eq!(w, RateWindow::opened_at(1000));
}

#[test]
fn zero_limit_is_a_kill_switch() {
    let w = RateWindow::opened_at(0);
    let (admitted, next) = w.try_admit(10_000, 0, 1000);
    assert!(!admitted);
    assert_eq!(next, w);
}

#[test]
fn boundary_elapsed_equal_to_window_rolls() {
    let w = RateWindow::opened_at(0);
    let (admitted, next) = w.try_admit(1000, 1, 1000);
    assert!(admitted);
    assert_eq!(next, RateWindow::opened_at(1000));
}

#[test]
fn limiter_keys_are_independent() {
    let mut limiter = ExportRateLimiter::new();
    assert!(limiter.try_admit("alice", 0, 1, 1000));
    assert!(!limiter.try_admit("alice", 10, 1, 1000));
    assert!(limiter.try_admit("bob", 10, 1, 1000));
    assert!(limiter.try_admit("alice", 1000, 1, 1000));
}

#[test]
fn rate_limit_key_falls_back_for_anonymous() {
    assert_ne!(rate_limit_key(Some("user:1")), rate_limit_key(None));
}

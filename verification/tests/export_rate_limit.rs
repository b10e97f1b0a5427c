use schema_forge_acton::export_rate_limit::{rate_limit_key, ExportRateLimiter};

#[test]
fn key_uses_subject_when_present() {
    assert_eq!(rate_limit_key(Some("user:alice")), "user:alice");
}

#[test]
fn key_falls_back_to_anonymous_bucket() {
    assert_eq!(rate_limit_key(None), "anonymous");
}

#[test]
fn first_request_for_a_subject_is_admitted() {
    let mut limiter = ExportRateLimiter::default();
    assert!(limiter.try_admit("alice", 0, 2, 1000));
}

#[test]
fn requests_beyond_limit_in_window_are_rejected() {
    let mut limiter = ExportRateLimiter::default();
    assert!(limiter.try_admit("alice", 0, 2, 1000));
    assert!(limiter.try_admit("alice", 10, 2, 1000));
    assert!(!limiter.try_admit("alice", 20, 2, 1000));
}

#[test]
fn distinct_subjects_have_independent_buckets() {
    let mut limiter = ExportRateLimiter::default();
    assert!(limiter.try_admit("alice", 0, 1, 1000));
    assert!(!limiter.try_admit("alice", 10, 1, 1000));
    assert!(limiter.try_admit("bob", 10, 1, 1000));
}

#[test]
fn window_resets_after_elapse() {
    let mut limiter = ExportRateLimiter::default();
    assert!(limiter.try_admit("alice", 0, 1, 1000));
    assert!(!limiter.try_admit("alice", 500, 1, 1000));
    assert!(limiter.try_admit("alice", 1000, 1, 1000));
}

#[test]
fn zero_limit_rejects_even_first_request() {
    let mut limiter = ExportRateLimiter::default();
    assert!(!limiter.try_admit("alice", 0, 0, 1000));
}

use symphony::orchestrator::compute_backoff;
use symphony::types::{make_session_id, sanitize_workspace_key, Issue, Timestamp};

#[test]
fn test_sanitize_workspace_key() {
    assert_eq!(sanitize_workspace_key("ABC-123"), "ABC-123");
    assert_eq!(sanitize_workspace_key("TEAM/456"), "TEAM_456");
    assert_eq!(sanitize_workspace_key("some.thing_ok"), "some.thing_ok");
    assert_eq!(sanitize_workspace_key("hello world!"), "hello_world_");
}

#[test]
fn test_make_session_id() {
    assert_eq!(make_session_id("th-1", "t-5"), "th-1-t-5");
}

#[test]
fn test_issue_state_normalization() {
    let issue = Issue {
        id: "1".into(),
        identifier: "T-1".into(),
        title: "Test".into(),
        description: None,
        priority: None,
        state: "In Progress".into(),
        branch_name: None,
        url: None,
        labels: vec![],
        blocked_by: vec![],
        created_at: None,
        updated_at: None,
    };
    assert_eq!(issue.state_normalized(), "in progress");
    assert!(issue.is_active(&vec!["todo".into(), "in progress".into()]));
    assert!(!issue.is_terminal(&vec!["done".into()]));
}

#[test]
fn keys_hold_no_separator() {
    assert_eq!(sanitize_workspace_key("../../\u{e9}t\u{e9}"), ".._.._\u{5f}t_");
    let key = sanitize_workspace_key("a b/c:d");
    assert_eq!(key, "a_b_c_d");
    assert_eq!(sanitize_workspace_key(&key), key);
    assert_eq!(sanitize_workspace_key(""), "");
}

#[test]
fn seconds_are_cut_off_towards_zero() {
    let a = Timestamp {
        seconds: 10,
        nanos: 900_000_000,
    };
    let b = Timestamp {
        seconds: 12,
        nanos: 100_000_000,
    };
    assert_eq!(b.seconds_since(&a), 1);
    assert_eq!(a.seconds_since(&b), -1);
    assert!(a.before(&b));
    assert!(!b.before(&a));
    assert!(!a.before(&a));
}

#[test]
fn test_compute_backoff() {
    assert_eq!(compute_backoff(1, 300_000), 10_000);
    assert_eq!(compute_backoff(2, 300_000), 20_000);
    assert_eq!(compute_backoff(3, 300_000), 40_000);
    assert_eq!(compute_backoff(5, 300_000), 160_000);
    assert_eq!(compute_backoff(10, 300_000), 300_000);
}

#[test]
fn backoff_at_its_edges() {
    assert_eq!(compute_backoff(0, 300_000), 10_000);
    assert_eq!(compute_backoff(1, 0), 0);
    assert_eq!(compute_backoff(1, 9_999), 9_999);
    assert_eq!(compute_backoff(u32::MAX, u64::MAX), u64::MAX);
    assert_eq!(compute_backoff(51, u64::MAX), 10_000 * (1u64 << 50));
}

use vertex_ai::audit::{line_bytes, needs_rotation, nonblank_lines, query_limit, recent_window, MAX_QUERY_LIMIT};

#[test]
fn query_limits_are_clamped() {
    assert_eq!(query_limit(0), 1);
    assert_eq!(query_limit(20), 20);
    assert_eq!(query_limit(10_000), MAX_QUERY_LIMIT);
    assert_eq!(MAX_QUERY_LIMIT, 500);
}

#[test]
fn rotation_happens_before_the_limit_is_passed() {
    assert!(!needs_rotation(90, 10, 100));
    assert!(needs_rotation(91, 10, 100));
    assert!(needs_rotation(u64::MAX, 1, u64::MAX - 1));
    assert_eq!(line_bytes(41), 42);
}

#[test]
fn recent_events_keep_order_and_skip_blank_lines() {
    let lines = vec!["a".to_owned(), "  ".to_owned(), "b".to_owned(), "c".to_owned()];
    assert_eq!(nonblank_lines(lines), vec!["a", "b", "c"]);
    assert_eq!(recent_window(vec![1, 2, 3, 4], 2), vec![3, 4]);
    assert_eq!(recent_window(vec![1, 2], 5), vec![1, 2]);
}

#[test]
fn audit_log_keeps_the_newest_lines_in_order() {
    let log = vertex_ai::audit::PersistentAuditLog::open("/logs/audit.jsonl".to_owned());
    assert_eq!(log.max_bytes, 5 * 1024 * 1024);
    assert!(!log.rotates_before_append(0, 10));
    assert!(log.rotates_before_append(5 * 1024 * 1024 - 5, 10));
    assert_eq!(log.rotated(), "/logs/audit.previous.jsonl");
    let lines = vec!["{\"op\":\"first\"}".to_owned(), "  ".to_owned(), "{\"op\":\"second\"}".to_owned()];
    assert_eq!(log.recent_lines(lines.clone(), 10), vec!["{\"op\":\"first\"}", "{\"op\":\"second\"}"]);
    assert_eq!(log.recent_lines(lines, 1), vec!["{\"op\":\"second\"}"]);
}

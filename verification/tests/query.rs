use recall::config::StorageConfig;
use recall::query::{connection_pragmas, escape_like_term, events_query, recent_events_limit, SEARCH_TERM_CLAUSE};

const BASE: &str = "SELECT id, timestamp, source, payload_type, payload_data, window_title, source_app, content_hash, pinned, created_at, classification FROM events";
const ORDER: &str = " ORDER BY pinned DESC, timestamp DESC LIMIT 1000";

#[test]
fn query_without_filters() {
    let q = events_query(None, None, None, Some("   "));
    assert_eq!(q.sql, format!("{BASE}{ORDER}"));
    assert!(q.params.is_empty());
    let q = events_query(Some(false), None, None, None);
    assert_eq!(q.sql, format!("{BASE}{ORDER}"));
}

#[test]
fn query_with_all_filters() {
    let q = events_query(Some(true), Some("Safari"), Some("url"), Some(" 50%  a_b\\ "));
    let expected = format!(
        "{BASE} WHERE pinned = 1 AND source_app = ? AND classification = ? AND {SEARCH_TERM_CLAUSE} AND {SEARCH_TERM_CLAUSE}{ORDER}"
    );
    assert_eq!(q.sql, expected);
    assert_eq!(q.params.len(), 2 + 14);
    assert_eq!(q.params[0], "Safari");
    assert_eq!(q.params[1], "url");
    assert!(q.params[2..9].iter().all(|p| p == "%50\\%%"));
    assert!(q.params[9..16].iter().all(|p| p == "%a\\_b\\\\%"));
    assert_eq!(q.sql.matches('?').count(), q.params.len());
}

#[test]
fn recent_limit_is_clamped() {
    assert_eq!(recent_events_limit(0), 1);
    assert_eq!(recent_events_limit(10), 10);
    assert_eq!(recent_events_limit(500), 100);
}

#[test]
fn pragmas() {
    let mut c = StorageConfig::from_env(&[]);
    assert_eq!(
        connection_pragmas(&c),
        "PRAGMA journal_mode = WAL; PRAGMA synchronous = NORMAL; PRAGMA cache_size = -64000;"
    );
    c.enable_wal = false;
    c.cache_size = 2000;
    assert_eq!(connection_pragmas(&c), "PRAGMA cache_size = 2000;");
    c.cache_size = i32::MIN;
    assert_eq!(connection_pragmas(&c), "PRAGMA cache_size = -2147483648;");
}

#[test]
fn escapes_like_wildcards() {
    assert_eq!(escape_like_term("50%_a\\b"), "50\\%\\_a\\\\b");
    assert_eq!(escape_like_term("plain"), "plain");
}

#[test]
fn blank_and_respaced_searches() {
    let none = events_query(Some(true), Some("App"), None, None);
    let blank = events_query(Some(true), Some("App"), None, Some(" \t\n "));
    assert_eq!(none.sql, blank.sql);
    assert_eq!(none.params, blank.params);
    let a = events_query(None, None, None, Some("foo bar"));
    let b = events_query(None, None, None, Some("  foo \t  bar\n"));
    assert_eq!(a.sql, b.sql);
    assert_eq!(a.params, b.params);
}

use recall::query::{
    events_query, BLOBS_SCHEMA, COUNT_BLOBS_WITH_HASH, COUNT_EVENTS_WITH_HASH, DELETE_EVENT, DELETE_UNPINNED_EVENTS,
    EDGES_SCHEMA, EVENTS_SCHEMA, INSERT_BLOB, INSERT_EDGE, INSERT_EVENT, METADATA_SCHEMA, PIN_EVENT, SELECT_BLOB,
    SELECT_EVENT_BY_ID, SELECT_RECENT_EVENTS, UNPIN_EVENT,
};
use rusqlite::Connection;

fn schema() -> Connection {
    let conn = Connection::open_in_memory().unwrap();
    for sql in [EVENTS_SCHEMA, BLOBS_SCHEMA, EDGES_SCHEMA, METADATA_SCHEMA] {
        conn.execute_batch(sql).unwrap();
    }
    conn
}

fn insert(conn: &Connection, id: &str, ts: i64, payload: &str, pinned: bool) {
    conn.execute(
        INSERT_EVENT,
        (id, ts, "clipboard", "clipboard_text", payload, None::<String>, Some("App"), Some(id), pinned, ts, "text"),
    )
    .unwrap();
}

fn ids(conn: &Connection, pinned_only: Option<bool>, query: Option<&str>) -> Vec<String> {
    let q = events_query(pinned_only, None, None, query);
    let mut stmt = conn.prepare(&q.sql).unwrap();
    let rows = stmt.query_map(rusqlite::params_from_iter(q.params.iter()), |row| row.get::<_, String>(0)).unwrap();
    rows.collect::<Result<Vec<_>, _>>().unwrap()
}

#[test]
fn test_schema_init() {
    let conn = schema();
    let tables: Vec<String> = conn
        .prepare("SELECT name FROM sqlite_master WHERE type='table' ORDER BY name")
        .unwrap()
        .query_map([], |row| row.get(0))
        .unwrap()
        .collect::<Result<Vec<_>, _>>()
        .unwrap();
    assert!(tables.contains(&"events".to_string()));
    assert!(tables.contains(&"blobs".to_string()));
    assert!(tables.contains(&"edges".to_string()));
    assert!(tables.contains(&"metadata".to_string()));
}

#[test]
fn search_matches_every_term_literally() {
    let conn = schema();
    insert(&conn, "a", 1, r#"{"content":"50% off"}"#, false);
    insert(&conn, "b", 2, r#"{"content":"500 off"}"#, true);
    insert(&conn, "c", 3, r#"{"content":"a_b"}"#, false);
    insert(&conn, "d", 4, r#"{"content":"axb"}"#, false);
    assert_eq!(ids(&conn, None, None), vec!["b", "d", "c", "a"]);
    assert_eq!(ids(&conn, Some(true), None), vec!["b"]);
    assert_eq!(ids(&conn, None, Some("50%")), vec!["a"]);
    assert_eq!(ids(&conn, None, Some("a_b")), vec!["c"]);
    assert_eq!(ids(&conn, None, Some(" off  50 ")), vec!["b", "a"]);
}

#[test]
fn statements_run_against_the_schema() {
    let conn = schema();
    insert(&conn, "a", 1, "{}", false);
    insert(&conn, "b", 2, "{}", false);
    conn.execute(PIN_EVENT, ("a",)).unwrap();
    conn.execute(DELETE_UNPINNED_EVENTS, []).unwrap();
    assert_eq!(ids(&conn, None, None), vec!["a"]);
    conn.execute(UNPIN_EVENT, ("a",)).unwrap();
    assert_eq!(ids(&conn, Some(true), None), Vec::<String>::new());
    conn.execute(INSERT_EDGE, ("a", "a", "temporal_next")).unwrap();
    conn.execute(INSERT_BLOB, ("h", "image/png", vec![1u8, 2], 0i64)).unwrap();
    let blob: (String, Vec<u8>) = conn.query_row(SELECT_BLOB, ("h",), |r| Ok((r.get(0)?, r.get(1)?))).unwrap();
    assert_eq!(blob, ("image/png".to_string(), vec![1, 2]));
    let n: i64 = conn.query_row(COUNT_BLOBS_WITH_HASH, ("h",), |r| r.get(0)).unwrap();
    assert_eq!(n, 1);
    let n: i64 = conn.query_row(COUNT_EVENTS_WITH_HASH, ("a",), |r| r.get(0)).unwrap();
    assert_eq!(n, 1);
    let id: String = conn.query_row(SELECT_EVENT_BY_ID, ("a",), |r| r.get(0)).unwrap();
    assert_eq!(id, "a");
    let recent: Vec<String> = conn
        .prepare(SELECT_RECENT_EVENTS)
        .unwrap()
        .query_map((10i64,), |r| r.get(0))
        .unwrap()
        .collect::<Result<Vec<_>, _>>()
        .unwrap();
    assert_eq!(recent, vec!["a"]);
    conn.execute(DELETE_EVENT, ("a",)).unwrap();
    assert!(ids(&conn, None, None).is_empty());
}

#[test]
fn search_ignores_ascii_case_only() {
    let conn = schema();
    insert(&conn, "a", 1, r#"{"content":"Hello World"}"#, false);
    insert(&conn, "b", 2, r#"{"content":"ÉCOLE"}"#, false);
    assert_eq!(ids(&conn, None, Some("hello WORLD")), vec!["a"]);
    assert_eq!(ids(&conn, None, Some("école")), Vec::<String>::new());
    assert_eq!(ids(&conn, None, Some("ÉCOLE")), vec!["b"]);
}

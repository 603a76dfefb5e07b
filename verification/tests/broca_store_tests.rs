use kleos::broca::{
    action_not_found, get_action_sql, insert_action_sql, prepare_log_action, query_actions_sql, stats_sql,
    BrocaError, LogActionRequest, SqlValue, Statement,
};
use rusqlite::Connection;
use kleos::json::JsonValue;
use serde_json::Value;

fn lib(v: &Value) -> JsonValue {
    match v {
        Value::Null => JsonValue::Null,
        Value::Bool(b) => JsonValue::Bool(*b),
        Value::Number(n) => JsonValue::Number(n.clone()),
        Value::String(s) => JsonValue::Str(s.clone()),
        Value::Array(a) => JsonValue::Array(a.iter().map(lib).collect()),
        Value::Object(m) => JsonValue::Object(m.iter().map(|(k, x)| (k.clone(), lib(x))).collect()),
    }
}


fn setup() -> Connection {
    let conn = Connection::open_in_memory().expect("db");
    conn.execute_batch(
        "CREATE TABLE broca_actions (
            id INTEGER PRIMARY KEY AUTOINCREMENT,
            agent TEXT NOT NULL,
            service TEXT NOT NULL,
            action TEXT NOT NULL,
            payload TEXT NOT NULL DEFAULT '{}',
            narrative TEXT,
            axon_event_id INTEGER,
            user_id INTEGER NOT NULL,
            created_at TEXT NOT NULL DEFAULT (datetime('now'))
        );",
    )
    .expect("schema");
    conn
}

fn bind(st: &Statement) -> Vec<rusqlite::types::Value> {
    st.params
        .iter()
        .map(|p| match p {
            SqlValue::Null => rusqlite::types::Value::Null,
            SqlValue::Integer(i) => rusqlite::types::Value::Integer(*i),
            SqlValue::Text(t) => rusqlite::types::Value::Text(t.clone()),
        })
        .collect()
}

struct Row {
    id: i64,
    service: String,
    action: String,
    narrative: Option<String>,
    user_id: i64,
}

fn read(conn: &Connection, st: &Statement) -> Vec<Row> {
    let mut stmt = conn.prepare(&st.sql).expect("prepare");
    let rows = stmt
        .query_map(rusqlite::params_from_iter(bind(st)), |r| {
            Ok(Row { id: r.get(0)?, service: r.get(2)?, action: r.get(3)?, narrative: r.get(5)?, user_id: r.get(7)? })
        })
        .expect("query");
    rows.map(|r| r.expect("row")).collect()
}

fn log(conn: &Connection, req: LogActionRequest) -> Row {
    let row = match prepare_log_action(req) {
        Ok(r) => r,
        Err(_) => panic!("log request refused"),
    };
    let st = insert_action_sql(&row);
    conn.execute(&st.sql, rusqlite::params_from_iter(bind(&st))).expect("insert");
    let mut got = read(conn, &get_action_sql(conn.last_insert_rowid()));
    got.remove(0)
}

fn req(agent: &str, user: i64) -> LogActionRequest {
    LogActionRequest {
        agent: agent.to_string(),
        service: Some("s".to_string()),
        action: "x".to_string(),
        narrative: None,
        payload: None,
        axon_event_id: None,
        user_id: Some(user),
    }
}

#[test]
fn log_and_get_action() {
    let conn = setup();
    let mut payload = serde_json::Map::new();
    payload.insert("project".to_string(), serde_json::Value::String("kleos".to_string()));
    let entry = log(
        &conn,
        LogActionRequest {
            agent: "agent-code".into(),
            service: Some("kleos".into()),
            action: "task.started".into(),
            narrative: Some("starting a port".into()),
            payload: Some(lib(&serde_json::Value::Object(payload))),
            axon_event_id: None,
            user_id: Some(1),
        },
    );
    assert_eq!(entry.service, "kleos");
    assert_eq!(entry.action, "task.started");
    assert_eq!(entry.user_id, 1);
    assert_eq!(entry.narrative, Some("starting a port".to_string()));
    let fetched = read(&conn, &get_action_sql(entry.id));
    assert_eq!(fetched[0].id, entry.id);
    assert!(read(&conn, &get_action_sql(entry.id + 100)).is_empty());
    match action_not_found(entry.id + 100) {
        BrocaError::NotFound(m) => assert_eq!(m, format!("action {}", entry.id + 100)),
        _ => panic!("not found"),
    }
}

#[test]
fn query_is_scoped_by_user() {
    let conn = setup();
    log(&conn, req("a", 1));
    let other = read(&conn, &query_actions_sql(None, None, None, 10, 0, 2));
    assert!(other.is_empty(), "user 2 must not see user 1's actions");
    let mine = read(&conn, &query_actions_sql(None, None, None, 10, 0, 1));
    assert_eq!(mine.len(), 1, "user 1 should see their own row");
    assert_eq!(mine[0].user_id, 1);
}

#[test]
fn get_stats_is_scoped_by_user() {
    let conn = setup();
    log(&conn, req("alice", 1));
    log(&conn, req("bob", 2));
    let count = |user: i64| -> i64 {
        let st = stats_sql(user);
        conn.query_row(&st.sql, rusqlite::params_from_iter(bind(&st)), |r| r.get(0)).expect("stats")
    };
    assert_eq!(count(1), 1);
    assert_eq!(count(2), 1);
}

#[test]
fn query_filters_order_and_paginate() {
    let conn = setup();
    for (agent, user) in [("a", 1), ("b", 1), ("a", 1), ("a", 2)] {
        log(&conn, req(agent, user));
    }
    let rows = read(&conn, &query_actions_sql(Some("a"), Some("s"), Some("x"), 10, 0, 1));
    assert_eq!(rows.iter().map(|r| r.id).collect::<Vec<_>>(), vec![3, 1]);
    let page = read(&conn, &query_actions_sql(None, None, None, 1, 1, 1));
    assert_eq!(page.iter().map(|r| r.id).collect::<Vec<_>>(), vec![2]);
    let none = read(&conn, &query_actions_sql(None, Some("other"), None, 10, 0, 1));
    assert!(none.is_empty());
}

#[test]
fn not_found_message_for_negative_ids() {
    match action_not_found(-12) {
        BrocaError::NotFound(m) => assert_eq!(m, "action -12"),
        _ => panic!("not found"),
    }
    match action_not_found(i64::MIN) {
        BrocaError::NotFound(m) => assert_eq!(m, format!("action {}", i64::MIN)),
        _ => panic!("not found"),
    }
}

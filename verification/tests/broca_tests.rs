use kleos::broca::{
    action_payload,
    get_action_sql, insert_action_sql, narrate_from_fields, narrate_from_template, prepare_log_action, query_actions_sql,
    render_template, stats_sql, template_for, BrocaError, LogActionRequest, SqlValue,
};
use serde_json::Value;
use kleos::json::JsonValue;

fn lib(v: &Value) -> JsonValue {
    match v {
        Value::Null => JsonValue::Null,
        Value::Bool(b) => JsonValue::Bool(*b),
        Value::Number(n) => JsonValue::Number(n.clone()),
        Value::String(s) => JsonValue::Str(s.clone()),
        Value::Array(a) => JsonValue::Array(a.iter().map(lib).collect()),
        Value::Object(m) => JsonValue::Object(m.iter().map(|(k, x)| (k.clone(), lib(x))).collect()),
    }
}


fn object(members: &[(&str, Value)]) -> Value {
    let mut m = serde_json::Map::new();
    for (k, v) in members {
        m.insert(k.to_string(), v.clone());
    }
    Value::Object(m)
}

fn text(p: &SqlValue) -> Option<&str> {
    match p {
        SqlValue::Text(t) => Some(t.as_str()),
        _ => None,
    }
}

fn integer(p: &SqlValue) -> Option<i64> {
    match p {
        SqlValue::Integer(i) => Some(*i),
        _ => None,
    }
}

fn request(user_id: Option<i64>) -> LogActionRequest {
    LogActionRequest {
        agent: "agent-7".to_string(),
        service: None,
        action: "task.completed".to_string(),
        narrative: None,
        payload: Some(lib(&object(&[("title", Value::String("ship it".into()))]))),
        axon_event_id: Some(9),
        user_id,
    }
}

#[test]
fn templates_are_looked_up_by_action() {
    assert_eq!(template_for("task.created"), Some("{{agent}} started a new task: \"{{title}}\" in {{project}}"));
    assert_eq!(template_for("alert.triggered"), Some("Alert triggered: {{message}}"));
    assert_eq!(template_for("task.started"), None);
    assert_eq!(template_for(""), None);
}

#[test]
fn narration_fills_placeholders_from_payload() {
    let payload = object(&[
        ("agent", Value::String("agent-7".into())),
        ("title", Value::String("port broca".into())),
        ("project", Value::String("kleos".into())),
    ]);
    assert_eq!(
        narrate_from_template("task.created", &lib(&payload)),
        Some("agent-7 started a new task: \"port broca\" in kleos".to_string())
    );
}

#[test]
fn narration_renders_non_string_values_as_json() {
    let payload = object(&[
        ("agent", Value::String("a".into())),
        ("metric", Value::String("latency".into())),
        ("value", Value::from(42)),
    ]);
    assert_eq!(narrate_from_template("metric.recorded", &lib(&payload)), Some("a recorded latency: 42".to_string()));
    let nested = object(&[("message", object(&[("k", Value::Bool(true))]))]);
    assert_eq!(narrate_from_template("alert.triggered", &lib(&nested)), Some("Alert triggered: {\"k\":true}".to_string()));
}

#[test]
fn narration_leaves_missing_keys_visible() {
    let payload = object(&[("title", Value::String("x".into()))]);
    assert_eq!(narrate_from_template("task.blocked", &lib(&payload)), Some("\"x\" is blocked: {{reason}}".to_string()));
    assert_eq!(narrate_from_template("task.blocked", &JsonValue::Null), Some("\"{{title}}\" is blocked: {{reason}}".to_string()));
    assert_eq!(narrate_from_template("no.such.action", &lib(&payload)), None);
}

#[test]
fn render_replaces_every_occurrence_in_field_order() {
    let fields = vec![("a".to_string(), "{{b}}".to_string()), ("b".to_string(), "B".to_string())];
    assert_eq!(render_template("{{a}}-{{a}}-{{b}}", &fields), "B-B-B");
    let reversed = vec![("b".to_string(), "B".to_string()), ("a".to_string(), "{{b}}".to_string())];
    assert_eq!(render_template("{{a}}-{{b}}", &reversed), "{{b}}-B");
    assert_eq!(render_template("{{{a}}}", &[("a".to_string(), "x".to_string())].to_vec()), "{x}");
}

#[test]
fn prepare_resolves_defaults() {
    let row = match prepare_log_action(request(Some(1))) {
        Ok(r) => r,
        Err(_) => panic!("request with a tenant must be accepted"),
    };
    assert_eq!(row.service, "kleos");
    assert_eq!(row.agent, "agent-7");
    assert_eq!(row.user_id, 1);
    assert_eq!(row.axon_event_id, Some(9));
    assert_eq!(row.payload_json, "{\"title\":\"ship it\"}");
    assert_eq!(row.narrative, Some("\"ship it\" was completed by {{agent}}".to_string()));
}

#[test]
fn prepare_keeps_caller_narrative_and_defaults_payload() {
    let mut req = request(Some(3));
    req.narrative = Some("starting a port".to_string());
    req.payload = None;
    req.service = Some("chiasm".to_string());
    let row = match prepare_log_action(req) {
        Ok(r) => r,
        Err(_) => panic!("accepted"),
    };
    assert_eq!(row.narrative, Some("starting a port".to_string()));
    assert_eq!(row.payload_json, "{}");
    assert_eq!(row.service, "chiasm");
}

#[test]
fn prepare_requires_a_tenant() {
    match prepare_log_action(request(None)) {
        Err(BrocaError::InvalidInput(m)) => assert_eq!(m, "user_id required"),
        _ => panic!("a request without user_id must be refused"),
    }
}

#[test]
fn query_statement_is_scoped_and_numbered() {
    let st = query_actions_sql(None, None, None, 10, 0, 2);
    assert_eq!(
        st.sql,
        "SELECT id, agent, service, action, payload, narrative, axon_event_id, user_id, created_at FROM broca_actions WHERE user_id = ?1 ORDER BY id DESC LIMIT ?2 OFFSET ?3"
    );
    assert_eq!(st.params.len(), 3);
    assert_eq!(integer(&st.params[0]), Some(2));
    assert_eq!(integer(&st.params[1]), Some(10));
    assert_eq!(integer(&st.params[2]), Some(0));

    let st = query_actions_sql(Some("alice"), None, Some("x"), 5, 15, 1);
    assert_eq!(
        st.sql,
        "SELECT id, agent, service, action, payload, narrative, axon_event_id, user_id, created_at FROM broca_actions WHERE user_id = ?1 AND agent = ?2 AND action = ?3 ORDER BY id DESC LIMIT ?4 OFFSET ?5"
    );
    assert_eq!(text(&st.params[1]), Some("alice"));
    assert_eq!(text(&st.params[2]), Some("x"));
    assert_eq!(integer(&st.params[3]), Some(5));
    assert_eq!(integer(&st.params[4]), Some(15));

    let st = query_actions_sql(Some("a"), Some("s"), Some("x"), 1, 2, 7);
    assert!(st.sql.ends_with("AND agent = ?2 AND service = ?3 AND action = ?4 ORDER BY id DESC LIMIT ?5 OFFSET ?6"));
    assert_eq!(st.params.len(), 6);
}

#[test]
fn get_stats_and_insert_statements() {
    let st = get_action_sql(42);
    assert!(st.sql.ends_with("FROM broca_actions WHERE id = ?1"));
    assert_eq!(integer(&st.params[0]), Some(42));
    let st = stats_sql(5);
    assert_eq!(
        st.sql,
        "SELECT COUNT(*), COUNT(DISTINCT agent), COUNT(DISTINCT service) FROM broca_actions WHERE user_id = ?1"
    );
    assert_eq!(integer(&st.params[0]), Some(5));
    let row = match prepare_log_action(request(Some(1))) {
        Ok(r) => r,
        Err(_) => panic!("accepted"),
    };
    let st = insert_action_sql(&row);
    assert!(st.sql.starts_with("INSERT INTO broca_actions"));
    assert_eq!(st.params.len(), 7);
    assert_eq!(text(&st.params[1]), Some("kleos"));
    assert!(matches!(st.params[4], SqlValue::Text(_)));
    assert_eq!(integer(&st.params[5]), Some(9));
    assert_eq!(integer(&st.params[6]), Some(1));
}

#[test]
fn narration_from_fields_covers_each_payload_shape() {
    let fields = vec![("name".to_string(), "scout".to_string()), ("type".to_string(), "worker".to_string())];
    assert_eq!(narrate_from_fields("agent.registered", Some(&fields)), Some("scout came online as a worker".to_string()));
    assert_eq!(narrate_from_fields("agent.registered", None), Some("{{name}} came online as a {{type}}".to_string()));
    assert_eq!(narrate_from_fields("agent.registered", Some(&vec![])), Some("{{name}} came online as a {{type}}".to_string()));
    assert_eq!(narrate_from_fields("agent.unknown", Some(&fields)), None);
}

#[test]
fn prepare_narrates_from_the_resolved_payload() {
    let mut req = request(Some(2));
    req.action = "metric.recorded".to_string();
    req.payload = Some(lib(&object(&[
        ("value", Value::from(12.5)),
        ("agent", Value::String("a".into())),
        ("metric", Value::String("p95".into())),
    ])));
    let row = match prepare_log_action(req) {
        Ok(r) => r,
        Err(_) => panic!("accepted"),
    };
    assert_eq!(row.narrative.as_deref(), Some("a recorded p95: 12.5"));
    assert_eq!(row.payload_json, "{\"agent\":\"a\",\"metric\":\"p95\",\"value\":12.5}");

    let mut bare = request(Some(2));
    bare.action = "task.output".to_string();
    bare.payload = None;
    let row = match prepare_log_action(bare) {
        Ok(r) => r,
        Err(_) => panic!("accepted"),
    };
    assert_eq!(row.payload, JsonValue::Object(vec![]));
    assert_eq!(row.narrative.as_deref(), Some("Output submitted for \"{{title}}\""));
}

#[test]
fn stored_payloads_are_parsed_back() {
    match action_payload("{\"b\":[1,null],\"a\":\"x\"}") {
        Ok(JsonValue::Object(m)) => {
            assert_eq!(m.len(), 2);
            assert_eq!(m[0], ("a".to_string(), JsonValue::Str("x".to_string())));
            assert_eq!(m[1].0, "b");
        }
        _ => panic!("valid JSON must parse"),
    }
    assert!(matches!(action_payload("{"), Err(BrocaError::Serialization(_))));
    assert!(matches!(action_payload(""), Err(BrocaError::Serialization(_))));
}

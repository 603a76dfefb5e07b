use kleos::axon_stream::{channel_filters, event_data, is_wildcard, parse_channels, StreamCursor};
use kleos::json::JsonValue;

fn original_parse(c: Option<&str>) -> Vec<String> {
    c.map(|c| c.split(',').map(|s| s.trim().to_string()).filter(|s| !s.is_empty()).collect()).unwrap_or_default()
}

#[test]
fn channels_are_trimmed_and_empty_entries_dropped() {
    assert_eq!(parse_channels(Some(" a, b ,,c,")), vec!["a", "b", "c"]);
    assert_eq!(parse_channels(None), Vec::<String>::new());
    assert_eq!(parse_channels(Some("")), Vec::<String>::new());
    for c in ["x", " , ", "a,b", "\tq\u{a0},\u{2003}r", "*,x", ",,,", "a b,c"] {
        assert_eq!(parse_channels(Some(c)), original_parse(Some(c)), "csv {:?}", c);
    }
}

#[test]
fn wildcard_subscriptions() {
    assert!(is_wildcard(&vec![]));
    assert!(is_wildcard(&parse_channels(Some("a, *"))));
    assert!(!is_wildcard(&parse_channels(Some("a,b"))));
    assert_eq!(channel_filters(&vec![]), vec![None]);
    assert_eq!(channel_filters(&parse_channels(Some("*"))), vec![None]);
    assert_eq!(
        channel_filters(&parse_channels(Some("a,b"))),
        vec![Some("a".to_string()), Some("b".to_string())]
    );
}

#[test]
fn cursor_delivers_each_event_once() {
    let mut c = StreamCursor::new(1, None);
    assert_eq!(c.last_ids, vec![0]);
    assert_eq!(c.advance(0, &vec![3, 1, 5, 4, 7]), vec![0, 2, 4]);
    assert_eq!(c.last_ids, vec![7]);
    assert_eq!(c.advance(0, &vec![7, 6, 8]), vec![2]);
    assert_eq!(c.last_ids, vec![8]);
    assert_eq!(c.advance(0, &vec![]), Vec::<usize>::new());
    let mut resumed = StreamCursor::new(1, Some(10));
    assert_eq!(resumed.advance(0, &vec![9, 10, 11]), vec![2]);
    assert_eq!(resumed.last_ids, vec![11]);
}

#[test]
fn each_channel_keeps_its_own_position() {
    let filters = channel_filters(&parse_channels(Some("a,b")));
    let mut c = StreamCursor::new(filters.len(), Some(0));
    assert_eq!(c.advance(0, &vec![10]), vec![0]);
    assert_eq!(c.advance(1, &vec![8]), vec![0]);
    assert_eq!(c.last_ids, vec![10, 8]);
    assert_eq!(c.advance(0, &vec![10, 12]), vec![1]);
    assert_eq!(c.advance(1, &vec![8, 9]), vec![1]);
    assert_eq!(c.last_ids, vec![12, 9]);
}

#[test]
fn a_channel_named_twice_is_queried_once() {
    assert_eq!(
        channel_filters(&parse_channels(Some("a, b,a,c,b"))),
        vec![Some("a".to_string()), Some("b".to_string()), Some("c".to_string())]
    );
}

#[test]
fn event_data_carries_the_event_fields() {
    let payload = JsonValue::Object(vec![("k".to_string(), JsonValue::Bool(true))]);
    let v = event_data(42, "deploys", "deploy.started", payload, "ci", "2024-01-01T00:00:00Z");
    let s = |t: &str| JsonValue::Str(t.to_string());
    assert_eq!(
        v,
        JsonValue::Object(vec![
            ("action".to_string(), s("deploy.started")),
            ("channel".to_string(), s("deploys")),
            ("created_at".to_string(), s("2024-01-01T00:00:00Z")),
            ("id".to_string(), JsonValue::Number(serde_json::Number::from(42))),
            ("payload".to_string(), JsonValue::Object(vec![("k".to_string(), JsonValue::Bool(true))])),
            ("source".to_string(), s("ci")),
        ])
    );
}

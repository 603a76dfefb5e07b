use kleos::gate::PendingTurn;
use kleos::json::JsonValue;
use kleos::watcher::{
    extract_assistant_text, is_session_log, parse_session_path, resume_offset, session_identity,
    SessionScan, TurnBatcher,
};

fn s(text: &str) -> JsonValue {
    JsonValue::Str(text.to_string())
}

fn obj(members: Vec<(&str, JsonValue)>) -> JsonValue {
    JsonValue::Object(members.into_iter().map(|(k, v)| (k.to_string(), v)).collect())
}

const LONG: &str = "this assistant reply is comfortably longer than fifty bytes of text";

fn turn(text: &str) -> PendingTurn {
    PendingTurn { text: text.to_string(), session_id: "s".to_string(), project: "p".to_string() }
}

#[test]
fn session_path_parts() {
    assert_eq!(
        parse_session_path("/home/u/.agent/projects/proj-hash/sessions/abc-123.jsonl"),
        Some(("proj-hash".to_string(), "abc-123".to_string()))
    );
    assert_eq!(
        parse_session_path("proj/sessions/a.b.jsonl"),
        Some(("proj".to_string(), "a.b".to_string()))
    );
    assert_eq!(parse_session_path("sessions/x.jsonl"), None);
    assert_eq!(parse_session_path("/sessions/x.jsonl"), None);
    assert_eq!(parse_session_path("p/s/.."), None);
    assert_eq!(parse_session_path("../s/x.jsonl"), None);
    assert_eq!(
        parse_session_path("p//s/./.hidden/"),
        Some(("p".to_string(), ".hidden".to_string()))
    );
}

#[test]
fn session_identity_falls_back_to_unknown() {
    assert_eq!(session_identity("x.jsonl"), ("unknown".to_string(), "unknown".to_string()));
    assert_eq!(session_identity("a/b/c.jsonl"), ("a".to_string(), "c".to_string()));
}

#[test]
fn only_jsonl_files_are_session_logs() {
    assert!(is_session_log("/a/b/c.jsonl"));
    assert!(!is_session_log("/a/b/c.json"));
    assert!(!is_session_log("/a/b/.jsonl"));
    assert!(!is_session_log("/a/b/jsonl"));
    assert!(!is_session_log("/a/b/c.jsonl/.."));
    assert!(!is_session_log(""));
}

#[test]
fn assistant_text_from_content_blocks() {
    let line = obj(vec![
        ("type", s("assistant")),
        (
            "message",
            obj(vec![(
                "content",
                JsonValue::Array(vec![
                    obj(vec![("type", s("text")), ("text", s("first"))]),
                    obj(vec![("type", s("tool_use")), ("text", s("ignored"))]),
                    obj(vec![("type", s("text")), ("text", s("second"))]),
                ]),
            )]),
        ),
    ]);
    assert_eq!(extract_assistant_text(&line), Some("first\nsecond".to_string()));
}

#[test]
fn assistant_text_from_string_content() {
    let line = obj(vec![("type", s("assistant")), ("message", obj(vec![("content", s(LONG))]))]);
    assert_eq!(extract_assistant_text(&line), Some(LONG.to_string()));
    let short = obj(vec![("type", s("assistant")), ("message", obj(vec![("content", s("hi"))]))]);
    assert_eq!(extract_assistant_text(&short), None);
}

#[test]
fn assistant_text_from_role_shape() {
    let line = obj(vec![("role", s("assistant")), ("content", s(LONG))]);
    assert_eq!(extract_assistant_text(&line), Some(LONG.to_string()));
    let untyped = obj(vec![("content", s(LONG))]);
    assert_eq!(extract_assistant_text(&untyped), Some(LONG.to_string()));
}

#[test]
fn user_and_tool_lines_are_skipped() {
    let user = obj(vec![("type", s("user")), ("content", s(LONG))]);
    assert_eq!(extract_assistant_text(&user), None);
    let role_user = obj(vec![("role", s("user")), ("content", s(LONG))]);
    assert_eq!(extract_assistant_text(&role_user), None);
    let typed_user_role_assistant =
        obj(vec![("type", s("user")), ("role", s("assistant")), ("content", s(LONG))]);
    assert_eq!(extract_assistant_text(&typed_user_role_assistant), Some(LONG.to_string()));
    assert_eq!(extract_assistant_text(&JsonValue::Null), None);
}

#[test]
fn resume_offset_restarts_truncated_files() {
    assert_eq!(resume_offset(100, 40), 40);
    assert_eq!(resume_offset(30, 40), 0);
    assert_eq!(resume_offset(40, 40), 40);
}

#[test]
fn session_scan_collects_long_assistant_turns() {
    let mut scan = SessionScan::start("/r/proj/sessions/sid.jsonl", 1000, 10);
    assert_eq!(scan.pos, 10);
    assert_eq!(scan.project, "proj");
    assert_eq!(scan.session_id, "sid");
    scan.on_parsed_line("   ", None);
    assert_eq!(scan.pos, 14);
    let good = obj(vec![("type", s("assistant")), ("message", obj(vec![("content", s(LONG))]))]);
    scan.on_parsed_line("{...}", Some(good));
    assert_eq!(scan.pos, 20);
    let joined_short = obj(vec![(
        "message",
        obj(vec![("content", JsonValue::Array(vec![obj(vec![("type", s("text")), ("text", s("tiny"))])]))]),
    )]);
    scan.on_parsed_line("xyz", Some(joined_short));
    scan.on_parsed_line("not json", None);
    assert_eq!(scan.pos, 20 + 4 + 9);
    assert_eq!(scan.turns.len(), 1);
    assert_eq!(scan.turns[0].text, LONG);
    assert_eq!(scan.turns[0].session_id, "sid");
    assert_eq!(scan.turns[0].project, "proj");
}

#[test]
fn batcher_flushes_on_size_or_age() {
    let mut b = TurnBatcher::new();
    assert!(!b.should_flush(1_000_000));
    assert!(!b.record_turns(vec![], 5));
    assert!(!b.record_turns(vec![turn("a"), turn("b")], 1000));
    assert_eq!(b.pending_len(), 2);
    assert!(!b.should_flush(5999));
    assert!(b.should_flush(6000));
    let batch = b.take_batch();
    assert_eq!(batch.len(), 2);
    assert_eq!(batch[0].text, "a");
    assert_eq!(batch[1].text, "b");
    assert_eq!(b.pending_len(), 0);
    assert!(!b.should_flush(1_000_000));
    let many: Vec<PendingTurn> = (0..20).map(|i| turn(&i.to_string())).collect();
    b.record_turns(many, 7000);
    assert!(b.should_flush(7000));
}

#[test]
fn batcher_waits_for_quiet_after_the_last_file_event() {
    let mut b = TurnBatcher::new();
    b.record_turns(vec![turn("a")], 0);
    b.record_turns(vec![turn("b")], 4000);
    assert!(!b.should_flush(5000));
    assert!(!b.should_flush(8999));
    b.record_turns(vec![], 8000);
    assert!(!b.should_flush(12999));
    assert!(b.should_flush(13000));
    let batch = b.take_batch();
    assert_eq!(batch.iter().map(|t| t.text.as_str()).collect::<Vec<_>>(), vec!["a", "b"]);
    b.record_turns(vec![], 20000);
    assert!(!b.should_flush(100000));
}

#[test]
fn batches_hand_out_every_turn_once_in_order() {
    let mut b = TurnBatcher::new();
    let mut handed: Vec<String> = Vec::new();
    let mut recorded: Vec<String> = Vec::new();
    for round in 0..7u64 {
        let turns: Vec<PendingTurn> = (0..(round * 3 % 8)).map(|i| turn(&format!("{round}-{i}"))).collect();
        recorded.extend(turns.iter().map(|t| t.text.clone()));
        b.record_turns(turns, round * 1000);
        if b.should_flush(round * 1000) || round % 3 == 2 {
            handed.extend(b.take_batch().into_iter().map(|t| t.text));
        }
    }
    handed.extend(b.take_batch().into_iter().map(|t| t.text));
    assert_eq!(handed, recorded);
}

#[test]
fn session_scan_parses_each_line() {
    let line = format!(
        "{{\"type\":\"assistant\",\"message\":{{\"content\":[{{\"type\":\"text\",\"text\":\"{}\"}}]}}}}",
        LONG
    );
    let user = "{\"type\":\"user\",\"content\":\"hello there\"}";
    let short = "{\"type\":\"assistant\",\"content\":\"short\"}";
    let mut scan = SessionScan::start("/r/proj/sessions/sid.jsonl", 1000, 0);
    scan.on_line("");
    scan.on_line(user);
    scan.on_line(&line);
    scan.on_line("{not json");
    scan.on_line(short);
    assert_eq!(scan.turns.len(), 1);
    assert_eq!(scan.turns[0].text, LONG);
    let expected = 1 + (user.len() + 1 + line.len() + 1 + 10 + short.len() + 1) as u64;
    assert_eq!(scan.pos, expected);
}

#[test]
fn resumed_scan_matches_whole_scan() {
    let long_line = format!("{{\"role\":\"assistant\",\"content\":\"{}\"}}", LONG);
    let lines = vec![long_line.clone(), "{}".to_string(), long_line.clone(), "".to_string(), long_line];
    let mut whole = SessionScan::start("/r/p/sessions/s.jsonl", 0, 0);
    for l in &lines {
        whole.on_line(l);
    }
    let mut first = SessionScan::start("/r/p/sessions/s.jsonl", 0, 0);
    for l in &lines[..2] {
        first.on_line(l);
    }
    let mut rest = SessionScan::start("/r/p/sessions/s.jsonl", 10_000, first.pos);
    assert_eq!(rest.pos, first.pos);
    for l in &lines[2..] {
        rest.on_line(l);
    }
    assert_eq!(rest.pos, whole.pos);
    let mut both: Vec<String> = first.turns.iter().map(|t| t.text.clone()).collect();
    both.extend(rest.turns.iter().map(|t| t.text.clone()));
    assert_eq!(both, whole.turns.iter().map(|t| t.text.clone()).collect::<Vec<_>>());
    assert_eq!(both.len(), 3);
}

#[test]
fn batcher_signals_checkpoint_every_ten_turns() {
    let mut b = TurnBatcher::new();
    assert!(!b.record_turns((0..4).map(|_| turn("x")).collect(), 1));
    assert!(!b.record_turns((0..5).map(|_| turn("x")).collect(), 2));
    assert!(b.record_turns(vec![turn("x")], 3));
    assert!(!b.record_turns((0..9).map(|_| turn("x")).collect(), 4));
    assert!(b.record_turns((0..30).map(|_| turn("x")).collect(), 5));
    assert_eq!(b.pending_len(), 49);
}

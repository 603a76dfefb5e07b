use kleos::json::JsonValue;
use kleos::gate::{store_auth_header, store_body, store_request, store_url, GateResult, MemoryGate, PendingTurn, Verdict, GATE_SYSTEM_PROMPT};

fn turn(t: &str) -> PendingTurn {
    PendingTurn { text: t.to_string(), session_id: "sid".to_string(), project: "proj".to_string() }
}

fn verdict(store: bool) -> Verdict {
    Verdict { store, category: None, importance: None, summary: None }
}

#[test]
fn prompt_text_keeps_first_1500_chars() {
    let long: String = "é".repeat(1600);
    let out = MemoryGate::prompt_text(&long);
    assert_eq!(out.chars().count(), 1500);
    assert_eq!(MemoryGate::prompt_text("short"), "short");
    assert!(GATE_SYSTEM_PROMPT.starts_with("You are a memory curator"));
}

#[test]
fn replies_lose_markdown_fences() {
    assert_eq!(MemoryGate::clean_reply("```json\n{\"store\": false}\n```"), "{\"store\": false}");
    assert_eq!(MemoryGate::clean_reply("  {\"store\": true} "), "{\"store\": true}");
}

#[test]
fn results_pair_turns_with_their_verdicts() {
    let g = MemoryGate::new(Some("m".to_string()));
    assert_eq!(g.model, Some("m".to_string()));
    let turns = vec![turn("one"), turn("two"), turn("three")];
    let verdicts = vec![Some(verdict(true)), None, Some(verdict(false))];
    let r = MemoryGate::collect_results(&turns, &verdicts);
    assert_eq!(r.len(), 2);
    assert_eq!(r[0].original_text, "one");
    assert!(r[0].verdict.store);
    assert_eq!(r[1].original_text, "three");
    assert!(!r[1].verdict.store);
}

#[test]
fn approved_results_become_store_requests() {
    let rejected = GateResult { verdict: verdict(false), original_text: "t".into(), session_id: "s".into(), project: "p".into() };
    assert!(store_request(&rejected, 1, Some("k")).is_none());
    let plain = GateResult { verdict: verdict(true), ..rejected };
    let req = store_request(&plain, 7, None).expect("approved");
    assert_eq!(req.content, "t");
    assert_eq!(req.category, "session");
    assert_eq!(req.importance, 3);
    assert_eq!(req.source, "sidecar-gate:p");
    assert_eq!(req.tags, vec!["sidecar-gate", "p", "s"]);
    assert_eq!(req.user_id, 7);
    assert_eq!(req.authorization, None);
    let full = GateResult {
        verdict: Verdict { store: true, category: Some("decision".into()), importance: Some(8), summary: Some("use sqlite".into()) },
        original_text: "long text".into(),
        session_id: "s".into(),
        project: "p".into(),
    };
    let req = store_request(&full, 7, Some("sk-123")).expect("approved");
    assert_eq!(req.authorization.as_deref(), Some("Bearer sk-123"));
    assert_eq!(req.content, "use sqlite");
    assert_eq!(req.category, "decision");
    assert_eq!(req.importance, 8);
    assert_eq!(store_url("http://127.0.0.1:3000"), "http://127.0.0.1:3000/store");
}

#[test]
fn store_requests_carry_the_bearer_key() {
    assert_eq!(store_auth_header(Some("abc")), Some("Bearer abc".to_string()));
    assert_eq!(store_auth_header(Some("")), Some("Bearer ".to_string()));
    assert_eq!(store_auth_header(None), None);
}

#[test]
fn store_body_lists_the_request_fields() {
    let result = GateResult {
        verdict: Verdict { store: true, category: None, importance: Some(-2), summary: None },
        original_text: "text".into(),
        session_id: "s1".into(),
        project: "p1".into(),
    };
    let req = store_request(&result, 9, None).expect("approved");
    let s = |t: &str| JsonValue::Str(t.to_string());
    assert_eq!(
        store_body(&req),
        JsonValue::Object(vec![
            ("category".to_string(), s("session")),
            ("content".to_string(), s("text")),
            ("importance".to_string(), JsonValue::Number(serde_json::Number::from(-2))),
            ("source".to_string(), s("sidecar-gate:p1")),
            ("tags".to_string(), JsonValue::Array(vec![s("sidecar-gate"), s("p1"), s("s1")])),
            ("user_id".to_string(), JsonValue::Number(serde_json::Number::from(9))),
        ])
    );
}

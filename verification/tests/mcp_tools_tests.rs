use kleos::json::JsonValue;
use kleos::mcp_tools::{daily_tools, registry_entry, route_schema, select_registry, underscore_name};

#[test]
fn names_take_underscore_form() {
    assert_eq!(underscore_name("memory.store"), "memory_store");
    assert_eq!(underscore_name("skills.find_skills"), "skills_find_skills");
    assert_eq!(underscore_name("a.b.c"), "a_b_c");
    assert_eq!(underscore_name(""), "");
}

#[test]
fn daily_tool_list() {
    let t = daily_tools();
    assert_eq!(t.len(), 56);
    assert_eq!(t[0], "memory.store");
    assert_eq!(t[1], "memory_store");
    assert_eq!(t[55], "agents.verify");
}

#[test]
fn registry_lists_each_route_once() {
    let routes = vec![
        Some("memory.store".to_string()),
        Some("memory.store".to_string()),
        None,
        Some("memory.search".to_string()),
        Some("memory_search".to_string()),
        Some("tasks.list".to_string()),
    ];
    let picks = select_registry(&routes);
    assert_eq!(
        picks,
        vec![(0, "memory_store".to_string()), (3, "memory_search".to_string()), (5, "tasks_list".to_string())]
    );
    assert_eq!(select_registry(&vec![None, None]), vec![]);
}

#[test]
fn unknown_tools_are_named_in_the_error() {
    assert_eq!(kleos::mcp_tools::unknown_tool_message("memory.nope"), "unknown tool: memory.nope");
}

#[test]
fn route_schema_parses_or_falls_back() {
    match route_schema("{\"type\":\"object\",\"required\":[\"q\"]}") {
        JsonValue::Object(m) => {
            assert_eq!(m.len(), 2);
            assert_eq!(m[0].0, "required");
            assert_eq!(m[0].1, JsonValue::Array(vec![JsonValue::Str("q".to_string())]));
            assert_eq!(m[1], ("type".to_string(), JsonValue::Str("object".to_string())));
        }
        other => panic!("expected an object, got {:?}", other),
    }
    assert_eq!(route_schema("[1, true]"), JsonValue::Array(vec![JsonValue::Number(serde_json::Number::from(1)), JsonValue::Bool(true)]));
    let fallback = JsonValue::Object(vec![
        ("additionalProperties".to_string(), JsonValue::Bool(true)),
        ("type".to_string(), JsonValue::Str("object".to_string())),
    ]);
    assert_eq!(route_schema("not json"), fallback);
    assert_eq!(route_schema(""), fallback);
}

#[test]
fn registry_entries_name_the_tool() {
    let schema = route_schema("bad");
    let entry = registry_entry("memory_store", "Store a memory", route_schema("bad"));
    assert_eq!(
        entry,
        JsonValue::Object(vec![
            ("description".to_string(), JsonValue::Str("Store a memory".to_string())),
            ("inputSchema".to_string(), schema),
            ("name".to_string(), JsonValue::Str("memory_store".to_string())),
        ])
    );
}

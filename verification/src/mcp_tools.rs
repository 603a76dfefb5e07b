//! The MCP tool registry: the curated daily-driver tools, their names in the
//! underscore form MCP clients accept, and the deduplicated listing built
//! from the routes they resolve to.

use vstd::prelude::*;

use crate::json::{json_parse, member_is, parse_json, text_member, text_member_is, JsonValue};
use crate::text::{chars_of, string_from_chars};

verus! {

/// The curated daily-driver tool names, in dot form or underscore form.
pub open spec fn daily_tool_names() -> Seq<Seq<char>> {
    seq![
        "memory.store"@,
        "memory_store"@,
        "memory.search"@,
        "memory_search"@,
        "memory_search_preset"@,
        "memory.get"@,
        "memory.list"@,
        "memory_list"@,
        "memory.recall"@,
        "memory_recall"@,
        "skill.search"@,
        "skill_search"@,
        "skill.execute"@,
        "skill_execute"@,
        "skills.find_skills"@,
        "skills.usage_stats"@,
        "activity.report"@,
        "tasks.list"@,
        "tasks.create"@,
        "services.chiasm_create_task"@,
        "tasks.feed"@,
        "tasks.get_task"@,
        "tasks.update_task"@,
        "tasks.update"@,
        "services.chiasm_update_task"@,
        "broca.feed"@,
        "axon.list_events"@,
        "services.axon_consume"@,
        "soma.list_agents"@,
        "soma.create_agent"@,
        "soma.register"@,
        "services.soma_register"@,
        "loom.list_runs"@,
        "thymus.get_metrics"@,
        "handoffs.store"@,
        "handoffs.dump"@,
        "handoffs.list"@,
        "handoffs.latest"@,
        "handoffs.search"@,
        "sessions.get"@,
        "sessions.append"@,
        "sessions.list_sessions"@,
        "sessions.create_session"@,
        "sessions.stream"@,
        "scratchpad.list"@,
        "scratchpad.put"@,
        "scratchpad.delete_key"@,
        "scratchpad.delete_session"@,
        "scratchpad.promote"@,
        "prompts.generate"@,
        "context.generate_prompt"@,
        "prompts.header"@,
        "context.get_header"@,
        "mcp_schema.get"@,
        "errors.report"@,
        "agents.verify"@,
    ]
}

/// The curated daily-driver tool names exposed through `tools/list`.
pub fn daily_tools() -> (t: Vec<&'static str>)
    ensures
        t@.len() == daily_tool_names().len(),
        forall|i: int| 0 <= i < t@.len() ==> (#[trigger] t@[i])@ == daily_tool_names()[i],
{
    let mut t: Vec<&'static str> = Vec::new();
    t.push("memory.store");
    t.push("memory_store");
    t.push("memory.search");
    t.push("memory_search");
    t.push("memory_search_preset");
    t.push("memory.get");
    t.push("memory.list");
    t.push("memory_list");
    t.push("memory.recall");
    t.push("memory_recall");
    t.push("skill.search");
    t.push("skill_search");
    t.push("skill.execute");
    t.push("skill_execute");
    t.push("skills.find_skills");
    t.push("skills.usage_stats");
    t.push("activity.report");
    t.push("tasks.list");
    t.push("tasks.create");
    t.push("services.chiasm_create_task");
    t.push("tasks.feed");
    t.push("tasks.get_task");
    t.push("tasks.update_task");
    t.push("tasks.update");
    t.push("services.chiasm_update_task");
    t.push("broca.feed");
    t.push("axon.list_events");
    t.push("services.axon_consume");
    t.push("soma.list_agents");
    t.push("soma.create_agent");
    t.push("soma.register");
    t.push("services.soma_register");
    t.push("loom.list_runs");
    t.push("thymus.get_metrics");
    t.push("handoffs.store");
    t.push("handoffs.dump");
    t.push("handoffs.list");
    t.push("handoffs.latest");
    t.push("handoffs.search");
    t.push("sessions.get");
    t.push("sessions.append");
    t.push("sessions.list_sessions");
    t.push("sessions.create_session");
    t.push("sessions.stream");
    t.push("scratchpad.list");
    t.push("scratchpad.put");
    t.push("scratchpad.delete_key");
    t.push("scratchpad.delete_session");
    t.push("scratchpad.promote");
    t.push("prompts.generate");
    t.push("context.generate_prompt");
    t.push("prompts.header");
    t.push("context.get_header");
    t.push("mcp_schema.get");
    t.push("errors.report");
    t.push("agents.verify");
    t
}

/// `name` with every `.` replaced by `_`.
pub open spec fn underscore(name: Seq<char>) -> Seq<char> {
    name.map_values(|c: char| if c == '.' {
        '_'
    } else {
        c
    })
}

/// Names in underscore form hold no `.`, which MCP clients reject, and keep
/// every other character in place.
pub proof fn lemma_underscore_has_no_dots(name: Seq<char>)
    ensures
        underscore(name).len() == name.len(),
        forall|j: int| 0 <= j < name.len() ==> #[trigger] underscore(name)[j] != '.',
        forall|j: int| 0 <= j < name.len() && name[j] != '.' ==> #[trigger] underscore(name)[j] == name[j],
{
}

/// `name` in the underscore form MCP clients accept.
pub fn underscore_name(name: &str) -> (out: String)
    ensures
        out@ == underscore(name@),
{
    let cs = chars_of(name);
    let mut out: Vec<char> = Vec::new();
    let n = cs.len();
    let mut i: usize = 0;
    while i < n
        invariant
            n == cs@.len(),
            i <= n,
            out@ == underscore(cs@.take(i as int)),
        decreases n - i,
    {
        let c = cs[i];
        out.push(if c == '.' {
            '_'
        } else {
            c
        });
        assert(out@ =~= underscore(cs@.take(i + 1)));
        i = i + 1;
    }
    assert(cs@.take(n as int) =~= cs@);
    string_from_chars(out.as_slice())
}

/// The error a tool call gets when no route has the tool's name.
pub fn unknown_tool_message(name: &str) -> (m: String)
    ensures
        m@ == "unknown tool: "@ + name@,
{
    let mut m = "unknown tool: ".to_owned();
    m.append(name);
    m
}

/// Whether some entry of `picks` is named `name`.
pub open spec fn lists_name(picks: Seq<(int, Seq<char>)>, name: Seq<char>) -> bool {
    exists|k: int| 0 <= k < picks.len() && (#[trigger] picks[k]).1 == name
}

/// The registry listing: for each curated name, in order, whose route was
/// found, the route's name in underscore form, unless an earlier entry
/// already lists that name. Entries carry the position of their curated name.
pub open spec fn registry_picks(routes: Seq<Option<Seq<char>>>) -> Seq<(int, Seq<char>)>
    decreases routes.len(),
{
    if routes.len() == 0 {
        seq![]
    } else {
        let p = registry_picks(routes.drop_last());
        match routes.last() {
            Some(route) => if lists_name(p, underscore(route)) {
                p
            } else {
                p.push((routes.len() - 1, underscore(route)))
            },
            None => p,
        }
    }
}

/// Views of found routes.
pub open spec fn route_views(routes: Seq<Option<String>>) -> Seq<Option<Seq<char>>> {
    routes.map_values(|r: Option<String>| match r {
        Some(s) => Some(s@),
        None => None,
    })
}

/// The registry listing for the routes the curated names resolved to, each
/// given by its canonical name, or `None` for a name with no route.
pub fn select_registry(routes: &Vec<Option<String>>) -> (picks: Vec<(usize, String)>)
    ensures
        picks@.len() == registry_picks(route_views(routes@)).len(),
        forall|k: int|
            0 <= k < picks@.len() ==> (#[trigger] picks@[k]).0 as int == registry_picks(
                route_views(routes@),
            )[k].0 && picks@[k].1@ == registry_picks(route_views(routes@))[k].1,
{
    let mut picks: Vec<(usize, String)> = Vec::new();
    let ghost rv = route_views(routes@);
    let n = routes.len();
    let mut i: usize = 0;
    while i < n
        invariant
            n == routes@.len(),
            rv == route_views(routes@),
            i <= n,
            picks@.len() == registry_picks(rv.take(i as int)).len(),
            forall|k: int|
                0 <= k < picks@.len() ==> (#[trigger] picks@[k]).0 as int == registry_picks(
                    rv.take(i as int),
                )[k].0 && picks@[k].1@ == registry_picks(rv.take(i as int))[k].1,
        decreases n - i,
    {
        let ghost before = registry_picks(rv.take(i as int));
        proof {
            assert(rv.take(i + 1).drop_last() =~= rv.take(i as int));
            assert(rv.take(i + 1).last() == rv[i as int]);
        }
        match &routes[i] {
            Some(route) => {
                let name = underscore_name(route.as_str());
                let m = picks.len();
                let mut j: usize = 0;
                let mut seen = false;
                while j < m
                    invariant
                        m == picks@.len(),
                        j <= m,
                        seen == exists|k: int| 0 <= k < j && (#[trigger] picks@[k]).1@ == name@,
                    decreases m - j,
                {
                    if picks[j].1 == name {
                        seen = true;
                    }
                    j = j + 1;
                }
                proof {
                    if seen {
                        let k = choose|k: int| 0 <= k < m && (#[trigger] picks@[k]).1@ == name@;
                        assert(before[k].1 == name@);
                        assert(lists_name(before, underscore(route@)));
                    } else {
                        assert forall|k: int| 0 <= k < before.len() implies (#[trigger] before[k]).1 != underscore(route@) by {
                            assert(picks@[k].1@ == before[k].1);
                        }
                    }
                }
                if !seen {
                    picks.push((i, name));
                    proof {
                        let after = registry_picks(rv.take(i + 1));
                        assert(after == before.push((i as int, underscore(route@))));
                    }
                }
            },
            None => {},
        }
        i = i + 1;
    }
    assert(rv.take(n as int) =~= rv);
    picks
}

/// The registry lists each tool once: no two entries share a name; every
/// entry is the underscore name of the route its curated name resolved to,
/// in curated order; and every route found is listed under its underscore
/// name.
pub proof fn lemma_registry_exactly_once(routes: Seq<Option<Seq<char>>>)
    ensures
        ({
            let p = registry_picks(routes);
            &&& forall|j: int, k: int|
                0 <= j < k < p.len() ==> (#[trigger] p[j]).1 != (#[trigger] p[k]).1 && p[j].0 < p[k].0
            &&& forall|k: int|
                0 <= k < p.len() ==> 0 <= (#[trigger] p[k]).0 < routes.len() && routes[p[k].0] is Some
                    && underscore(routes[p[k].0].unwrap()) == p[k].1
            &&& forall|i: int|
                0 <= i < routes.len() && (#[trigger] routes[i]) is Some ==> lists_name(
                    p,
                    underscore(routes[i].unwrap()),
                )
        }),
    decreases routes.len(),
{
    if routes.len() > 0 {
        let prev = routes.drop_last();
        lemma_registry_exactly_once(prev);
        let p0 = registry_picks(prev);
        let p = registry_picks(routes);
        assert forall|i: int| 0 <= i < routes.len() && (#[trigger] routes[i]) is Some implies lists_name(
            p,
            underscore(routes[i].unwrap()),
        ) by {
            if i < routes.len() - 1 {
                assert(prev[i] == routes[i]);
                let k = choose|k: int| 0 <= k < p0.len() && (#[trigger] p0[k]).1 == underscore(routes[i].unwrap());
                assert(p[k] == p0[k]);
            } else {
                if !lists_name(p0, underscore(routes[i].unwrap())) {
                    assert(p[p0.len() as int].1 == underscore(routes[i].unwrap()));
                } else {
                    let k = choose|k: int| 0 <= k < p0.len() && (#[trigger] p0[k]).1 == underscore(routes[i].unwrap());
                    assert(p[k] == p0[k]);
                }
            }
        }
        assert forall|k: int| 0 <= k < p.len() implies 0 <= (#[trigger] p[k]).0 < routes.len() && routes[p[k].0] is Some
            && underscore(routes[p[k].0].unwrap()) == p[k].1 by {
            if k < p0.len() {
                assert(p[k] == p0[k]);
                assert(routes[p0[k].0] == prev[p0[k].0]);
            }
        }
    }
}

/// The object-shaped schema a route falls back to when its schema text is no
/// JSON: `{"additionalProperties": true, "type": "object"}`, members in the
/// order serde_json keeps them.
pub open spec fn is_default_schema(v: JsonValue) -> bool {
    &&& v matches JsonValue::Object(m)
    &&& m@.len() == 2
    &&& m@[0].0@ == "additionalProperties"@
    &&& m@[0].1 == JsonValue::Bool(true)
    &&& m@[1].0@ == "type"@
    &&& m@[1].1 matches JsonValue::Str(t) && t@ == "object"@
}

/// A route's input schema: its schema text parsed as JSON, or the
/// object-shaped default when the text does not parse.
pub fn route_schema(input_schema: &str) -> (r: JsonValue)
    ensures
        match json_parse(input_schema@) {
            Some(v) => r == v,
            None => is_default_schema(r),
        },
{
    match parse_json(input_schema) {
        Ok(v) => v,
        Err(_) => {
            let mut m: Vec<(String, JsonValue)> = Vec::new();
            m.push(("additionalProperties".to_owned(), JsonValue::Bool(true)));
            m.push(("type".to_owned(), JsonValue::Str("object".to_owned())));
            JsonValue::Object(m)
        },
    }
}

/// An MCP `tools/list` entry: an object with the tool's `description`,
/// `inputSchema` and `name`, members in the order serde_json keeps them.
pub open spec fn is_registry_entry(v: JsonValue, name: Seq<char>, description: Seq<char>, schema: JsonValue) -> bool {
    &&& v matches JsonValue::Object(m)
    &&& m@.len() == 3
    &&& text_member_is(m@[0], "description"@, description)
    &&& member_is(m@[1], "inputSchema"@, schema)
    &&& text_member_is(m@[2], "name"@, name)
}

/// The `tools/list` entry of a tool listed under `name`, backed by a route
/// with `description` and input `schema`.
pub fn registry_entry(name: &str, description: &str, schema: JsonValue) -> (v: JsonValue)
    ensures
        is_registry_entry(v, name@, description@, schema),
{
    let mut m: Vec<(String, JsonValue)> = Vec::new();
    m.push(text_member("description", description));
    m.push(("inputSchema".to_owned(), schema));
    m.push(text_member("name", name));
    JsonValue::Object(m)
}

} // verus!

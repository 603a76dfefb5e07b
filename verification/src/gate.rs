//! The memory gate: what the LLM curator is shown, how its reply is cleaned
//! before it is parsed as a verdict, which turns of a batch come back with a
//! verdict, and what gets stored for an approved one.

use vstd::prelude::*;

use crate::json::{int_number, json_int, member_is, text_member, text_member_is, JsonValue};
use crate::text::{opt_view, 
    chars_of, occurs_at, starts_with, string_from_chars, strip_prefixes,
    strip_prefixes_chars, strip_suffixes, strip_suffixes_chars, sub_chars, trim, trim_chars, views,
};

verus! {

/// The curator's decision on one turn.
pub struct Verdict {
    pub store: bool,
    pub category: Option<String>,
    pub importance: Option<i32>,
    pub summary: Option<String>,
}

/// A turn together with the verdict the curator gave it.
pub struct GateResult {
    pub verdict: Verdict,
    pub original_text: String,
    pub session_id: String,
    pub project: String,
}

/// An assistant turn waiting for the curator.
pub struct PendingTurn {
    pub text: String,
    pub session_id: String,
    pub project: String,
}

/// The instructions the curator model receives with every turn.
pub const GATE_SYSTEM_PROMPT: &'static str = "\
You are a memory curator for a developer's AI coding assistant. \
Given a message from a coding session, decide if it contains information worth remembering long-term.

STORE if it contains: decisions made, preferences stated, problems solved with the solution, \
infrastructure facts discovered, deployment outcomes, architecture choices, credentials/access info \
(redacted references only), or lessons learned from debugging.

SKIP if it is: routine troubleshooting steps without a conclusion, generic explanations of how \
things work, conversational filler, raw tool output without interpretation, questions without answers, \
content that only makes sense in the immediate session context, or step-by-step instructions that \
are easily re-derived.

Respond with JSON only, no markdown fencing:
{\"store\": true, \"category\": \"decision|infrastructure|issue|reference|state\", \"importance\": 1-9, \"summary\": \"one-line distillation\"}
or
{\"store\": false}";

/// Characters of a turn shown to the curator.
pub const GATE_INPUT_CHARS: usize = 1500;

/// Token budget of the curator's reply.
pub const GATE_MAX_TOKENS: u32 = 150;

/// Milliseconds the curator may take.
pub const GATE_TIMEOUT_MS: u64 = 15000;

/// The text shown to the curator: the first `GATE_INPUT_CHARS` characters.
pub open spec fn gate_input(text: Seq<char>) -> Seq<char> {
    if text.len() <= GATE_INPUT_CHARS {
        text
    } else {
        text.take(GATE_INPUT_CHARS as int)
    }
}

/// The curator's reply as it is parsed: trimmed, and when it opens with a
/// Markdown fence, without its ```` ```json ```` / ```` ``` ```` openers and
/// ```` ``` ```` closers, trimmed again.
pub open spec fn cleaned_reply(reply: Seq<char>) -> Seq<char> {
    let c = trim(reply);
    if starts_with(c, "```"@) {
        trim(strip_suffixes(strip_prefixes(strip_prefixes(c, "```json"@), "```"@), "```"@))
    } else {
        c
    }
}

/// A batch's results: each turn whose evaluation produced a verdict, paired
/// with it, in turn order; turns whose evaluation failed are skipped.
pub open spec fn batch_results(turns: Seq<PendingTurn>, verdicts: Seq<Option<Verdict>>) -> Seq<GateResult>
    decreases turns.len(),
{
    if turns.len() == 0 || verdicts.len() == 0 {
        seq![]
    } else {
        let r = batch_results(turns.drop_last(), verdicts.drop_last());
        match verdicts.last() {
            Some(v) => r.push(GateResult {
                verdict: v,
                original_text: turns.last().text,
                session_id: turns.last().session_id,
                project: turns.last().project,
            }),
            None => r,
        }
    }
}

/// The LLM quality gate for session turns.
pub struct MemoryGate {
    /// Model the curator runs on; the client's default when `None`.
    pub model: Option<String>,
}

fn clone_opt_string(o: &Option<String>) -> (r: Option<String>)
    ensures
        r == *o,
{
    match o {
        Some(s) => Some(s.clone()),
        None => None,
    }
}

fn clone_verdict(v: &Verdict) -> (r: Verdict)
    ensures
        r == *v,
{
    Verdict {
        store: v.store,
        category: clone_opt_string(&v.category),
        importance: v.importance,
        summary: clone_opt_string(&v.summary),
    }
}

impl MemoryGate {
    /// A gate curating with `model`.
    pub fn new(model: Option<String>) -> (g: MemoryGate)
        ensures
            g.model == model,
    {
        MemoryGate { model }
    }

    /// The text of a turn as the curator is shown it.
    pub fn prompt_text(text: &str) -> (out: String)
        ensures
            out@ == gate_input(text@),
    {
        let cs = chars_of(text);
        if cs.len() <= GATE_INPUT_CHARS {
            string_from_chars(cs.as_slice())
        } else {
            let head = sub_chars(&cs, 0, GATE_INPUT_CHARS);
            string_from_chars(head.as_slice())
        }
    }

    /// The curator's reply ready to parse as a verdict, with any Markdown
    /// fence the model added removed.
    pub fn clean_reply(reply: &str) -> (out: String)
        ensures
            out@ == cleaned_reply(reply@),
    {
        let c = trim_chars(&chars_of(reply));
        let fence = chars_of("```");
        let fence_json = chars_of("```json");
        proof {
            reveal_strlit("```");
            reveal_strlit("```json");
        }
        if occurs_at(&c, &fence, 0) {
            assert(c@.skip(0) =~= c@);
            let a = strip_prefixes_chars(&c, &fence_json);
            let b = strip_prefixes_chars(&a, &fence);
            let d = strip_suffixes_chars(&b, &fence);
            let e = trim_chars(&d);
            string_from_chars(e.as_slice())
        } else {
            assert(c@.skip(0) =~= c@);
            string_from_chars(c.as_slice())
        }
    }

    /// Pairs each turn of a batch with the verdict its evaluation produced,
    /// dropping the turns whose evaluation failed.
    pub fn collect_results(turns: &Vec<PendingTurn>, verdicts: &Vec<Option<Verdict>>) -> (results: Vec<GateResult>)
        requires
            turns@.len() == verdicts@.len(),
        ensures
            results@ == batch_results(turns@, verdicts@),
    {
        let mut results: Vec<GateResult> = Vec::new();
        let n = turns.len();
        let mut i: usize = 0;
        while i < n
            invariant
                n == turns@.len(),
                n == verdicts@.len(),
                i <= n,
                results@ == batch_results(turns@.take(i as int), verdicts@.take(i as int)),
            decreases n - i,
        {
            proof {
                assert(turns@.take(i + 1).drop_last() =~= turns@.take(i as int));
                assert(verdicts@.take(i + 1).drop_last() =~= verdicts@.take(i as int));
                assert(turns@.take(i + 1).last() == turns@[i as int]);
                assert(verdicts@.take(i + 1).last() == verdicts@[i as int]);
            }
            match &verdicts[i] {
                Some(v) => {
                    let t = &turns[i];
                    results.push(
                        GateResult {
                            verdict: clone_verdict(v),
                            original_text: t.text.clone(),
                            session_id: t.session_id.clone(),
                            project: t.project.clone(),
                        },
                    );
                },
                None => {},
            }
            i = i + 1;
        }
        assert(turns@.take(n as int) =~= turns@);
        assert(verdicts@.take(n as int) =~= verdicts@);
        results
    }
}

/// The curator is shown the start of the turn: its first
/// `GATE_INPUT_CHARS` characters, or all of a shorter turn, character for
/// character.
pub proof fn lemma_gate_input_is_head(text: Seq<char>)
    ensures
        gate_input(text).len() == if text.len() <= GATE_INPUT_CHARS {
            text.len()
        } else {
            GATE_INPUT_CHARS as nat
        },
        forall|i: int| 0 <= i < gate_input(text).len() ==> #[trigger] gate_input(text)[i] == text[i],
{
}

/// The positions of the turns whose evaluation produced a verdict, in order.
pub open spec fn verdict_positions(verdicts: Seq<Option<Verdict>>) -> Seq<int>
    decreases verdicts.len(),
{
    if verdicts.len() == 0 {
        seq![]
    } else {
        let r = verdict_positions(verdicts.drop_last());
        if verdicts.last() is Some {
            r.push(verdicts.len() - 1)
        } else {
            r
        }
    }
}

/// Every result of a batch is one of its turns with that turn's own verdict,
/// field for field; results come in turn order; and every turn that got a
/// verdict has its result.
pub proof fn lemma_results_pair_turns_with_their_verdicts(turns: Seq<PendingTurn>, verdicts: Seq<Option<Verdict>>)
    requires
        turns.len() == verdicts.len(),
    ensures
        ({
            let results = batch_results(turns, verdicts);
            let pos = verdict_positions(verdicts);
            &&& pos.len() == results.len()
            &&& forall|k: int| 0 <= k < pos.len() ==> {
                &&& 0 <= #[trigger] pos[k] < turns.len()
                &&& verdicts[pos[k]] == Some(results[k].verdict)
                &&& results[k].original_text == turns[pos[k]].text
                &&& results[k].session_id == turns[pos[k]].session_id
                &&& results[k].project == turns[pos[k]].project
            }
            &&& forall|a: int, b: int| 0 <= a < b < pos.len() ==> #[trigger] pos[a] < #[trigger] pos[b]
            &&& forall|j: int| 0 <= j < verdicts.len() && (#[trigger] verdicts[j]) is Some ==> exists|k: int|
                0 <= k < pos.len() && pos[k] == j
        }),
    decreases turns.len(),
{
    if turns.len() > 0 {
        let t0 = turns.drop_last();
        let v0 = verdicts.drop_last();
        lemma_results_pair_turns_with_their_verdicts(t0, v0);
        let r0 = batch_results(t0, v0);
        let p0 = verdict_positions(v0);
        let results = batch_results(turns, verdicts);
        let pos = verdict_positions(verdicts);
        let n = turns.len() - 1;
        assert forall|k: int| 0 <= k < p0.len() implies turns[p0[k]] == t0[p0[k]] && verdicts[p0[k]] == v0[p0[k]] by {}
        assert forall|k: int| 0 <= k < pos.len() implies {
            &&& 0 <= #[trigger] pos[k] < turns.len()
            &&& verdicts[pos[k]] == Some(results[k].verdict)
            &&& results[k].original_text == turns[pos[k]].text
            &&& results[k].session_id == turns[pos[k]].session_id
            &&& results[k].project == turns[pos[k]].project
        } by {
            if k < p0.len() {
                assert(pos[k] == p0[k]);
                assert(results[k] == r0[k]);
                assert(0 <= p0[k] < t0.len());
            }
        }
        assert forall|j: int| 0 <= j < verdicts.len() && (#[trigger] verdicts[j]) is Some implies exists|k: int|
            0 <= k < pos.len() && pos[k] == j by {
            if j < n {
                assert(v0[j] == verdicts[j]);
                let k = choose|k: int| 0 <= k < p0.len() && p0[k] == j;
                assert(pos[k] == p0[k]);
            } else {
                assert(pos[pos.len() - 1] == n);
            }
        }
    }
}

/// The memory the watcher stores for a gate-approved turn.
pub struct GateStoreRequest {
    pub content: String,
    pub category: String,
    pub source: String,
    pub importance: i32,
    pub tags: Vec<String>,
    pub user_id: i64,
    /// The `Authorization` header the request carries, when an API key is set.
    pub authorization: Option<String>,
}

/// The `Authorization` header for a Kleos API key: `Bearer ` and the key.
pub open spec fn bearer_header(key: Option<Seq<char>>) -> Option<Seq<char>> {
    match key {
        Some(k) => Some("Bearer "@ + k),
        None => None,
    }
}

/// The `Authorization` header a store request carries: `Bearer <key>` when
/// an API key is set, none otherwise.
pub fn store_auth_header(key: Option<&str>) -> (h: Option<String>)
    ensures
        opt_view(h) == bearer_header(
            match key {
                Some(k) => Some(k@),
                None => None,
            },
        ),
{
    match key {
        Some(k) => {
            let mut h = "Bearer ".to_owned();
            h.append(k);
            Some(h)
        },
        None => None,
    }
}

/// The JSON body of a store request: an object with its `category`,
/// `content`, `importance`, `source`, `tags` and `user_id`, members in the
/// order serde_json keeps them; the header travels apart from the body.
pub open spec fn is_store_body(v: JsonValue, req: GateStoreRequest) -> bool {
    &&& v matches JsonValue::Object(m)
    &&& m@.len() == 6
    &&& text_member_is(m@[0], "category"@, req.category@)
    &&& text_member_is(m@[1], "content"@, req.content@)
    &&& member_is(m@[2], "importance"@, JsonValue::Number(json_int(req.importance as i64)))
    &&& text_member_is(m@[3], "source"@, req.source@)
    &&& m@[4].0@ == "tags"@
    &&& m@[4].1 matches JsonValue::Array(a) && a@.len() == req.tags@.len() && forall|i: int|
        0 <= i < a@.len() ==> (#[trigger] a@[i] matches JsonValue::Str(t) && t@ == req.tags@[i]@)
    &&& member_is(m@[5], "user_id"@, JsonValue::Number(json_int(req.user_id)))
}

/// The JSON body posted for a store request.
pub fn store_body(req: &GateStoreRequest) -> (v: JsonValue)
    ensures
        is_store_body(v, *req),
{
    let mut tags: Vec<JsonValue> = Vec::new();
    let n = req.tags.len();
    let mut i: usize = 0;
    while i < n
        invariant
            n == req.tags@.len(),
            i <= n,
            tags@.len() == i,
            forall|j: int| 0 <= j < i ==> (#[trigger] tags@[j] matches JsonValue::Str(t) && t@ == req.tags@[j]@),
        decreases n - i,
    {
        tags.push(JsonValue::Str(req.tags[i].clone()));
        i = i + 1;
    }
    let mut m: Vec<(String, JsonValue)> = Vec::new();
    m.push(text_member("category", req.category.as_str()));
    m.push(text_member("content", req.content.as_str()));
    m.push(("importance".to_owned(), JsonValue::Number(int_number(req.importance as i64))));
    m.push(text_member("source", req.source.as_str()));
    m.push(("tags".to_owned(), JsonValue::Array(tags)));
    m.push(("user_id".to_owned(), JsonValue::Number(int_number(req.user_id))));
    JsonValue::Object(m)
}

/// The store endpoint under a Kleos base URL.
pub open spec fn store_endpoint(base: Seq<char>) -> Seq<char> {
    base + "/store"@
}

/// The store endpoint under `kleos_url`.
pub fn store_url(kleos_url: &str) -> (url: String)
    ensures
        url@ == store_endpoint(kleos_url@),
{
    let mut url = kleos_url.to_owned();
    url.append("/store");
    url
}

/// The memory stored for a gate result, or `None` when the verdict rejects
/// the turn: the summary (else the turn's text) under the verdict's category
/// (else `"session"`) and importance (else 3), sourced and tagged with the
/// project and session, with a bearer `Authorization` header when `api_key`
/// is set.
pub fn store_request(result: &GateResult, user_id: i64, api_key: Option<&str>) -> (req: Option<GateStoreRequest>)
    ensures
        !result.verdict.store ==> req is None,
        result.verdict.store ==> (req matches Some(r) && {
            &&& r.content@ == match result.verdict.summary {
                Some(s) => s@,
                None => result.original_text@,
            }
            &&& r.category@ == match result.verdict.category {
                Some(c) => c@,
                None => "session"@,
            }
            &&& r.importance == match result.verdict.importance {
                Some(i) => i,
                None => 3i32,
            }
            &&& r.source@ == "sidecar-gate:"@ + result.project@
            &&& views(r.tags@) == seq!["sidecar-gate"@, result.project@, result.session_id@]
            &&& r.user_id == user_id
            &&& opt_view(r.authorization) == bearer_header(
                match api_key {
                    Some(k) => Some(k@),
                    None => None,
                },
            )
        }),
{
    if !result.verdict.store {
        return None;
    }
    let v = &result.verdict;
    let content = match &v.summary {
        Some(s) => s.clone(),
        None => result.original_text.clone(),
    };
    let category = match &v.category {
        Some(c) => c.clone(),
        None => "session".to_owned(),
    };
    let importance = match v.importance {
        Some(i) => i,
        None => 3,
    };
    let mut source = "sidecar-gate:".to_owned();
    source.append(result.project.as_str());
    let mut tags: Vec<String> = Vec::new();
    tags.push("sidecar-gate".to_owned());
    tags.push(result.project.clone());
    tags.push(result.session_id.clone());
    assert(views(tags@) =~= seq!["sidecar-gate"@, result.project@, result.session_id@]);
    let authorization = store_auth_header(api_key);
    Some(GateStoreRequest { content, category, source, importance, tags, user_id, authorization })
}

} // verus!

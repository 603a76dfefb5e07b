//! Broca action log: narration of actions from templates, normalisation of a
//! log request into the row to insert, and the statements that read the log
//! back for one tenant.

use vstd::prelude::*;

use crate::json::{compact_json, json_compact, json_parse, parse_json, JsonValue};
use crate::text::{
    chars_of, decimal, decimal_chars, extend_chars, lemma_replace_absent, occurs_in, opt_view,
    replace_all, replace_chars, signed_decimal, signed_decimal_chars, str_eq, string_from_chars,
};

verus! {

/// The narration templates, keyed by action type. Each `{{key}}` placeholder
/// is filled from the action payload's member `key`.
pub open spec fn templates() -> Seq<(Seq<char>, Seq<char>)> {
    seq![
        ("task.created"@, "{{agent}} started a new task: \"{{title}}\" in {{project}}"@),
        ("task.updated"@, "\"{{title}}\" status is now {{status}}"@),
        ("task.completed"@, "\"{{title}}\" was completed by {{agent}}"@),
        ("task.blocked"@, "\"{{title}}\" is blocked: {{reason}}"@),
        ("task.blocked_on_human"@, "\"{{title}}\" is waiting for human approval: {{summary}}"@),
        ("task.feedback"@, "Human feedback on \"{{title}}\": \"{{feedback}}\""@),
        ("task.output"@, "Output submitted for \"{{title}}\""@),
        ("task.plan"@, "A plan was generated for \"{{title}}\""@),
        ("workflow.run.created"@, "{{agent}} started the \"{{workflow}}\" workflow"@),
        ("workflow.run.completed"@, "The \"{{workflow}}\" workflow finished successfully"@),
        ("workflow.run.failed"@, "The \"{{workflow}}\" workflow failed on step \"{{failed_step}}\": {{error}}"@),
        ("workflow.run.cancelled"@, "The \"{{workflow}}\" workflow was cancelled"@),
        ("workflow.step.started"@, "Step \"{{step}}\" started in the \"{{workflow}}\" workflow"@),
        ("workflow.step.completed"@, "Step \"{{step}}\" finished in the \"{{workflow}}\" workflow"@),
        ("workflow.step.failed"@, "Step \"{{step}}\" failed in the \"{{workflow}}\" workflow: {{error}}"@),
        ("agent.registered"@, "{{name}} came online as a {{type}}"@),
        ("agent.deregistered"@, "{{name}} went offline"@),
        ("agent.online"@, "{{agent}} is online"@),
        ("agent.offline"@, "{{agent}} went offline"@),
        ("agent.heartbeat"@, "{{agent}} checked in"@),
        ("agent.error"@, "{{agent}} reported an error: {{error}}"@),
        ("memory.stored"@, "{{source}} stored a memory ({{category}})"@),
        ("memory.searched"@, "{{agent}} searched memory for \"{{query}}\""@),
        ("memory.linked"@, "Two memories were linked together"@),
        ("memory.forgotten"@, "A memory was removed"@),
        ("evaluation.completed"@, "{{agent}}'s work on \"{{subject}}\" was evaluated using the {{rubric}} rubric"@),
        ("metric.recorded"@, "{{agent}} recorded {{metric}}: {{value}}"@),
        ("system.started"@, "{{service}} started up"@),
        ("system.stopped"@, "{{service}} shut down"@),
        ("deploy.started"@, "Deployment started for {{service}}"@),
        ("deploy.succeeded"@, "{{service}} deployed successfully"@),
        ("deploy.failed"@, "Deployment failed for {{service}}: {{error}}"@),
        ("deploy.rolled_back"@, "{{service}} was rolled back"@),
        ("alert.triggered"@, "Alert triggered: {{message}}"@),
    ]
}

/// The template registered for `action`: the first entry keyed by it.
pub open spec fn template_from(action: Seq<char>, i: int) -> Option<Seq<char>>
    decreases templates().len() - i,
{
    if i < 0 || i >= templates().len() {
        None
    } else if templates()[i].0 == action {
        Some(templates()[i].1)
    } else {
        template_from(action, i + 1)
    }
}

/// The template registered for `action`, if any.
pub open spec fn template_of(action: Seq<char>) -> Option<Seq<char>> {
    template_from(action, 0)
}

/// A template is found only for an action that is exactly one of the
/// registered keys, and it is the template registered under that key: no
/// action gets the template of a different key, such as one it merely starts
/// with. Every registered key has a template.
pub proof fn lemma_template_exact_key(action: Seq<char>)
    ensures
        template_of(action) matches Some(t) ==> exists|i: int|
            0 <= i < templates().len() && #[trigger] templates()[i].0 == action && templates()[i].1 == t,
        template_of(action) is Some <==> exists|i: int| 0 <= i < templates().len() && #[trigger] templates()[i].0 == action,
{
    lemma_template_from_exact(action, 0);
}

proof fn lemma_template_from_exact(action: Seq<char>, i: int)
    requires
        0 <= i <= templates().len(),
    ensures
        template_from(action, i) matches Some(t) ==> exists|j: int|
            i <= j < templates().len() && #[trigger] templates()[j].0 == action && templates()[j].1 == t,
        template_from(action, i) is Some <==> exists|j: int| i <= j < templates().len() && #[trigger] templates()[j].0 == action,
    decreases templates().len() - i,
{
    if i < templates().len() {
        lemma_template_from_exact(action, i + 1);
        if templates()[i].0 == action {
            assert(template_from(action, i) == Some(templates()[i].1));
        } else {
            assert forall|j: int| i <= j < templates().len() && #[trigger] templates()[j].0 == action implies i + 1 <= j by {}
        }
    }
}

fn template_table() -> (t: Vec<(&'static str, &'static str)>)
    ensures
        t@.len() == templates().len(),
        forall|i: int| 0 <= i < t@.len() ==> (#[trigger] t@[i]).0@ == templates()[i].0 && t@[i].1@ == templates()[i].1,
{
    let mut t: Vec<(&'static str, &'static str)> = Vec::new();
    t.push(("task.created", "{{agent}} started a new task: \"{{title}}\" in {{project}}"));
    t.push(("task.updated", "\"{{title}}\" status is now {{status}}"));
    t.push(("task.completed", "\"{{title}}\" was completed by {{agent}}"));
    t.push(("task.blocked", "\"{{title}}\" is blocked: {{reason}}"));
    t.push(("task.blocked_on_human", "\"{{title}}\" is waiting for human approval: {{summary}}"));
    t.push(("task.feedback", "Human feedback on \"{{title}}\": \"{{feedback}}\""));
    t.push(("task.output", "Output submitted for \"{{title}}\""));
    t.push(("task.plan", "A plan was generated for \"{{title}}\""));
    t.push(("workflow.run.created", "{{agent}} started the \"{{workflow}}\" workflow"));
    t.push(("workflow.run.completed", "The \"{{workflow}}\" workflow finished successfully"));
    t.push(("workflow.run.failed", "The \"{{workflow}}\" workflow failed on step \"{{failed_step}}\": {{error}}"));
    t.push(("workflow.run.cancelled", "The \"{{workflow}}\" workflow was cancelled"));
    t.push(("workflow.step.started", "Step \"{{step}}\" started in the \"{{workflow}}\" workflow"));
    t.push(("workflow.step.completed", "Step \"{{step}}\" finished in the \"{{workflow}}\" workflow"));
    t.push(("workflow.step.failed", "Step \"{{step}}\" failed in the \"{{workflow}}\" workflow: {{error}}"));
    t.push(("agent.registered", "{{name}} came online as a {{type}}"));
    t.push(("agent.deregistered", "{{name}} went offline"));
    t.push(("agent.online", "{{agent}} is online"));
    t.push(("agent.offline", "{{agent}} went offline"));
    t.push(("agent.heartbeat", "{{agent}} checked in"));
    t.push(("agent.error", "{{agent}} reported an error: {{error}}"));
    t.push(("memory.stored", "{{source}} stored a memory ({{category}})"));
    t.push(("memory.searched", "{{agent}} searched memory for \"{{query}}\""));
    t.push(("memory.linked", "Two memories were linked together"));
    t.push(("memory.forgotten", "A memory was removed"));
    t.push(("evaluation.completed", "{{agent}}'s work on \"{{subject}}\" was evaluated using the {{rubric}} rubric"));
    t.push(("metric.recorded", "{{agent}} recorded {{metric}}: {{value}}"));
    t.push(("system.started", "{{service}} started up"));
    t.push(("system.stopped", "{{service}} shut down"));
    t.push(("deploy.started", "Deployment started for {{service}}"));
    t.push(("deploy.succeeded", "{{service}} deployed successfully"));
    t.push(("deploy.failed", "Deployment failed for {{service}}: {{error}}"));
    t.push(("deploy.rolled_back", "{{service}} was rolled back"));
    t.push(("alert.triggered", "Alert triggered: {{message}}"));
    t
}

/// The template registered for `action`.
pub fn template_for(action: &str) -> (r: Option<&'static str>)
    ensures
        match r {
            Some(t) => template_of(action@) == Some(t@),
            None => template_of(action@) is None,
        },
{
    let table = template_table();
    let n = table.len();
    let mut i: usize = 0;
    while i < n
        invariant
            n == table@.len(),
            n == templates().len(),
            i <= n,
            forall|j: int| 0 <= j < n ==> (#[trigger] table@[j]).0@ == templates()[j].0 && table@[j].1@ == templates()[j].1,
            template_of(action@) == template_from(action@, i as int),
        decreases n - i,
    {
        if str_eq(table[i].0, action) {
            return Some(table[i].1);
        }
        i = i + 1;
    }
    None
}

/// The placeholder `{{key}}`.
pub open spec fn placeholder_for(key: Seq<char>) -> Seq<char> {
    "{{"@ + key + "}}"@
}

/// Views of payload fields.
pub open spec fn field_views(fields: Seq<(String, String)>) -> Seq<(Seq<char>, Seq<char>)> {
    fields.map_values(|f: (String, String)| (f.0@, f.1@))
}

/// `template` with each field's placeholder replaced by the field's text, the
/// fields taken in order, each replacing throughout the text the earlier ones
/// left.
pub open spec fn render(template: Seq<char>, fields: Seq<(Seq<char>, Seq<char>)>) -> Seq<char>
    decreases fields.len(),
{
    if fields.len() == 0 {
        template
    } else {
        replace_all(
            render(template, fields.drop_last()),
            placeholder_for(fields.last().0),
            fields.last().1,
        )
    }
}

/// Placeholders of absent keys stay visible: when no field's placeholder
/// occurs in the template, rendering returns the template unchanged.
pub proof fn lemma_render_keeps_unmatched(template: Seq<char>, fields: Seq<(Seq<char>, Seq<char>)>)
    requires
        forall|i: int| 0 <= i < fields.len() ==> !occurs_in(template, placeholder_for(#[trigger] fields[i].0)),
    ensures
        render(template, fields) == template,
    decreases fields.len(),
{
    if fields.len() > 0 {
        let prev = fields.drop_last();
        assert forall|i: int| 0 <= i < prev.len() implies !occurs_in(template, placeholder_for(#[trigger] prev[i].0)) by {
            assert(prev[i] == fields[i]);
        }
        lemma_render_keeps_unmatched(template, prev);
        assert(!occurs_in(template, placeholder_for(fields[fields.len() - 1].0)));
        lemma_replace_absent(template, placeholder_for(fields.last().0), fields.last().1);
    }
}

/// Fills `template` from `fields`, each `(key, text)` replacing every
/// `{{key}}`; placeholders with no field stay as they are.
pub fn render_template(template: &str, fields: &Vec<(String, String)>) -> (out: String)
    ensures
        out@ == render(template@, field_views(fields@)),
{
    let mut cur = chars_of(template);
    let open = chars_of("{{");
    let close = chars_of("}}");
    proof {
        reveal_strlit("{{");
    }
    assert(open@.len() > 0);
    let n = fields.len();
    let mut i: usize = 0;
    while i < n
        invariant
            n == fields@.len(),
            i <= n,
            open@ == "{{"@,
            close@ == "}}"@,
            open@.len() > 0,
            cur@ == render(template@, field_views(fields@.take(i as int))),
        decreases n - i,
    {
        proof {
            assert(field_views(fields@.take(i + 1)).drop_last() =~= field_views(
                fields@.take(i as int),
            ));
            assert(field_views(fields@.take(i + 1)).last() == (fields@[i as int].0@, fields@[
                i as int].1@));
        }
        let mut pat: Vec<char> = Vec::new();
        extend_chars(&mut pat, &open);
        let key = chars_of(fields[i].0.as_str());
        extend_chars(&mut pat, &key);
        extend_chars(&mut pat, &close);
        let rep = chars_of(fields[i].1.as_str());
        cur = replace_chars(&cur, &pat, &rep);
        i = i + 1;
    }
    assert(fields@.take(n as int) =~= fields@);
    string_from_chars(cur.as_slice())
}

/// The text a payload member fills its placeholder with: a string's own
/// text, any other value's compact JSON.
pub open spec fn member_text(v: JsonValue) -> Seq<char> {
    match v {
        JsonValue::Str(s) => s@,
        _ => json_compact(v),
    }
}

/// The `(key, text)` fields of a payload, in member order; `None` for a
/// payload that is not a JSON object.
pub open spec fn payload_fields(payload: JsonValue) -> Option<Seq<(Seq<char>, Seq<char>)>> {
    match payload {
        JsonValue::Object(members) => Some(
            members@.map_values(|m: (String, JsonValue)| (m.0@, member_text(m.1))),
        ),
        _ => None,
    }
}

/// The `(key, text)` fields of a payload that is a JSON object.
pub fn payload_fields_of(payload: &JsonValue) -> (r: Option<Vec<(String, String)>>)
    ensures
        match r {
            Some(f) => payload_fields(*payload) == Some(field_views(f@)),
            None => payload_fields(*payload) is None,
        },
{
    match payload {
        JsonValue::Object(members) => {
            let mut out: Vec<(String, String)> = Vec::new();
            let n = members.len();
            let mut i: usize = 0;
            while i < n
                invariant
                    n == members@.len(),
                    i <= n,
                    field_views(out@) == members@.take(i as int).map_values(
                        |m: (String, JsonValue)| (m.0@, member_text(m.1)),
                    ),
                decreases n - i,
            {
                let key = members[i].0.clone();
                let text = match &members[i].1 {
                    JsonValue::Str(s) => s.clone(),
                    other => compact_json(other),
                };
                let ghost prev = out@;
                proof {
                    assert(key@ == members@[i as int].0@);
                    assert(text@ == member_text(members@[i as int].1));
                }
                out.push((key, text));
                proof {
                    let want = members@.take(i + 1).map_values(
                        |m: (String, JsonValue)| (m.0@, member_text(m.1)),
                    );
                    let before = members@.take(i as int).map_values(
                        |m: (String, JsonValue)| (m.0@, member_text(m.1)),
                    );
                    assert(field_views(prev) == before);
                    assert(before.len() == i);
                    assert(field_views(prev).len() == prev.len());
                    assert(out@ == prev.push(out@[i as int]));
                    assert forall|j: int| 0 <= j < i implies #[trigger] field_views(out@)[j] == want[j] by {
                        assert(out@[j] == prev[j]);
                        assert(field_views(prev)[j] == before[j]);
                    }
                    assert(field_views(out@)[i as int] == want[i as int]);
                    assert(field_views(out@) =~= want);
                }
                i = i + 1;
            }
            proof {
                assert(members@.take(n as int) =~= members@);
            }
            Some(out)
        },
        _ => None,
    }
}

/// The narrative of `action` given the payload's fields: `None` without a
/// template; the template itself for a payload that is no object; else the
/// template filled from the fields.
pub open spec fn narrative(action: Seq<char>, fields: Option<Seq<(Seq<char>, Seq<char>)>>) -> Option<Seq<char>> {
    match template_of(action) {
        Some(t) => match fields {
            Some(f) => Some(render(t, f)),
            None => Some(t),
        },
        None => None,
    }
}

/// Renders the narrative of `action` from the payload's `(key, text)` fields,
/// `None` standing for a payload that is no JSON object.
pub fn narrate_from_fields(action: &str, fields: Option<&Vec<(String, String)>>) -> (r: Option<String>)
    ensures
        opt_view(r) == narrative(
            action@,
            match fields {
                Some(f) => Some(field_views(f@)),
                None => None,
            },
        ),
{
    let template = match template_for(action) {
        Some(t) => t,
        None => return None,
    };
    match fields {
        Some(f) => Some(render_template(template, f)),
        None => Some(template.to_owned()),
    }
}

/// Renders the narrative of an `action` with `payload`: `None` when no
/// template is registered for the action; otherwise the template with each
/// `{{key}}` filled from the payload's members, missing keys left visible.
pub fn narrate_from_template(action: &str, payload: &JsonValue) -> (r: Option<String>)
    ensures
        opt_view(r) == narrative(action@, payload_fields(*payload)),
{
    let fields = payload_fields_of(payload);
    match &fields {
        Some(f) => narrate_from_fields(action, Some(f)),
        None => narrate_from_fields(action, None),
    }
}

/// One row of the action log.
pub struct ActionEntry {
    pub id: i64,
    pub agent: String,
    pub service: String,
    pub action: String,
    pub payload: JsonValue,
    pub narrative: Option<String>,
    pub axon_event_id: Option<i64>,
    pub user_id: i64,
    pub created_at: String,
}

/// A request to record an action.
pub struct LogActionRequest {
    pub agent: String,
    /// Service name; `"kleos"` when absent.
    pub service: Option<String>,
    pub action: String,
    /// Narrative; rendered from the action's template when absent.
    pub narrative: Option<String>,
    /// Payload; an empty object when absent.
    pub payload: Option<JsonValue>,
    pub axon_event_id: Option<i64>,
    /// Owning tenant; a request without one is refused.
    pub user_id: Option<i64>,
}

/// Aggregate counts over one tenant's actions.
pub struct BrocaStats {
    pub total_actions: i64,
    pub agents: i64,
    pub services: i64,
}

/// Why an action-log operation failed.
pub enum BrocaError {
    InvalidInput(String),
    NotFound(String),
    Database(String),
    Serialization(String),
}

/// The error of a read that found no action with primary key `id`.
pub fn action_not_found(id: i64) -> (e: BrocaError)
    ensures
        e matches BrocaError::NotFound(m) && m@ == "action "@ + signed_decimal(id as int),
{
    let mut m = "action ".to_owned();
    let digits = signed_decimal_chars(id);
    let d = string_from_chars(digits.as_slice());
    m.append(d.as_str());
    BrocaError::NotFound(m)
}

/// The payload of a stored action, parsed from the JSON text the row holds.
/// Text that is no JSON is a serialisation error carrying serde_json's
/// message.
pub fn action_payload(text: &str) -> (r: Result<JsonValue, BrocaError>)
    ensures
        r is Ok <==> json_parse(text@) is Some,
        r matches Ok(v) ==> json_parse(text@) == Some(v),
        r matches Err(e) ==> e is Serialization,
{
    match parse_json(text) {
        Ok(v) => Ok(v),
        Err(m) => Err(BrocaError::Serialization(m)),
    }
}

/// The row a log request inserts, with its defaults resolved.
pub struct NewAction {
    pub agent: String,
    pub service: String,
    pub action: String,
    /// The payload, an empty object when the request brought none.
    pub payload: JsonValue,
    /// The payload as compact JSON text.
    pub payload_json: String,
    pub narrative: Option<String>,
    pub axon_event_id: Option<i64>,
    pub user_id: i64,
}

/// Resolves the defaults of a log request into the row to insert: service
/// `"kleos"`, an empty-object payload, and the template narrative when the
/// request brings none. A request without a tenant is refused.
pub fn prepare_log_action(req: LogActionRequest) -> (r: Result<NewAction, BrocaError>)
    ensures
        req.user_id is None ==> (r matches Err(BrocaError::InvalidInput(m)) && m@
            == "user_id required"@),
        req.user_id is Some ==> r is Ok,
        r matches Ok(row) ==> {
            &&& req.user_id == Some(row.user_id)
            &&& row.agent == req.agent
            &&& row.action == req.action
            &&& row.axon_event_id == req.axon_event_id
            &&& row.service@ == match req.service {
                Some(s) => s@,
                None => "kleos"@,
            }
            &&& match req.payload {
                Some(p) => row.payload == p,
                None => row.payload matches JsonValue::Object(m) && m@.len() == 0,
            }
            &&& row.payload_json@ == json_compact(row.payload)
            &&& opt_view(row.narrative) == match req.narrative {
                Some(n) => Some(n@),
                None => narrative(req.action@, payload_fields(row.payload)),
            }
        },
{
    let LogActionRequest { agent, service, action, narrative, payload, axon_event_id, user_id } = req;
    let service = match service {
        Some(s) => s,
        None => "kleos".to_owned(),
    };
    let payload = match payload {
        Some(p) => p,
        None => JsonValue::Object(Vec::new()),
    };
    let payload_json = compact_json(&payload);
    let user_id = match user_id {
        Some(u) => u,
        None => return Err(BrocaError::InvalidInput("user_id required".to_owned())),
    };
    let narrative = match narrative {
        Some(n) => Some(n),
        None => narrate_from_template(action.as_str(), &payload),
    };
    Ok(NewAction { agent, service, action, payload, payload_json, narrative, axon_event_id, user_id })
}

/// A parameter bound to a SQL statement.
pub enum SqlValue {
    Null,
    Integer(i64),
    Text(String),
}

/// A SQL parameter as a value.
pub enum SqlParam {
    Null,
    Integer(i64),
    Text(Seq<char>),
}

impl View for SqlValue {
    type V = SqlParam;

    open spec fn view(&self) -> SqlParam {
        match self {
            SqlValue::Null => SqlParam::Null,
            SqlValue::Integer(i) => SqlParam::Integer(*i),
            SqlValue::Text(t) => SqlParam::Text(t@),
        }
    }
}

/// A SQL statement and the parameters bound to its `?N` placeholders.
pub struct Statement {
    pub sql: String,
    pub params: Vec<SqlValue>,
}

/// Views of statement parameters.
pub open spec fn param_views(ps: Seq<SqlValue>) -> Seq<SqlParam> {
    ps.map_values(|p: SqlValue| p@)
}

/// The columns every action read selects, in `ActionEntry` field order.
pub open spec fn action_columns() -> Seq<char> {
    "id, agent, service, action, payload, narrative, axon_event_id, user_id, created_at"@
}

/// The placeholder `?n`.
pub open spec fn param_ref(n: nat) -> Seq<char> {
    seq!['?'] + decimal(n)
}

/// `AND <column> = ?n`.
pub open spec fn filter_sql(column: Seq<char>, n: nat) -> Seq<char> {
    " AND "@ + column + " = "@ + param_ref(n)
}

/// The optional filters of an action query, each numbered after the ones
/// before it, starting at `?2` (`?1` is the tenant).
pub open spec fn query_filters(filters: Seq<(Seq<char>, Option<Seq<char>>)>) -> (Seq<char>, Seq<SqlParam>)
    decreases filters.len(),
{
    if filters.len() == 0 {
        (seq![], seq![])
    } else {
        let (sql, params) = query_filters(filters.drop_last());
        match filters.last().1 {
            Some(v) => (sql + filter_sql(filters.last().0, params.len() + 2), params.push(SqlParam::Text(v))),
            None => (sql, params),
        }
    }
}

/// The filters of `query_actions`: agent, service and action type.
pub open spec fn action_filters(agent: Option<Seq<char>>, service: Option<Seq<char>>, action: Option<Seq<char>>) -> Seq<(Seq<char>, Option<Seq<char>>)> {
    seq![("agent"@, agent), ("service"@, service), ("action"@, action)]
}

/// The statement of `query_actions`: one tenant's actions matching the given
/// filters, newest first, `limit` of them after skipping `offset`.
pub open spec fn query_actions_statement(
    agent: Option<Seq<char>>,
    service: Option<Seq<char>>,
    action: Option<Seq<char>>,
    limit: usize,
    offset: usize,
    user_id: i64,
) -> (Seq<char>, Seq<SqlParam>) {
    let (fsql, fparams) = query_filters(action_filters(agent, service, action));
    let n = fparams.len() + 2;
    (
        "SELECT "@ + action_columns() + " FROM broca_actions WHERE user_id = ?1"@ + fsql
            + " ORDER BY id DESC LIMIT "@ + param_ref(n) + " OFFSET "@ + param_ref(n + 1),
        seq![SqlParam::Integer(user_id)] + fparams + seq![
            SqlParam::Integer(limit as i64),
            SqlParam::Integer(offset as i64),
        ],
    )
}

/// Appends `?n` to `sql`.
fn push_param_ref(sql: &mut String, n: u64)
    ensures
        final(sql)@ == old(sql)@ + param_ref(n as nat),
{
    sql.push('?');
    let digits = decimal_chars(n);
    let d = string_from_chars(digits.as_slice());
    sql.append(d.as_str());
}

/// Appends the filter on `column` when a value is given, numbered `?next`.
fn append_filter(sql: &mut String, params: &mut Vec<SqlValue>, column: &str, value: Option<&str>, next: u64) -> (after: u64)
    requires
        next < 100,
    ensures
        match value {
            Some(v) => {
                &&& final(sql)@ == old(sql)@ + filter_sql(column@, next as nat)
                &&& param_views(final(params)@) == param_views(old(params)@).push(SqlParam::Text(v@))
                &&& after == next + 1
            },
            None => final(sql)@ == old(sql)@ && final(params)@ == old(params)@ && after == next,
        },
{
    match value {
        Some(v) => {
            sql.append(" AND ");
            sql.append(column);
            sql.append(" = ");
            push_param_ref(sql, next);
            params.push(SqlValue::Text(v.to_owned()));
            assert(param_views(params@) =~= param_views(old(params)@).push(SqlParam::Text(v@)));
            next + 1
        },
        None => next,
    }
}

/// One more filter in the numbering of `query_filters`.
proof fn lemma_query_filters_step(filters: Seq<(Seq<char>, Option<Seq<char>>)>, k: int)
    requires
        0 <= k < filters.len(),
    ensures
        ({
            let (sql0, p0) = query_filters(filters.take(k));
            let (sql1, p1) = query_filters(filters.take(k + 1));
            match filters[k].1 {
                Some(v) => sql1 == sql0 + filter_sql(filters[k].0, p0.len() + 2) && p1 == p0.push(SqlParam::Text(v)),
                None => sql1 == sql0 && p1 == p0,
            }
        }),
{
    assert(filters.take(k + 1).drop_last() =~= filters.take(k));
    assert(filters.take(k + 1).last() == filters[k]);
}

/// Builds the statement of `query_actions` for one tenant.
#[verifier::rlimit(30)]
pub fn query_actions_sql(
    agent: Option<&str>,
    service: Option<&str>,
    action: Option<&str>,
    limit: usize,
    offset: usize,
    user_id: i64,
) -> (st: Statement)
    ensures
        ({
            let (sql, params) = query_actions_statement(
                match agent {
                    Some(s) => Some(s@),
                    None => None,
                },
                match service {
                    Some(s) => Some(s@),
                    None => None,
                },
                match action {
                    Some(s) => Some(s@),
                    None => None,
                },
                limit,
                offset,
                user_id,
            );
            st.sql@ == sql && param_views(st.params@) == params
        }),
{
    let ghost a = match agent { Some(s) => Some(s@), None => None::<Seq<char>> };
    let ghost sv = match service { Some(s) => Some(s@), None => None::<Seq<char>> };
    let ghost ac = match action { Some(s) => Some(s@), None => None::<Seq<char>> };
    let ghost filters = action_filters(a, sv, ac);
    let mut sql = "SELECT ".to_owned();
    sql.append("id, agent, service, action, payload, narrative, axon_event_id, user_id, created_at");
    sql.append(" FROM broca_actions WHERE user_id = ?1");
    let mut params: Vec<SqlValue> = Vec::new();
    params.push(SqlValue::Integer(user_id));
    let ghost base = sql@;
    let ghost head = param_views(params@);
    assert(head =~= seq![SqlParam::Integer(user_id)]);
    proof {
        assert(filters.take(0) =~= Seq::<(Seq<char>, Option<Seq<char>>)>::empty());
        lemma_query_filters_step(filters, 0);
        lemma_query_filters_step(filters, 1);
        lemma_query_filters_step(filters, 2);
        assert(filters.take(3) =~= filters);
    }
    let next = append_filter(&mut sql, &mut params, "agent", agent, 2);
    assert(sql@ == base + query_filters(filters.take(1)).0);
    assert(param_views(params@) =~= head + query_filters(filters.take(1)).1);
    let next = append_filter(&mut sql, &mut params, "service", service, next);
    assert(sql@ == base + query_filters(filters.take(2)).0);
    assert(param_views(params@) =~= head + query_filters(filters.take(2)).1);
    let next = append_filter(&mut sql, &mut params, "action", action, next);
    assert(sql@ == base + query_filters(filters).0);
    assert(param_views(params@) =~= head + query_filters(filters).1);
    sql.append(" ORDER BY id DESC LIMIT ");
    push_param_ref(&mut sql, next);
    sql.append(" OFFSET ");
    push_param_ref(&mut sql, next + 1);
    let ghost mid = param_views(params@);
    params.push(SqlValue::Integer(#[verifier::truncate] (limit as i64)));
    params.push(SqlValue::Integer(#[verifier::truncate] (offset as i64)));
    proof {
        assert(param_views(params@) =~= mid + seq![
            SqlParam::Integer(limit as i64),
            SqlParam::Integer(offset as i64),
        ]);
        assert(param_views(params@) =~= query_actions_statement(a, sv, ac, limit, offset, user_id).1);
    }
    Statement { sql, params }
}

/// Every read of the action log is scoped to one tenant: the first parameter
/// of the query and stats statements is the tenant, compared with
/// `user_id`, and a query binds one parameter per placeholder.
pub proof fn lemma_reads_scoped_by_tenant(
    agent: Option<Seq<char>>,
    service: Option<Seq<char>>,
    action: Option<Seq<char>>,
    limit: usize,
    offset: usize,
    user_id: i64,
)
    ensures
        ({
            let (sql, params) = query_actions_statement(agent, service, action, limit, offset, user_id);
            let count = (if agent is Some { 1int } else { 0 }) + (if service is Some { 1int } else { 0 })
                + (if action is Some { 1int } else { 0 });
            &&& params[0] == SqlParam::Integer(user_id)
            &&& params.len() == 3 + count
        }),
        stats_statement(user_id).1 == seq![SqlParam::Integer(user_id)],
{
    let f = action_filters(agent, service, action);
    assert(f.take(3) =~= f);
    lemma_query_filters_step(f, 0);
    lemma_query_filters_step(f, 1);
    lemma_query_filters_step(f, 2);
    assert(f.take(0) =~= Seq::<(Seq<char>, Option<Seq<char>>)>::empty());
}

/// The statement inserting `row`.
pub open spec fn insert_action_statement(row: NewAction) -> (Seq<char>, Seq<SqlParam>) {
    (
        "INSERT INTO broca_actions (agent, service, action, payload, narrative, axon_event_id, user_id) VALUES (?1, ?2, ?3, ?4, ?5, ?6, ?7)"@,
        seq![
            SqlParam::Text(row.agent@),
            SqlParam::Text(row.service@),
            SqlParam::Text(row.action@),
            SqlParam::Text(row.payload_json@),
            match row.narrative {
                Some(n) => SqlParam::Text(n@),
                None => SqlParam::Null,
            },
            match row.axon_event_id {
                Some(id) => SqlParam::Integer(id),
                None => SqlParam::Null,
            },
            SqlParam::Integer(row.user_id),
        ],
    )
}

/// The insert binds each listed column to the row's own field of that name:
/// `?1` agent, `?2` service, `?3` action, `?4` the payload's JSON text,
/// `?5` narrative (NULL when absent), `?6` Axon event id (NULL when absent),
/// `?7` tenant. In particular the stored payload text is the row's.
pub proof fn lemma_insert_binds_row_fields(row: NewAction)
    ensures
        ({
            let (sql, params) = insert_action_statement(row);
            &&& sql == "INSERT INTO broca_actions (agent, service, action, payload, narrative, axon_event_id, user_id) VALUES (?1, ?2, ?3, ?4, ?5, ?6, ?7)"@
            &&& params.len() == 7
            &&& params[0] == SqlParam::Text(row.agent@)
            &&& params[1] == SqlParam::Text(row.service@)
            &&& params[2] == SqlParam::Text(row.action@)
            &&& params[3] == SqlParam::Text(row.payload_json@)
            &&& (params[4] is Null <==> row.narrative is None)
            &&& (row.narrative matches Some(n) ==> params[4] == SqlParam::Text(n@))
            &&& (params[5] is Null <==> row.axon_event_id is None)
            &&& (row.axon_event_id matches Some(id) ==> params[5] == SqlParam::Integer(id))
            &&& params[6] == SqlParam::Integer(row.user_id)
        }),
{
}

/// A prepared log request is stored with its payload's JSON text and its
/// tenant: the insert of the row `prepare_log_action` makes from a request
/// binds the compact JSON of the request's payload (of an empty object when
/// the request has none) and the request's tenant.
pub proof fn lemma_stored_payload_is_request_payload(req: LogActionRequest, row: NewAction)
    requires
        req.user_id == Some(row.user_id),
        row.payload_json@ == json_compact(row.payload),
        req.payload matches Some(p) ==> row.payload == p,
    ensures
        insert_action_statement(row).1[3] == SqlParam::Text(json_compact(row.payload)),
        req.payload matches Some(p) ==> insert_action_statement(row).1[3] == SqlParam::Text(json_compact(p)),
        insert_action_statement(row).1[6] == SqlParam::Integer(req.user_id->0),
{
}

/// Builds the statement inserting `row`.
pub fn insert_action_sql(row: &NewAction) -> (st: Statement)
    ensures
        (st.sql@, param_views(st.params@)) == insert_action_statement(*row),
{
    let sql = "INSERT INTO broca_actions (agent, service, action, payload, narrative, axon_event_id, user_id) VALUES (?1, ?2, ?3, ?4, ?5, ?6, ?7)".to_owned();
    let mut params: Vec<SqlValue> = Vec::new();
    params.push(SqlValue::Text(row.agent.clone()));
    params.push(SqlValue::Text(row.service.clone()));
    params.push(SqlValue::Text(row.action.clone()));
    params.push(SqlValue::Text(row.payload_json.clone()));
    params.push(
        match &row.narrative {
            Some(n) => SqlValue::Text(n.clone()),
            None => SqlValue::Null,
        },
    );
    params.push(
        match row.axon_event_id {
            Some(id) => SqlValue::Integer(id),
            None => SqlValue::Null,
        },
    );
    params.push(SqlValue::Integer(row.user_id));
    assert(param_views(params@) =~= insert_action_statement(*row).1);
    Statement { sql, params }
}

/// The statement reading the action with primary key `id`.
pub open spec fn get_action_statement(id: i64) -> (Seq<char>, Seq<SqlParam>) {
    ("SELECT "@ + action_columns() + " FROM broca_actions WHERE id = ?1"@, seq![SqlParam::Integer(id)])
}

/// Builds the statement reading the action with primary key `id`.
pub fn get_action_sql(id: i64) -> (st: Statement)
    ensures
        (st.sql@, param_views(st.params@)) == get_action_statement(id),
{
    let mut sql = "SELECT ".to_owned();
    sql.append("id, agent, service, action, payload, narrative, axon_event_id, user_id, created_at");
    sql.append(" FROM broca_actions WHERE id = ?1");
    let mut params: Vec<SqlValue> = Vec::new();
    params.push(SqlValue::Integer(id));
    assert(param_views(params@) =~= get_action_statement(id).1);
    Statement { sql, params }
}

/// The statement counting one tenant's actions, distinct agents and
/// distinct services.
pub open spec fn stats_statement(user_id: i64) -> (Seq<char>, Seq<SqlParam>) {
    (
        "SELECT COUNT(*), COUNT(DISTINCT agent), COUNT(DISTINCT service) FROM broca_actions WHERE user_id = ?1"@,
        seq![SqlParam::Integer(user_id)],
    )
}

/// Builds the statement counting one tenant's actions.
pub fn stats_sql(user_id: i64) -> (st: Statement)
    ensures
        (st.sql@, param_views(st.params@)) == stats_statement(user_id),
{
    let sql = "SELECT COUNT(*), COUNT(DISTINCT agent), COUNT(DISTINCT service) FROM broca_actions WHERE user_id = ?1".to_owned();
    let mut params: Vec<SqlValue> = Vec::new();
    params.push(SqlValue::Integer(user_id));
    assert(param_views(params@) =~= stats_statement(user_id).1);
    Statement { sql, params }
}

} // verus!

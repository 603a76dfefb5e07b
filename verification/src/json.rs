//! JSON documents as the library reads them: session-log lines, action
//! payloads and tool schemas.

use vstd::prelude::*;

use crate::text::str_eq;

verus! {

/// `serde_json::Number`, a JSON number carried through as it was parsed.
#[verifier::external_type_specification]
#[verifier::external_body]
pub struct ExJsonNumber(serde_json::Number);

/// `serde_json::Value`, the document serde_json parses and writes.
#[verifier::external_type_specification]
#[verifier::external_body]
pub struct ExJsonValue(serde_json::Value);

/// A parsed JSON value. Numbers are kept as `serde_json` parsed them, since
/// nothing here computes with them; object members keep their order.
#[derive(Debug, PartialEq)]
pub enum JsonValue {
    Null,
    Bool(bool),
    Number(serde_json::Number),
    Str(String),
    Array(Vec<JsonValue>),
    Object(Vec<(String, JsonValue)>),
}

/// The first member of `members` named `key`, from index `i` on.
pub open spec fn member_from(members: Seq<(String, JsonValue)>, key: Seq<char>, i: int) -> Option<JsonValue>
    decreases members.len() - i,
{
    if i < 0 || i >= members.len() {
        None
    } else if members[i].0@ == key {
        Some(members[i].1)
    } else {
        member_from(members, key, i + 1)
    }
}

/// `v[key]` for an object `v`, as `serde_json::Value::get` reads it; `None`
/// for a missing member or a value that is not an object.
pub open spec fn get(v: JsonValue, key: Seq<char>) -> Option<JsonValue> {
    match v {
        JsonValue::Object(members) => member_from(members@, key, 0),
        _ => None,
    }
}


/// The text of `v` when it is a JSON string.
pub open spec fn as_str(v: Option<JsonValue>) -> Option<Seq<char>> {
    match v {
        Some(JsonValue::Str(s)) => Some(s@),
        _ => None,
    }
}

/// `v[key]` when it is a JSON string.
pub open spec fn str_member(v: JsonValue, key: Seq<char>) -> Option<Seq<char>> {
    as_str(get(v, key))
}

/// `v[key]`, or `None` when `v` is no object or has no such member.
pub fn get_member<'a>(v: &'a JsonValue, key: &str) -> (r: Option<&'a JsonValue>)
    ensures
        match r {
            Some(x) => get(*v, key@) == Some(*x),
            None => get(*v, key@) is None,
        },
{
    match v {
        JsonValue::Object(members) => {
            let n = members.len();
            let mut i: usize = 0;
            while i < n
                invariant
                    n == members@.len(),
                    i <= n,
                    get(*v, key@) == member_from(members@, key@, i as int),
                decreases n - i,
            {
                if str_eq(members[i].0.as_str(), key) {
                    return Some(&members[i].1);
                }
                i = i + 1;
            }
            None
        },
        _ => None,
    }
}

/// `v[key]` when it is a JSON string.
pub fn get_str<'a>(v: &'a JsonValue, key: &str) -> (r: Option<&'a String>)
    ensures
        match r {
            Some(s) => str_member(*v, key@) == Some(s@),
            None => str_member(*v, key@) is None,
        },
{
    match get_member(v, key) {
        Some(JsonValue::Str(s)) => Some(s),
        _ => None,
    }
}

/// An object member `key` whose value is `v`.
pub open spec fn member_is(e: (String, JsonValue), key: Seq<char>, v: JsonValue) -> bool {
    e.0@ == key && e.1 == v
}

/// An object member `key` whose value is the JSON string `text`.
pub open spec fn text_member_is(e: (String, JsonValue), key: Seq<char>, text: Seq<char>) -> bool {
    &&& e.0@ == key
    &&& e.1 matches JsonValue::Str(s) && s@ == text
}

/// The object member `key` with the JSON string `text`.
pub fn text_member(key: &str, text: &str) -> (e: (String, JsonValue))
    ensures
        text_member_is(e, key@, text@),
{
    (key.to_owned(), JsonValue::Str(text.to_owned()))
}

/// What `serde_json::from_str::<serde_json::Value>` makes of `text`, as a
/// library value: `None` where the text is no JSON document.
pub uninterp spec fn json_parse(text: Seq<char>) -> Option<JsonValue>;

/// The compact JSON text of `v`, as `serde_json::Value`'s `Display` (and
/// `serde_json::to_string`) writes it.
pub uninterp spec fn json_compact(v: JsonValue) -> Seq<char>;

/// The library value of a `serde_json::Value`, member for member. A plain
/// change of representation; nothing is stated of it.
#[verifier::external_body]
fn from_serde(v: &serde_json::Value) -> JsonValue {
    match v {
        serde_json::Value::Null => JsonValue::Null,
        serde_json::Value::Bool(b) => JsonValue::Bool(*b),
        serde_json::Value::Number(n) => JsonValue::Number(n.clone()),
        serde_json::Value::String(s) => JsonValue::Str(s.clone()),
        serde_json::Value::Array(a) => JsonValue::Array(a.iter().map(from_serde).collect()),
        serde_json::Value::Object(m) => JsonValue::Object(
            m.iter().map(|(k, x)| (k.clone(), from_serde(x))).collect(),
        ),
    }
}

/// The `serde_json::Value` of a library value, member for member. A plain
/// change of representation; nothing is stated of it.
#[verifier::external_body]
fn to_serde(v: &JsonValue) -> serde_json::Value {
    match v {
        JsonValue::Null => serde_json::Value::Null,
        JsonValue::Bool(b) => serde_json::Value::Bool(*b),
        JsonValue::Number(n) => serde_json::Value::Number(n.clone()),
        JsonValue::Str(s) => serde_json::Value::String(s.clone()),
        JsonValue::Array(a) => serde_json::Value::Array(a.iter().map(to_serde).collect()),
        JsonValue::Object(m) => serde_json::Value::Object(
            m.iter().map(|(k, x)| (k.clone(), to_serde(x))).collect(),
        ),
    }
}

/// Parses `text` with `serde_json::from_str` into a `serde_json::Value`. The
/// contract names the result: a function of the text alone, an error exactly
/// when serde_json refuses the text. The error is the `Display` text of
/// serde_json's error, of which nothing is stated.
#[verifier::external_body]
pub(crate) fn parse_json(text: &str) -> (r: Result<JsonValue, String>)
    ensures
        r is Ok <==> json_parse(text@) is Some,
        r matches Ok(v) ==> json_parse(text@) == Some(v),
{
    match serde_json::from_str::<serde_json::Value>(text) {
        Ok(v) => Ok(from_serde(&v)),
        Err(e) => Err(e.to_string()),
    }
}

/// The JSON number of an integer, as `serde_json::Number::from` makes it.
pub uninterp spec fn json_int(i: i64) -> serde_json::Number;

/// `serde_json::Number::from` of an `i64`. The contract names the number.
#[verifier::external_body]
pub(crate) fn int_number(i: i64) -> (n: serde_json::Number)
    ensures
        n == json_int(i),
{
    serde_json::Number::from(i)
}

/// The compact JSON text of `v`, written by `serde_json::Value`'s `Display`,
/// which cannot fail for a `Value`. The contract names the text.
#[verifier::external_body]
pub(crate) fn compact_json(v: &JsonValue) -> (s: String)
    ensures
        s@ == json_compact(*v),
{
    to_serde(v).to_string()
}

} // verus!

//! JSON text read into the library's own value type, and the lookups the
//! CLI makes in it.

use vstd::prelude::*;
use crate::text::lit;

verus! {

broadcast use vstd::string::group_string_axioms;

/// A JSON value.
#[derive(Debug)]
pub enum JsonValue {
    Null,
    Bool(bool),
    /// A number, as serde_json writes it: an unsigned integer as its
    /// digits, a negative one with its sign, a float with a point or an
    /// exponent.
    Number(String),
    Str(String),
    Array(Vec<JsonValue>),
    /// An object: its keys (each once) with their values.
    Object(Vec<(String, JsonValue)>),
}

#[verifier::external_type_specification]
#[verifier::external_body]
pub struct ExJsonValue(serde_json::Value);

/// What `serde_json::from_str::<serde_json::Value>` reads from the text,
/// in the library's form; `None` when the text is not JSON it accepts.
pub uninterp spec fn json_of(text: Seq<char>) -> Option<JsonValue>;

/// `serde_json::from_str::<serde_json::Value>`, converted one for one.
/// The contract names the result; the JSON grammar is not restated.
#[verifier::external_body]
pub(crate) fn parse_json(text: &str) -> (r: Option<JsonValue>)
    ensures
        r == json_of(text@),
{
    serde_json::from_str::<serde_json::Value>(text).ok().map(|v| json_value_from(&v))
}

/// A `serde_json::Value` in the library's form, variant for variant.
#[verifier::external_body]
fn json_value_from(v: &serde_json::Value) -> JsonValue {
    match v {
        serde_json::Value::Null => JsonValue::Null,
        serde_json::Value::Bool(b) => JsonValue::Bool(*b),
        serde_json::Value::Number(n) => JsonValue::Number(n.to_string()),
        serde_json::Value::String(s) => JsonValue::Str(s.clone()),
        serde_json::Value::Array(a) => JsonValue::Array(a.iter().map(json_value_from).collect()),
        serde_json::Value::Object(m) => JsonValue::Object(
            m.iter().map(|(k, x)| (k.clone(), json_value_from(x))).collect(),
        ),
    }
}

/// The value under `key` among object entries (the first one).
pub open spec fn entry_of(e: Seq<(String, JsonValue)>, key: Seq<char>) -> Option<JsonValue>
    decreases e.len(),
{
    if e.len() == 0 {
        None
    } else if e[0].0@ == key {
        Some(e[0].1)
    } else {
        entry_of(e.drop_first(), key)
    }
}

/// The value under `key` when `v` is an object (`Value::get`).
pub open spec fn json_get(v: JsonValue, key: Seq<char>) -> Option<JsonValue> {
    match v {
        JsonValue::Object(e) => entry_of(e@, key),
        _ => None,
    }
}

/// The text under `key` when `v` is an object holding a string there
/// (`v[key].as_str()`).
pub open spec fn json_str(v: JsonValue, key: Seq<char>) -> Option<Seq<char>> {
    match json_get(v, key) {
        Some(JsonValue::Str(s)) => Some(s@),
        _ => None,
    }
}

/// The value under `key` (see `json_get`).
pub fn get_field<'a>(v: &'a JsonValue, key: &str) -> (r: Option<&'a JsonValue>)
    ensures
        match json_get(*v, key@) {
            Some(x) => r matches Some(y) && *y == x,
            None => r is None,
        },
{
    match v {
        JsonValue::Object(e) => {
            let k = lit(key);
            let mut i: usize = 0;
            assert(e@.subrange(0, e@.len() as int) =~= e@);
            while i < e.len()
                invariant
                    i <= e@.len(),
                    k@ == key@,
                    json_get(*v, key@) == entry_of(e@, key@),
                    entry_of(e@, key@) == entry_of(e@.subrange(i as int, e@.len() as int), key@),
                decreases e.len() - i,
            {
                let ghost rest = e@.subrange(i as int, e@.len() as int);
                assert(rest[0] == e@[i as int]);
                assert(rest.drop_first() =~= e@.subrange(i + 1, e@.len() as int));
                if e[i].0 == k {
                    return Some(&e[i].1);
                }
                i = i + 1;
            }
            None
        },
        _ => None,
    }
}

/// The text under `key` (see `json_str`).
pub fn get_str(v: &JsonValue, key: &str) -> (r: Option<String>)
    ensures
        match json_str(*v, key@) {
            Some(s) => r matches Some(x) && x@ == s,
            None => r is None,
        },
{
    match get_field(v, key) {
        Some(JsonValue::Str(s)) => Some(s.clone()),
        _ => None,
    }
}

} // verus!

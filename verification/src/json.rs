use vstd::prelude::*;

verus! {

/// A JSON document tree from `serde_json`, carried opaquely.
#[verifier::external_type_specification]
#[verifier::external_body]
pub struct ExValue(serde_json::Value);

/// `serde_json::Value::clone` (derived): the copy holds the same document.
pub assume_specification[ <serde_json::Value as Clone>::clone ](v: &serde_json::Value) -> (r: serde_json::Value)
    ensures
        r == *v,
;

/// What `serde_json::from_str::<Value>` makes of a text: the document, or the
/// error's message.
pub uninterp spec fn json_parse(text: Seq<char>) -> Result<serde_json::Value, Seq<char>>;

/// Whether `serde_json` accepts the text as one JSON document.
pub open spec fn json_accepts(text: Seq<char>) -> bool {
    json_parse(text) is Ok
}

/// `serde_json::from_str::<Value>`, with the error given as its message.
/// The outcome is named, not described: it depends on the text alone.
#[verifier::external_body]
pub(crate) fn parse_json(text: &str) -> (r: Result<serde_json::Value, String>)
    ensures
        match r {
            Ok(v) => json_parse(text@) == Ok::<serde_json::Value, Seq<char>>(v),
            Err(m) => json_parse(text@) == Err::<serde_json::Value, Seq<char>>(m@),
        },
{
    match serde_json::from_str::<serde_json::Value>(text) {
        Ok(v) => Ok(v),
        Err(e) => Err(e.to_string()),
    }
}

/// What `serde_json::to_string` makes of a document: its compact text, or
/// `None` when serialising fails.
pub uninterp spec fn json_text(v: serde_json::Value) -> Option<Seq<char>>;

/// `serde_json::to_string` on a document. The outcome is named, not
/// described: it depends on the document alone.
#[verifier::external_body]
pub(crate) fn to_json_text(v: &serde_json::Value) -> (r: Option<String>)
    ensures
        match r {
            Some(s) => json_text(*v) == Some(s@),
            None => json_text(*v) is None,
        },
{
    match serde_json::to_string(v) {
        Ok(s) => Some(s),
        Err(_) => None,
    }
}

/// What `Value::get` finds under a key of a JSON object (`None` when the
/// document is not an object or lacks the key).
pub uninterp spec fn json_get(v: serde_json::Value, key: Seq<char>) -> Option<serde_json::Value>;

/// `serde_json::Value::get` with a string key; the result is named.
#[verifier::external_body]
pub(crate) fn value_get<'a>(v: &'a serde_json::Value, key: &str) -> (r: Option<&'a serde_json::Value>)
    ensures
        match r {
            Some(x) => json_get(*v, key@) == Some(*x),
            None => json_get(*v, key@) is None,
        },
{
    v.get(key)
}

/// What `Value::as_str` reads: the text of a JSON string, else nothing.
pub uninterp spec fn json_as_str(v: serde_json::Value) -> Option<Seq<char>>;

/// `serde_json::Value::as_str`; the result is named.
#[verifier::external_body]
pub(crate) fn value_as_str(v: &serde_json::Value) -> (r: Option<&str>)
    ensures
        match r {
            Some(s) => json_as_str(*v) == Some(s@),
            None => json_as_str(*v) is None,
        },
{
    v.as_str()
}

/// What `Value::as_bool` reads: a JSON boolean, else nothing.
pub uninterp spec fn json_as_bool(v: serde_json::Value) -> Option<bool>;

/// `serde_json::Value::as_bool`; the result is named.
#[verifier::external_body]
pub(crate) fn value_as_bool(v: &serde_json::Value) -> (r: Option<bool>)
    ensures
        r == json_as_bool(*v),
{
    v.as_bool()
}

/// What `Value::as_i64` reads: a JSON integer that fits in `i64`, else nothing.
pub uninterp spec fn json_as_i64(v: serde_json::Value) -> Option<i64>;

/// `serde_json::Value::as_i64`; the result is named.
#[verifier::external_body]
pub(crate) fn value_as_i64(v: &serde_json::Value) -> (r: Option<i64>)
    ensures
        r == json_as_i64(*v),
{
    v.as_i64()
}

/// What `Value::as_u64` reads: a JSON integer that fits in `u64`, else nothing.
pub uninterp spec fn json_as_u64(v: serde_json::Value) -> Option<u64>;

/// `serde_json::Value::as_u64`; the result is named.
#[verifier::external_body]
pub(crate) fn value_as_u64(v: &serde_json::Value) -> (r: Option<u64>)
    ensures
        r == json_as_u64(*v),
{
    v.as_u64()
}

/// What `Value::as_array` reads: the elements of a JSON array, else nothing.
pub uninterp spec fn json_as_array(v: serde_json::Value) -> Option<Seq<serde_json::Value>>;

/// `serde_json::Value::as_array`; the result is named.
#[verifier::external_body]
pub(crate) fn value_as_array(v: &serde_json::Value) -> (r: Option<&Vec<serde_json::Value>>)
    ensures
        match r {
            Some(a) => json_as_array(*v) == Some(a@),
            None => json_as_array(*v) is None,
        },
{
    v.as_array()
}

/// What `Value::from(&str)` makes of a text: a JSON string.
pub uninterp spec fn json_string_value(s: Seq<char>) -> serde_json::Value;

/// `serde_json::Value::from(&str)`: a JSON string, which reads back as `s`.
#[verifier::external_body]
pub(crate) fn json_string(s: &str) -> (r: serde_json::Value)
    ensures
        r == json_string_value(s@),
        json_as_str(r) == Some(s@),
{
    serde_json::Value::from(s)
}

/// What `Value::from(u64)` makes of a number: a JSON number.
pub uninterp spec fn json_u64_value(n: u64) -> serde_json::Value;

/// `serde_json::Value::from(u64)`: a JSON number, which reads back as `n`.
#[verifier::external_body]
pub(crate) fn json_u64(n: u64) -> (r: serde_json::Value)
    ensures
        r == json_u64_value(n),
        json_as_u64(r) == Some(n),
{
    serde_json::Value::from(n)
}

/// The value of the first entry whose key is `key`, if there is one.
pub open spec fn entry_value(entries: Seq<(String, serde_json::Value)>, key: Seq<char>) -> Option<serde_json::Value>
    decreases entries.len(),
{
    if entries.len() == 0 {
        None
    } else if entries[0].0@ == key {
        Some(entries[0].1)
    } else {
        entry_value(entries.drop_first(), key)
    }
}

/// No two entries share a key.
pub open spec fn keys_distinct(entries: Seq<(String, serde_json::Value)>) -> bool {
    forall|i: int, j: int| 0 <= i < j < entries.len() ==> (#[trigger] entries[i]).0@ != (#[trigger] entries[j]).0@
}

/// `serde_json::Value::Object(serde_json::Map::from_iter(entries))` for
/// entries with distinct keys: each key reads back its entry's value, and any
/// other key reads nothing.
#[verifier::external_body]
pub(crate) fn json_object(entries: Vec<(String, serde_json::Value)>) -> (r: serde_json::Value)
    requires
        keys_distinct(entries@),
    ensures
        forall|k: Seq<char>| #[trigger] json_get(r, k) == entry_value(entries@, k),
{
    serde_json::Value::Object(serde_json::Map::from_iter(entries))
}

} // verus!

//! A plain model of a JSON document, as serde_json reads it, and the
//! lookups that measurement specifications need.
use crate::text::str_eq;
use vstd::prelude::*;

verus! {

/// A JSON value. Numbers keep serde_json's three kinds: non-negative
/// integers, negative integers, and the rest (held without their value).
#[derive(Debug)]
pub enum JsonValue {
    Null,
    Bool(bool),
    PosInt(u64),
    NegInt(i64),
    Float,
    Str(String),
    Array(Vec<JsonValue>),
    Object(Vec<(String, JsonValue)>),
}

#[verifier::external_type_specification]
#[verifier::external_body]
pub struct ExJsonDocument(serde_json::Value);

/// The document that serde_json reads from `s`, or `None` when `s` is not
/// JSON. serde_json decides this; its grammar is not restated here.
pub uninterp spec fn spec_parse_json(s: Seq<char>) -> Option<JsonValue>;

/// Reads `s` as JSON (`serde_json::from_str::<serde_json::Value>`).
#[verifier::external_body]
pub(crate) fn parse_json(s: &str) -> (r: Option<JsonValue>)
    ensures
        r == spec_parse_json(s@),
{
    match serde_json::from_str::<serde_json::Value>(s) {
        Ok(v) => Some(from_document(&v)),
        Err(_) => None,
    }
}

/// Carries a serde_json document over into the model, variant for variant.
#[verifier::external_body]
fn from_document(v: &serde_json::Value) -> JsonValue {
    match v {
        serde_json::Value::Null => JsonValue::Null,
        serde_json::Value::Bool(b) => JsonValue::Bool(*b),
        serde_json::Value::Number(n) => match (n.as_u64(), n.as_i64()) {
            (Some(u), _) => JsonValue::PosInt(u),
            (None, Some(i)) => JsonValue::NegInt(i),
            (None, None) => JsonValue::Float,
        },
        serde_json::Value::String(s) => JsonValue::Str(s.clone()),
        serde_json::Value::Array(a) => JsonValue::Array(a.iter().map(from_document).collect()),
        serde_json::Value::Object(m) => JsonValue::Object(
            m.iter().map(|(k, x)| (k.clone(), from_document(x))).collect(),
        ),
    }
}

/// The value of the first member named `key` among `entries`.
pub open spec fn member(entries: Seq<(String, JsonValue)>, key: Seq<char>) -> Option<JsonValue>
    decreases entries.len(),
{
    if entries.len() == 0 {
        None
    } else if entries[0].0@ == key {
        Some(entries[0].1)
    } else {
        member(entries.drop_first(), key)
    }
}

/// `Value::get`: the member `key` of an object; `None` for other values.
pub open spec fn spec_get(v: JsonValue, key: Seq<char>) -> Option<JsonValue> {
    match v {
        JsonValue::Object(entries) => member(entries@, key),
        _ => None,
    }
}

/// `Value::as_u64` applied inside an option.
pub open spec fn opt_u64(o: Option<JsonValue>) -> Option<u64> {
    match o {
        Some(JsonValue::PosInt(n)) => Some(n),
        _ => None,
    }
}

/// `Value::as_i64` applied inside an option.
pub open spec fn opt_i64(o: Option<JsonValue>) -> Option<i64> {
    match o {
        Some(JsonValue::PosInt(n)) => if n <= i64::MAX {
            Some(n as i64)
        } else {
            None
        },
        Some(JsonValue::NegInt(n)) => Some(n),
        _ => None,
    }
}

/// `Value::as_str` applied inside an option.
pub open spec fn opt_str(o: Option<JsonValue>) -> Option<Seq<char>> {
    match o {
        Some(JsonValue::Str(s)) => Some(s@),
        _ => None,
    }
}

/// `Value::as_bool` applied inside an option.
pub open spec fn opt_bool(o: Option<JsonValue>) -> Option<bool> {
    match o {
        Some(JsonValue::Bool(b)) => Some(b),
        _ => None,
    }
}

/// The strings of an array, in order, skipping members that are not
/// strings.
pub open spec fn array_strings(items: Seq<JsonValue>) -> Seq<Seq<char>>
    decreases items.len(),
{
    if items.len() == 0 {
        seq![]
    } else {
        let rest = array_strings(items.drop_first());
        match items[0] {
            JsonValue::Str(s) => seq![s@] + rest,
            _ => rest,
        }
    }
}

impl JsonValue {
    /// `Value::get` with a string key.
    pub fn get(&self, key: &str) -> (r: Option<&JsonValue>)
        ensures
            match spec_get(*self, key@) {
                Some(x) => r matches Some(y) && *y == x,
                None => r is None,
            },
    {
        match self {
            JsonValue::Object(entries) => {
                let mut i: usize = 0;
                assert(entries@.skip(0) =~= entries@);
                while i < entries.len()
                    invariant
                        *self == JsonValue::Object(*entries),
                        i <= entries@.len(),
                        member(entries@, key@) == member(entries@.skip(i as int), key@),
                    decreases entries.len() - i,
                {
                    assert(entries@.skip(i as int).drop_first() =~= entries@.skip(i as int + 1));
                    assert(entries@.skip(i as int)[0] == entries@[i as int]);
                    if str_eq(entries[i].0.as_str(), key) {
                        assert(member(entries@.skip(i as int), key@) == Some(entries@[i as int].1));
                        return Some(&entries[i].1);
                    }
                    i = i + 1;
                }
                None
            },
            _ => None,
        }
    }
}

/// `as_u64` of an optional value.
pub fn as_u64(o: Option<&JsonValue>) -> (r: Option<u64>)
    ensures
        r == opt_u64(match o { Some(x) => Some(*x), None => None }),
{
    match o {
        Some(JsonValue::PosInt(n)) => Some(*n),
        _ => None,
    }
}

/// `as_i64` of an optional value.
pub fn as_i64(o: Option<&JsonValue>) -> (r: Option<i64>)
    ensures
        r == opt_i64(match o { Some(x) => Some(*x), None => None }),
{
    match o {
        Some(JsonValue::PosInt(n)) => if *n <= i64::MAX as u64 {
            Some(*n as i64)
        } else {
            None
        },
        Some(JsonValue::NegInt(n)) => Some(*n),
        _ => None,
    }
}

/// `as_bool` of an optional value.
pub fn as_bool(o: Option<&JsonValue>) -> (r: Option<bool>)
    ensures
        r == opt_bool(match o { Some(x) => Some(*x), None => None }),
{
    match o {
        Some(JsonValue::Bool(b)) => Some(*b),
        _ => None,
    }
}

/// `as_str` of an optional value, as a reference to the string.
pub fn as_str(o: Option<&JsonValue>) -> (r: Option<&String>)
    ensures
        match opt_str(match o { Some(x) => Some(*x), None => None }) {
            Some(s) => r matches Some(t) && t@ == s,
            None => r is None,
        },
{
    match o {
        Some(JsonValue::Str(s)) => Some(s),
        _ => None,
    }
}

/// The string members of an array, in order.
pub fn strings_of(items: &Vec<JsonValue>) -> (r: Vec<String>)
    ensures
        r.deep_view() == array_strings(items@),
{
    let mut out: Vec<String> = Vec::new();
    let mut i: usize = 0;
    assert(items@.skip(0) =~= items@);
    while i < items.len()
        invariant
            i <= items@.len(),
            out.deep_view() + array_strings(items@.skip(i as int)) == array_strings(items@),
        decreases items.len() - i,
    {
        assert(items@.skip(i as int).drop_first() =~= items@.skip(i as int + 1));
        assert(items@.skip(i as int)[0] == items@[i as int]);
        match &items[i] {
            JsonValue::Str(s) => {
                let ghost before = out.deep_view();
                out.push(s.clone());
                assert(out.deep_view() =~= before.push(s@));
                assert(before + (seq![s@] + array_strings(items@.skip(i as int + 1))) =~= before.push(
                    s@,
                ) + array_strings(items@.skip(i as int + 1)));
            },
            _ => {},
        }
        i = i + 1;
    }
    assert(items@.skip(i as int) =~= Seq::<JsonValue>::empty());
    assert(out.deep_view() + Seq::<Seq<char>>::empty() =~= out.deep_view());
    out
}

} // verus!

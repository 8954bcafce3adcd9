//! The JSON values that the Codex app-server exchanges, held as plain data.
//!
//! Numbers keep the three shapes a JSON number takes after parsing: a non-negative
//! integer, a negative integer, or a finite binary64 float (its IEEE-754 bits and its
//! shortest decimal text). Objects keep their entries in order; parsed objects come in
//! serde_json's order, which is sorted by key.

use vstd::prelude::*;
use crate::text::{decimal_digits, decimal_i64, decimal_u64, signed_decimal};
use serde_json::Value;

verus! {

/// A parsed JSON number.
#[derive(Debug, PartialEq)]
pub enum JsonNumber {
    PosInt(u64),
    NegInt(i64),
    Float { bits: u64, text: String },
}

/// A parsed JSON value.
#[derive(Debug)]
pub enum JsonValue {
    Null,
    Bool(bool),
    Number(JsonNumber),
    String(String),
    Array(Vec<JsonValue>),
    Object(Vec<(String, JsonValue)>),
}

/// The value stored under `key` among `entries[from..]`: the first entry with that key.
pub open spec fn entries_get_from(entries: Seq<(String, JsonValue)>, key: Seq<char>, from: int) -> Option<JsonValue>
    decreases entries.len() - from,
{
    if from < 0 || from >= entries.len() {
        None
    } else if entries[from].0@ == key {
        Some(entries[from].1)
    } else {
        entries_get_from(entries, key, from + 1)
    }
}

/// The value of the first entry with key `key`.
pub open spec fn entries_get(entries: Seq<(String, JsonValue)>, key: Seq<char>) -> Option<JsonValue> {
    entries_get_from(entries, key, 0)
}

/// `Value::get(key)`: the member of an object, `None` for any other value.
pub open spec fn json_get(v: JsonValue, key: Seq<char>) -> Option<JsonValue> {
    match v {
        JsonValue::Object(entries) => entries_get(entries@, key),
        _ => None,
    }
}

/// `get` lifted to an optional value.
pub open spec fn opt_get(v: Option<JsonValue>, key: Seq<char>) -> Option<JsonValue> {
    match v {
        Some(v) => json_get(v, key),
        None => None,
    }
}

pub open spec fn is_object(v: JsonValue) -> bool {
    v is Object
}

/// `Option::filter(Value::is_object)`.
pub open spec fn only_object(v: Option<JsonValue>) -> Option<JsonValue> {
    match v {
        Some(x) => if is_object(x) { Some(x) } else { None },
        None => None,
    }
}

/// `and_then(Value::as_str)`.
pub open spec fn str_of(v: Option<JsonValue>) -> Option<Seq<char>> {
    match v {
        Some(JsonValue::String(s)) => Some(s@),
        _ => None,
    }
}

/// `and_then(Value::as_bool)`.
pub open spec fn bool_of(v: Option<JsonValue>) -> Option<bool> {
    match v {
        Some(JsonValue::Bool(b)) => Some(b),
        _ => None,
    }
}

/// `Number::as_i64`: integers that fit in `i64`.
pub open spec fn number_i64(n: JsonNumber) -> Option<i64> {
    match n {
        JsonNumber::PosInt(u) => if u <= i64::MAX { Some(u as i64) } else { None },
        JsonNumber::NegInt(i) => Some(i),
        JsonNumber::Float { .. } => None,
    }
}

/// `and_then(Value::as_i64)`.
pub open spec fn i64_of(v: Option<JsonValue>) -> Option<i64> {
    match v {
        Some(JsonValue::Number(n)) => number_i64(n),
        _ => None,
    }
}

/// `Number::as_u64`: non-negative integers.
pub open spec fn number_u64(n: JsonNumber) -> Option<u64> {
    match n {
        JsonNumber::PosInt(u) => Some(u),
        _ => None,
    }
}

/// `and_then(Value::as_u64)`.
pub open spec fn u64_of(v: Option<JsonValue>) -> Option<u64> {
    match v {
        Some(JsonValue::Number(n)) => number_u64(n),
        _ => None,
    }
}

/// The text of a number as `Number::to_string` writes it.
pub open spec fn number_text(n: JsonNumber) -> Seq<char> {
    match n {
        JsonNumber::PosInt(u) => decimal_digits(u as nat),
        JsonNumber::NegInt(i) => signed_decimal(i as int),
        JsonNumber::Float { bits, text } => text@,
    }
}

/// `Option<&JsonValue>` agrees with the optional value `v`.
pub open spec fn ref_matches(r: Option<&JsonValue>, v: Option<JsonValue>) -> bool {
    match r {
        Some(x) => v == Some(*x),
        None => v is None,
    }
}

impl JsonNumber {
    /// The decimal text of the number.
    pub fn to_text(&self) -> (s: String)
        ensures
            s@ == number_text(*self),
    {
        match self {
            JsonNumber::PosInt(u) => decimal_u64(*u),
            JsonNumber::NegInt(i) => decimal_i64(*i),
            JsonNumber::Float { text, .. } => text.clone(),
        }
    }
}

impl JsonValue {
    /// The member stored under `key` when this is an object.
    pub fn get(&self, key: &str) -> (r: Option<&JsonValue>)
        ensures
            ref_matches(r, json_get(*self, key@)),
    {
        match self {
            JsonValue::Object(entries) => {
                let wanted = String::from_str(key);
                let mut i: usize = 0;
                while i < entries.len()
                    invariant
                        i <= entries.len(),
                        wanted@ == key@,
                        json_get(*self, key@) == entries_get(entries@, key@),
                        entries_get(entries@, key@) == entries_get_from(entries@, key@, i as int),
                    decreases entries.len() - i,
                {
                    if entries[i].0 == wanted {
                        assert(entries_get_from(entries@, key@, i as int) == Some(entries@[i as int].1));
                        return Some(&entries[i].1);
                    }
                    i = i + 1;
                }
                None
            },
            _ => None,
        }
    }

    pub fn is_object(&self) -> (r: bool)
        ensures
            r == is_object(*self),
    {
        match self {
            JsonValue::Object(_) => true,
            _ => false,
        }
    }

    pub fn is_null(&self) -> (r: bool)
        ensures
            r == (*self is Null),
    {
        match self {
            JsonValue::Null => true,
            _ => false,
        }
    }
}

/// `get` on an optional value.
pub fn opt_get_exec<'a>(v: Option<&'a JsonValue>, key: &str) -> (r: Option<&'a JsonValue>)
    ensures
        forall|w: Option<JsonValue>| ref_matches(v, w) ==> ref_matches(r, opt_get(w, key@)),
{
    match v {
        Some(x) => x.get(key),
        None => None,
    }
}

/// `filter(Value::is_object)` on an optional value.
pub fn only_object_exec<'a>(v: Option<&'a JsonValue>) -> (r: Option<&'a JsonValue>)
    ensures
        forall|w: Option<JsonValue>| ref_matches(v, w) ==> ref_matches(r, only_object(w)),
{
    match v {
        Some(x) => if x.is_object() { Some(x) } else { None },
        None => None,
    }
}

/// `and_then(Value::as_str)` on an optional value.
pub fn str_of_exec<'a>(v: Option<&'a JsonValue>) -> (r: Option<&'a String>)
    ensures
        forall|w: Option<JsonValue>| ref_matches(v, w) ==> match r {
            Some(s) => str_of(w) == Some(s@),
            None => str_of(w) is None,
        },
{
    match v {
        Some(JsonValue::String(s)) => Some(s),
        _ => None,
    }
}

/// `and_then(Value::as_bool)` on an optional value.
pub fn bool_of_exec(v: Option<&JsonValue>) -> (r: Option<bool>)
    ensures
        forall|w: Option<JsonValue>| ref_matches(v, w) ==> r == bool_of(w),
{
    match v {
        Some(JsonValue::Bool(b)) => Some(*b),
        _ => None,
    }
}

/// `and_then(Value::as_i64)` on an optional value.
pub fn i64_of_exec(v: Option<&JsonValue>) -> (r: Option<i64>)
    ensures
        forall|w: Option<JsonValue>| ref_matches(v, w) ==> r == i64_of(w),
{
    match v {
        Some(JsonValue::Number(JsonNumber::PosInt(u))) => if *u <= 9223372036854775807u64 {
            Some(*u as i64)
        } else {
            None
        },
        Some(JsonValue::Number(JsonNumber::NegInt(i))) => Some(*i),
        _ => None,
    }
}

/// `and_then(Value::as_u64)` on an optional value.
pub fn u64_of_exec(v: Option<&JsonValue>) -> (r: Option<u64>)
    ensures
        forall|w: Option<JsonValue>| ref_matches(v, w) ==> r == u64_of(w),
{
    match v {
        Some(JsonValue::Number(JsonNumber::PosInt(u))) => Some(*u),
        _ => None,
    }
}

/// `serde_json::Value`, carried through unchanged.
#[verifier::external_type_specification]
#[verifier::external_body]
pub struct ExSerdeValue(Value);

/// What `serde_json::from_str::<serde_json::Value>` makes of a text: the parsed value, or the
/// text of the syntax error.
pub uninterp spec fn json_parse(text: Seq<char>) -> Result<JsonValue, Seq<char>>;

/// What `serde_json::to_vec` makes of a value, its floats re-read from their text with
/// `serde_json::from_str`: its compact encoding, or the text of the error.
pub uninterp spec fn json_encoding(v: JsonValue) -> Result<Seq<u8>, Seq<char>>;

/// `serde_json::Number`, carried through unchanged.
#[verifier::external_type_specification]
#[verifier::external_body]
pub struct ExSerdeNumber(serde_json::Number);

/// A parsed `serde_json::Number` by the variant serde_json keeps it in: a non-negative
/// integer, a negative integer, or a float by its bits and its text.
#[verifier::external_body]
fn number_from_serde(n: &serde_json::Number) -> JsonNumber {
    match (n.as_u64(), n.as_i64()) {
        (Some(u), _) => JsonNumber::PosInt(u),
        (None, Some(i)) => JsonNumber::NegInt(i),
        _ => JsonNumber::Float { bits: n.as_f64().map_or(0, |x| x.to_bits()), text: n.to_string() },
    }
}

/// A parsed `serde_json::Value` as the library holds it: the same shape, numbers by the variant
/// serde_json keeps them in (a float by its bits and its text), members in serde_json's order.
/// This is the one-for-one conversion of the parse below, a function of its own only because
/// values nest.
#[verifier::external_body]
fn from_serde(v: Value) -> JsonValue {
    match v {
        Value::Null => JsonValue::Null,
        Value::Bool(b) => JsonValue::Bool(b),
        Value::Number(n) => JsonValue::Number(number_from_serde(&n)),
        Value::String(t) => JsonValue::String(t),
        Value::Array(a) => JsonValue::Array(a.into_iter().map(from_serde).collect()),
        Value::Object(m) => JsonValue::Object(m.into_iter().map(|(k, x)| (k, from_serde(x))).collect()),
    }
}

/// A library value as a `serde_json::Value`, the converse of `from_serde`. A float is rebuilt
/// by re-reading its text with `serde_json::from_str`, and becomes `null` when its text does
/// not parse (which never happens to a float that `from_serde` made).
#[verifier::external_body]
fn to_serde(v: &JsonValue) -> Value {
    match v {
        JsonValue::Null => Value::Null,
        JsonValue::Bool(b) => Value::Bool(*b),
        JsonValue::Number(JsonNumber::PosInt(u)) => Value::from(*u),
        JsonValue::Number(JsonNumber::NegInt(i)) => Value::from(*i),
        JsonValue::Number(JsonNumber::Float { text, .. }) => serde_json::from_str(text).unwrap_or(Value::Null),
        JsonValue::String(t) => Value::String(t.clone()),
        JsonValue::Array(a) => Value::Array(a.iter().map(to_serde).collect()),
        JsonValue::Object(e) => Value::Object(e.iter().map(|(k, x)| (k.clone(), to_serde(x))).collect()),
    }
}

/// Parses a JSON text with `serde_json::from_str`.
///
/// Claims of `serde_json::from_str`: it succeeds or fails on the text alone, and the value it
/// yields, or the message of its error, is a function of the text. Which texts parse, and to
/// what, is not stated here.
#[verifier::external_body]
pub(crate) fn parse_json(text: &str) -> (r: Result<JsonValue, String>)
    ensures
        match r {
            Ok(v) => json_parse(text@) == Ok::<JsonValue, Seq<char>>(v),
            Err(e) => json_parse(text@) == Err::<JsonValue, Seq<char>>(e@),
        },
{
    match serde_json::from_str::<Value>(text) {
        Ok(v) => Ok(from_serde(v)),
        Err(e) => Err(e.to_string()),
    }
}

/// Encodes a value as compact JSON with `serde_json::to_vec`.
///
/// Claims of `serde_json::to_vec`: its bytes, or the message of its error, are a function of
/// the value. What the encoding is, is not stated here. Two outside calls stand behind the
/// name `json_encoding`: `to_vec`, and for each float `from_str` on its text (see `to_serde`).
#[verifier::external_body]
pub(crate) fn encode_json(v: &JsonValue) -> (r: Result<Vec<u8>, String>)
    ensures
        match r {
            Ok(b) => json_encoding(*v) == Ok::<Seq<u8>, Seq<char>>(b@),
            Err(e) => json_encoding(*v) == Err::<Seq<u8>, Seq<char>>(e@),
        },
{
    serde_json::to_vec(&to_serde(v)).map_err(|e| e.to_string())
}

} // verus!

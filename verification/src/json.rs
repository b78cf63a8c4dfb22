//! The JSON values that travel between the clients and the language server.

use serde_json::Value;
use vstd::prelude::*;

verus! {

/// What a JSON value says.
///
/// A number that is kept as an integer is an `Integer`; one that is kept in
/// floating point is a `Real` and stands for its printed form.
pub enum Json {
    Null,
    Bool(bool),
    Integer(int),
    Real(Seq<char>),
    Text(Seq<char>),
    Array(Seq<Json>),
    Object(Map<Seq<char>, Json>),
}

/// How many arrays and objects may stand inside one another in a text that is
/// to be parsed.
pub const MAX_DEPTH: u8 = 127;

impl Json {
    /// A value that survives being printed and parsed: it holds no
    /// floating-point number, its integers fit 64 bits, and it nests at most
    /// `depth` arrays and objects.
    pub open spec fn reproducible(self, depth: nat) -> bool
        decreases depth,
    {
        match self {
            Json::Null | Json::Bool(_) | Json::Text(_) => true,
            Json::Integer(n) => i64::MIN <= n <= u64::MAX,
            Json::Real(_) => false,
            Json::Array(items) => depth > 0 && forall|i: int|
                0 <= i < items.len() ==> (#[trigger] items[i]).reproducible((depth - 1) as nat),
            Json::Object(members) => depth > 0 && members.dom().finite() && forall|key: Seq<char>|
                members.contains_key(key) ==> (#[trigger] members[key]).reproducible(
                    (depth - 1) as nat,
                ),
        }
    }

    /// The members of an object that lists `pairs` in this order: of two pairs
    /// with one key the later counts.
    pub open spec fn members(pairs: Seq<(Seq<char>, Json)>) -> Map<Seq<char>, Json>
        decreases pairs.len(),
    {
        if pairs.len() == 0 {
            Map::empty()
        } else {
            Json::members(pairs.drop_last()).insert(pairs.last().0, pairs.last().1)
        }
    }

    /// `null` where there is no value.
    pub open spec fn or_null(value: Option<Json>) -> Json {
        match value {
            Some(json) => json,
            None => Json::Null,
        }
    }
}

/// The JSON tree of the `serde_json` crate.
#[verifier::external_type_specification]
#[verifier::external_body]
pub struct ExValue(serde_json::Value);

/// What `serde_json` says of a text or a value that it cannot read.
#[verifier::external_type_specification]
#[verifier::external_body]
pub struct ExJsonError(serde_json::Error);

/// The contents of a `serde_json::Value`.
pub uninterp spec fn json_of(value: serde_json::Value) -> Json;

/// The compact text that `serde_json::to_string` prints for a value.
pub uninterp spec fn json_text(json: Json) -> Seq<char>;

/// What `serde_json::from_str` reads in a text, where it is a JSON text.
pub uninterp spec fn json_parse(text: Seq<char>) -> Option<Json>;

/// The contents of an optional value.
pub open spec fn opt_json_of(value: Option<Value>) -> Option<Json> {
    match value {
        Some(value) => Some(json_of(value)),
        None => None,
    }
}

/// `Value::Null`: the JSON literal `null`.
#[verifier::external_body]
pub(crate) fn null_value() -> (value: Value)
    ensures
        json_of(value) == Json::Null,
{
    Value::Null
}

/// `<Value as From<String>>::from`: a JSON string with this text.
#[verifier::external_body]
pub(crate) fn string_value(text: String) -> (value: Value)
    ensures
        json_of(value) == Json::Text(text@),
{
    Value::from(text)
}

/// `<Value as From<u64>>::from`: a JSON number that is this integer.
#[verifier::external_body]
pub(crate) fn number_value(number: u64) -> (value: Value)
    ensures
        json_of(value) == Json::Integer(number as int),
{
    Value::from(number)
}

/// `<Value as From<Vec<Value>>>::from`: a JSON array of these items, in this
/// order.
#[verifier::external_body]
pub(crate) fn array_value(items: Vec<Value>) -> (value: Value)
    ensures
        json_of(value) == Json::Array(items@.map_values(|item: Value| json_of(item))),
{
    Value::from(items)
}

/// `<Value as FromIterator<(String, Value)>>::from_iter`: a JSON object with
/// these members; of two members with one name the later counts.
#[verifier::external_body]
pub(crate) fn object_value(pairs: Vec<(String, Value)>) -> (value: Value)
    ensures
        json_of(value) == Json::Object(
            Json::members(pairs@.map_values(|pair: (String, Value)| (pair.0@, json_of(pair.1)))),
        ),
{
    pairs.into_iter().collect()
}

/// `<Value as Clone>::clone`: a deep copy, with the same contents.
#[verifier::external_body]
pub(crate) fn clone_value(value: &Value) -> (copy: Value)
    ensures
        json_of(copy) == json_of(*value),
{
    value.clone()
}

/// `serde_json::to_string` on a value: it never fails there, since the members
/// of an object are named by strings, and it prints the value's compact text.
#[verifier::external_body]
pub(crate) fn print_json(value: &Value) -> (result: Result<String, serde_json::Error>)
    ensures
        result is Ok,
        result->Ok_0@ == json_text(json_of(*value)),
{
    serde_json::to_string(value)
}

/// `serde_json::from_str` to a value: whether a text is JSON, and what it says,
/// depends on the text alone. Of a text that `serde_json::to_string` printed it
/// gives back the value, unless that holds a floating-point number (which may
/// be read with another last digit) or nests deeper than the parser follows.
#[verifier::external_body]
pub(crate) fn parse_json(text: &str) -> (result: Result<Value, serde_json::Error>)
    ensures
        match json_parse(text@) {
            Some(json) => result is Ok && json_of(result->Ok_0) == json,
            None => result is Err,
        },
        forall|json: Json| #[trigger]
            json_text(json) == text@ && json.reproducible(MAX_DEPTH as nat) ==> result is Ok
                && json_of(result->Ok_0) == json,
{
    serde_json::from_str(text)
}

/// `serde_json::from_value` to a `u64`: it takes the integers from 0 to
/// `u64::MAX` and nothing else.
#[verifier::external_body]
pub(crate) fn value_as_u64(value: Value) -> (result: Result<u64, serde_json::Error>)
    ensures
        match json_of(value) {
            Json::Integer(n) => if 0 <= n <= u64::MAX {
                result is Ok && result->Ok_0 == n
            } else {
                result is Err
            },
            _ => result is Err,
        },
{
    serde_json::from_value(value)
}

/// A copy of an optional value.
pub(crate) fn clone_opt_value(value: &Option<Value>) -> (copy: Option<Value>)
    ensures
        opt_json_of(copy) == opt_json_of(*value),
{
    match value {
        Some(value) => Some(clone_value(value)),
        None => None,
    }
}

/// The value, or `null` where there is none.
pub(crate) fn value_or_null(value: Option<Value>) -> (result: Value)
    ensures
        json_of(result) == Json::or_null(opt_json_of(value)),
{
    match value {
        Some(value) => value,
        None => null_value(),
    }
}

} // verus!

//! JSON values as the library reads them. Text is parsed and printed by
//! `serde_json`; everything the library decides from a value it reads here,
//! through the accessors below.

use vstd::prelude::*;
use crate::text::{first_index, lemma_first_index_is, lemma_first_index_none, str_eq};

verus! {

#[verifier::external_type_specification]
#[verifier::external_body]
pub struct ExJsonValue(serde_json::Value);

/// A JSON number: its value as an `i64` and as a `u64` where it is an
/// integer in range, and its text.
#[derive(Clone, Debug)]
pub struct JsonNumber {
    pub int: Option<i64>,
    pub uint: Option<u64>,
    pub repr: String,
}

/// A JSON value. Object members keep the order `serde_json` gives them.
#[derive(Debug)]
pub enum Json {
    Null,
    Bool(bool),
    Number(JsonNumber),
    Str(String),
    Array(Vec<Json>),
    Object(Vec<(String, Json)>),
}

/// What `serde_json::from_str` makes of a text, as a `Json`; `None` when the
/// text is not JSON.
pub uninterp spec fn json_of_text(text: Seq<char>) -> Option<Json>;

/// The text `serde_json` prints for a value (`Value::to_string`).
pub uninterp spec fn json_text(j: Json) -> Seq<char>;

/// A `serde_json::Value` as a `Json`, member for member.
#[verifier::external_body]
fn from_value(v: &serde_json::Value) -> Json {
    match v {
        serde_json::Value::Null => Json::Null,
        serde_json::Value::Bool(b) => Json::Bool(*b),
        serde_json::Value::Number(n) => Json::Number(JsonNumber { int: n.as_i64(), uint: n.as_u64(), repr: n.to_string() }),
        serde_json::Value::String(s) => Json::Str(s.clone()),
        serde_json::Value::Array(a) => Json::Array(a.iter().map(from_value).collect()),
        serde_json::Value::Object(o) => Json::Object(o.iter().map(|(k, x)| (k.clone(), from_value(x))).collect()),
    }
}

/// A `Json` as a `serde_json::Value`: members are inserted in order (a later
/// member replaces an earlier one of the same name), numbers are read back
/// from their text.
#[verifier::external_body]
fn to_value(j: &Json) -> serde_json::Value {
    match j {
        Json::Null => serde_json::Value::Null,
        Json::Bool(b) => serde_json::Value::Bool(*b),
        Json::Number(n) => serde_json::from_str(&n.repr).unwrap_or(serde_json::Value::Null),
        Json::Str(s) => serde_json::Value::String(s.clone()),
        Json::Array(a) => serde_json::Value::Array(a.iter().map(to_value).collect()),
        Json::Object(o) => serde_json::Value::Object(o.iter().map(|(k, x)| (k.clone(), to_value(x))).collect()),
    }
}

/// Parses JSON text with `serde_json::from_str::<serde_json::Value>`; `None`
/// when the text is not JSON. The value is named by `json_of_text`, not
/// described.
#[verifier::external_body]
pub fn parse_json(text: &str) -> (r: Option<Json>)
    ensures
        r == json_of_text(text@),
{
    serde_json::from_str::<serde_json::Value>(text).ok().map(|v| from_value(&v))
}

/// The message `serde_json` gives for text that is not JSON (the error's
/// `Display`, with its line and column).
pub uninterp spec fn json_error_text(text: Seq<char>) -> Seq<char>;

/// Parses JSON text as `parse_json` does, keeping `serde_json`'s message
/// when the text is not JSON. The message is named by `json_error_text`,
/// not described.
#[verifier::external_body]
pub fn parse_json_reporting(text: &str) -> (r: Result<Json, String>)
    ensures
        match r {
            Ok(j) => json_of_text(text@) == Some(j),
            Err(e) => json_of_text(text@) is None && e@ == json_error_text(text@),
        },
{
    match serde_json::from_str::<serde_json::Value>(text) {
        Ok(v) => Ok(from_value(&v)),
        Err(e) => Err(e.to_string()),
    }
}

/// Prints a value as compact JSON text with `serde_json`
/// (`Value::to_string`). The text is named by `json_text`, not described.
#[verifier::external_body]
pub fn to_json_string(j: &Json) -> (r: String)
    ensures
        r@ == json_text(*j),
{
    to_value(j).to_string()
}

pub open spec fn has_key(key: Seq<char>) -> spec_fn((String, Json)) -> bool {
    |m: (String, Json)| m.0@ == key
}

/// The member `key` of an object (the first, should the name repeat).
pub open spec fn field(o: Option<Json>, key: Seq<char>) -> Option<Json> {
    match o {
        Some(Json::Object(members)) => match first_index(members@, has_key(key)) {
            Some(i) => Some(members@[i].1),
            None => None,
        },
        _ => None,
    }
}

/// Element `i` of an array.
pub open spec fn item(o: Option<Json>, i: int) -> Option<Json> {
    match o {
        Some(Json::Array(items)) => if 0 <= i < items@.len() {
            Some(items@[i])
        } else {
            None
        },
        _ => None,
    }
}

/// The elements of an array.
pub open spec fn elements(o: Option<Json>) -> Option<Seq<Json>> {
    match o {
        Some(Json::Array(items)) => Some(items@),
        _ => None,
    }
}

/// A string's text (`Value::as_str`).
pub open spec fn text(o: Option<Json>) -> Option<Seq<char>> {
    match o {
        Some(Json::Str(s)) => Some(s@),
        _ => None,
    }
}

/// An integer in `i64` range (`Value::as_i64`).
pub open spec fn int64(o: Option<Json>) -> Option<i64> {
    match o {
        Some(Json::Number(n)) => n.int,
        _ => None,
    }
}

/// An integer in `u64` range (`Value::as_u64`).
pub open spec fn uint64(o: Option<Json>) -> Option<u64> {
    match o {
        Some(Json::Number(n)) => n.uint,
        _ => None,
    }
}

pub open spec fn opt_ref(o: Option<&Json>) -> Option<Json> {
    match o {
        Some(j) => Some(*j),
        None => None,
    }
}

/// The member `key` of an object (see `field`).
pub fn get<'a>(o: Option<&'a Json>, key: &str) -> (r: Option<&'a Json>)
    ensures
        opt_ref(r) == field(opt_ref(o), key@),
{
    match o {
        Some(Json::Object(members)) => {
            let mut i: usize = 0;
            while i < members.len()
                invariant
                    i <= members.len(),
                    opt_ref(o) == Some(Json::Object(*members)),
                    forall|k: int| 0 <= k < i ==> !(has_key(key@))(#[trigger] members@[k]),
                decreases members.len() - i,
            {
                if str_eq(members[i].0.as_str(), key) {
                    proof {
                        lemma_first_index_is(members@, has_key(key@), i as int);
                    }
                    return Some(&members[i].1);
                }
                i = i + 1;
            }
            proof {
                lemma_first_index_none(members@, has_key(key@));
            }
            None
        },
        _ => None,
    }
}

/// Element `i` of an array (see `item`).
pub fn at<'a>(o: Option<&'a Json>, i: usize) -> (r: Option<&'a Json>)
    ensures
        opt_ref(r) == item(opt_ref(o), i as int),
{
    match o {
        Some(Json::Array(items)) => if i < items.len() {
            Some(&items[i])
        } else {
            None
        },
        _ => None,
    }
}

/// The elements of an array (see `elements`).
pub fn as_array<'a>(o: Option<&'a Json>) -> (r: Option<&'a Vec<Json>>)
    ensures
        match r {
            Some(v) => elements(opt_ref(o)) == Some(v@),
            None => elements(opt_ref(o)) is None,
        },
{
    match o {
        Some(Json::Array(items)) => Some(items),
        _ => None,
    }
}

/// A string's text (see `text`).
pub fn as_str<'a>(o: Option<&'a Json>) -> (r: Option<&'a str>)
    ensures
        match r {
            Some(s) => text(opt_ref(o)) == Some(s@),
            None => text(opt_ref(o)) is None,
        },
{
    match o {
        Some(Json::Str(s)) => Some(s.as_str()),
        _ => None,
    }
}

/// An integer in `i64` range (see `int64`).
pub fn as_i64(o: Option<&Json>) -> (r: Option<i64>)
    ensures
        r == int64(opt_ref(o)),
{
    match o {
        Some(Json::Number(n)) => n.int,
        _ => None,
    }
}

/// An integer in `u64` range (see `uint64`).
pub fn as_u64(o: Option<&Json>) -> (r: Option<u64>)
    ensures
        r == uint64(opt_ref(o)),
{
    match o {
        Some(Json::Number(n)) => n.uint,
        _ => None,
    }
}

} // verus!

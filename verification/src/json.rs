//! The JSON payload boundary.
//!
//! Payloads cross the host protocol as JSON text.  Parsing and re-rendering
//! that text is `serde_json`'s work, reached through the trusted items below;
//! everything a payload's content decides is expressed over the abstract
//! [`JsonData`] model, so the dispatch and validation logic around the calls
//! is verified.

use vstd::prelude::*;
use crate::module_meta::IntoPropertyArgument;

verus! {

/// The abstract content of a JSON document.  An integer representable as a
/// signed 64-bit value is `Int`; any other number is `NumOther`, carrying its
/// canonical rendering — distinct such numbers render distinctly, so the
/// rendering identifies the number and the content stays a function of the
/// value.  Object entries appear in the map's iteration order, which for
/// `serde_json`'s default map is sorted by key, with each key unique.
pub enum JsonData {
    Null,
    Bool(bool),
    Int(int),
    NumOther(Seq<char>),
    Str(Seq<char>),
    Arr(Seq<JsonData>),
    Obj(Seq<(Seq<char>, JsonData)>),
}

#[verifier::external_type_specification]
#[verifier::external_body]
pub struct ExValue(serde_json::Value);

/// The abstract content a `serde_json::Value` holds.
pub uninterp spec fn json_view(v: serde_json::Value) -> JsonData;

/// What parsing a text as JSON yields: the parse is a function of the text
/// alone, `None` standing for a parse error.
pub uninterp spec fn json_parse_of(s: Seq<char>) -> Option<JsonData>;

/// The canonical text `serde_json` renders for a document: a function of the
/// abstract content alone, since the default map iterates sorted by key and
/// a non-integer number's content carries its rendering.
pub uninterp spec fn json_text_of(d: JsonData) -> Seq<char>;

/// Relies on `serde_json::from_str::<Value>`: deterministic in the input
/// text, `Err` exactly on malformed JSON.
#[verifier::external_body]
pub fn json_parse(s: &str) -> (r: Option<serde_json::Value>)
    ensures
        match r {
            Option::Some(v) => json_parse_of(s@) == Option::Some(json_view(v)),
            Option::None => json_parse_of(s@) is None,
        },
{
    serde_json::from_str::<serde_json::Value>(s).ok()
}

/// Relies on `serde_json::to_string` on a `Value`, which cannot fail (every
/// map key is a string) and is deterministic in the value's content.
#[verifier::external_body]
pub fn json_to_text(v: &serde_json::Value) -> (r: String)
    ensures
        r@ == json_text_of(json_view(*v)),
{
    match serde_json::to_string(v) {
        Ok(s) => s,
        Err(_) => String::new(),
    }
}

/// Relies on `Value::as_bool`: `Some` exactly for a boolean.
#[verifier::external_body]
pub fn json_as_bool(v: &serde_json::Value) -> (r: Option<bool>)
    ensures
        match json_view(*v) {
            JsonData::Bool(b) => r == Option::Some(b),
            _ => r is None,
        },
{
    v.as_bool()
}

/// Relies on `Value::as_i64`: `Some` exactly for an integer number that fits
/// a signed 64-bit value.
#[verifier::external_body]
pub fn json_as_i64(v: &serde_json::Value) -> (r: Option<i64>)
    ensures
        match json_view(*v) {
            JsonData::Int(i) => i64::MIN <= i <= i64::MAX && r == Option::Some(i as i64),
            _ => r is None,
        },
{
    v.as_i64()
}

/// Relies on `Value::as_str`: `Some` exactly for a string, handing out its
/// characters.
#[verifier::external_body]
pub fn json_as_str<'a>(v: &'a serde_json::Value) -> (r: Option<&'a str>)
    ensures
        match json_view(*v) {
            JsonData::Str(s) => r matches Option::Some(t) && t@ == s,
            _ => r is None,
        },
{
    v.as_str()
}

/// Relies on `Value::as_array`: `Some` exactly for an array, handing out its
/// elements in order.
#[verifier::external_body]
pub fn json_as_array<'a>(v: &'a serde_json::Value) -> (r: Option<&'a Vec<serde_json::Value>>)
    ensures
        match json_view(*v) {
            JsonData::Arr(elems) => r matches Option::Some(a) && a@.len() == elems.len() && (forall|
                i: int,
            |
                0 <= i < elems.len() ==> json_view(#[trigger] a@[i]) == elems[i]),
            _ => r is None,
        },
{
    v.as_array()
}

/// Relies on `Value::is_object`.
#[verifier::external_body]
pub fn json_is_object(v: &serde_json::Value) -> (r: bool)
    ensures
        r == (json_view(*v) is Obj),
{
    v.is_object()
}

/// The value the first entry with the given key holds, if any; object keys
/// are unique, so this is the object's field.
pub open spec fn obj_field(entries: Seq<(Seq<char>, JsonData)>, key: Seq<char>) -> Option<JsonData>
    decreases entries.len(),
{
    if entries.len() == 0 {
        Option::None
    } else if entries[0].0 == key {
        Option::Some(entries[0].1)
    } else {
        obj_field(entries.drop_first(), key)
    }
}

/// Relies on `Value::as_object` and `Map::get`: the entry for the key, if
/// the value is an object holding one.
#[verifier::external_body]
pub fn json_obj_get<'a>(v: &'a serde_json::Value, key: &str) -> (r: Option<&'a serde_json::Value>)
    ensures
        match json_view(*v) {
            JsonData::Obj(entries) => match r {
                Option::Some(f) => obj_field(entries, key@) == Option::Some(json_view(*f)),
                Option::None => obj_field(entries, key@) is None,
            },
            _ => r is None,
        },
{
    v.as_object().and_then(|m| m.get(key))
}

/// Relies on `Value::is_null`.
#[verifier::external_body]
pub fn json_is_null(v: &serde_json::Value) -> (r: bool)
    ensures
        r == (json_view(*v) is Null),
{
    v.is_null()
}

/// Relies on `Value::as_object` and the map's in-order iteration: an
/// object's entries, keys and values, in iteration order.
#[verifier::external_body]
pub fn json_obj_entries(v: &serde_json::Value) -> (r: Option<Vec<(String, serde_json::Value)>>)
    ensures
        match json_view(*v) {
            JsonData::Obj(entries) => r matches Option::Some(es) && es@.len() == entries.len() && (
            forall|i: int|
                0 <= i < entries.len() ==> (#[trigger] es@[i]).0@ == entries[i].0 && json_view(
                    es@[i].1,
                ) == entries[i].1),
            _ => r is None,
        },
{
    v.as_object().map(|m| m.iter().map(|(k, val)| (k.clone(), val.clone())).collect())
}

/// Parses a payload and re-renders it canonically: `Some` exactly on
/// well-formed JSON, whose stored form is then the canonical text of its
/// content.
pub fn json_normalize(s: &str) -> (r: Option<String>)
    ensures
        match json_parse_of(s@) {
            Option::Some(d) => r matches Option::Some(t) && t@ == json_text_of(d),
            Option::None => r is None,
        },
{
    match json_parse(s) {
        Some(v) => Some(json_to_text(&v)),
        None => None,
    }
}

impl IntoPropertyArgument<Option<serde_json::Value>> for String {
    /// A payload string converts to the JSON document it encodes, if any.
    fn into_arg(self) -> Option<serde_json::Value> {
        json_parse(self.as_str())
    }
}

} // verus!

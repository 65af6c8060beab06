//! A ghost model of JSON documents, and trusted access to
//! `serde_json` values through it.
//!
//! A parsed `serde_json::Value` is opaque to the verifier; the spec
//! enum [`JVal`] names what such a value holds, the uninterpreted
//! functions [`jmodel`] and [`json_parse`] tie values and parsing to
//! that model, and small trusted wrappers expose exactly the accessors
//! the pipeline needs.

use vstd::prelude::*;

verus! {

#[verifier::external_type_specification]
#[verifier::external_body]
pub struct ExJsonValue(serde_json::Value);

/// What a JSON value holds. A number is carried as its decimal text,
/// so that the model never touches floating point.
pub enum JVal {
    Null,
    Bool(bool),
    Num(Seq<char>),
    Str(Seq<char>),
    Arr(Seq<JVal>),
    Obj(Seq<(Seq<char>, JVal)>),
}

/// The contents of a parsed `serde_json::Value`.
pub uninterp spec fn jmodel(v: serde_json::Value) -> JVal;

/// What `serde_json::from_str::<Value>` yields on a given text:
/// `None` where the text is not a JSON document.
pub uninterp spec fn json_parse(s: Seq<char>) -> Option<JVal>;

/// First binding of `key` among an object's fields (`serde_json`
/// objects keep keys unique, so first is the only one).
pub open spec fn obj_lookup(fields: Seq<(Seq<char>, JVal)>, key: Seq<char>) -> Option<JVal>
    decreases fields.len(),
{
    if fields.len() == 0 {
        None
    } else if fields[0].0 == key {
        Some(fields[0].1)
    } else {
        obj_lookup(fields.skip(1), key)
    }
}

/// Relies on `serde_json::from_str::<serde_json::Value>`: parses a
/// complete JSON document, or fails; the result depends on the text
/// alone.
#[verifier::external_body]
pub(crate) fn parse_json(s: &str) -> (r: Option<serde_json::Value>)
    ensures
        r matches Some(v) ==> json_parse(s@) == Some(jmodel(v)),
        r is None ==> json_parse(s@) is None,
{
    serde_json::from_str::<serde_json::Value>(s).ok()
}

/// Relies on `serde_json::Value::get` with a string index: on an
/// object, looks the key up; on anything else, `None`.
#[verifier::external_body]
pub(crate) fn get_field<'a>(v: &'a serde_json::Value, key: &str) -> (r: Option<&'a serde_json::Value>)
    ensures
        match jmodel(*v) {
            JVal::Obj(fields) => {
                &&& r matches Some(f) ==> obj_lookup(fields, key@) == Some(jmodel(*f))
                &&& r is None ==> obj_lookup(fields, key@) is None
            },
            _ => r is None,
        },
{
    v.get(key)
}

/// Relies on `serde_json::Value::as_array`: on an array, its elements
/// in order; on anything else, `None`.
#[verifier::external_body]
pub(crate) fn as_array_value<'a>(v: &'a serde_json::Value) -> (r: Option<&'a Vec<serde_json::Value>>)
    ensures
        match jmodel(*v) {
            JVal::Arr(items) => {
                &&& r matches Some(a)
                &&& (r matches Some(a) ==> a@.len() == items.len() && (forall|i: int|
                    0 <= i < items.len() ==> jmodel(#[trigger] a@[i]) == items[i]))
            },
            _ => r is None,
        },
{
    v.as_array()
}

/// Relies on `serde_json::Value::as_str`: on a string, its text; on
/// anything else, `None`.
#[verifier::external_body]
pub(crate) fn as_str_value<'a>(v: &'a serde_json::Value) -> (r: Option<&'a str>)
    ensures
        match jmodel(*v) {
            JVal::Str(s) => r matches Some(t) && t@ == s,
            _ => r is None,
        },
{
    v.as_str()
}

/// Relies on `serde_json::Number`'s `Display` (via `ToString`): the
/// decimal text of a JSON number; on anything but a number, `None`.
#[verifier::external_body]
pub(crate) fn number_text(v: &serde_json::Value) -> (r: Option<String>)
    ensures
        match jmodel(*v) {
            JVal::Num(t) => r matches Some(s) && s@ == t,
            _ => r is None,
        },
{
    match v {
        serde_json::Value::Number(n) => Some(n.to_string()),
        _ => None,
    }
}

/// The text part a transcription or analysis reply carries, at
/// `candidates[0].content.parts[0].text`; `None` wherever the shape
/// deviates.
pub open spec fn spec_reply_text(j: JVal) -> Option<Seq<char>> {
    match j {
        JVal::Obj(root) => match obj_lookup(root, "candidates"@) {
            Some(JVal::Arr(cands)) => if cands.len() >= 1 {
                match cands[0] {
                    JVal::Obj(cand) => match obj_lookup(cand, "content"@) {
                        Some(JVal::Obj(content)) => match obj_lookup(content, "parts"@) {
                            Some(JVal::Arr(parts)) => if parts.len() >= 1 {
                                match parts[0] {
                                    JVal::Obj(part) => match obj_lookup(part, "text"@) {
                                        Some(JVal::Str(t)) => Some(t),
                                        _ => None,
                                    },
                                    _ => None,
                                }
                            } else {
                                None
                            },
                            _ => None,
                        },
                        _ => None,
                    },
                    _ => None,
                }
            } else {
                None
            },
            _ => None,
        },
        _ => None,
    }
}

/// Walks a parsed reply down to its first text part.
pub fn reply_text(root: &serde_json::Value) -> (r: Option<String>)
    ensures
        r matches Some(s) ==> spec_reply_text(jmodel(*root)) == Some(s@),
        r is None ==> spec_reply_text(jmodel(*root)) is None,
{
    let candidates = match get_field(root, "candidates") {
        Some(c) => c,
        None => {
            return None;
        },
    };
    let cands = match as_array_value(candidates) {
        Some(a) => a,
        None => {
            return None;
        },
    };
    if cands.len() == 0 {
        return None;
    }
    let content = match get_field(&cands[0], "content") {
        Some(c) => c,
        None => {
            return None;
        },
    };
    let parts_field = match get_field(content, "parts") {
        Some(p) => p,
        None => {
            return None;
        },
    };
    let parts = match as_array_value(parts_field) {
        Some(a) => a,
        None => {
            return None;
        },
    };
    if parts.len() == 0 {
        return None;
    }
    let text_field = match get_field(&parts[0], "text") {
        Some(t) => t,
        None => {
            return None;
        },
    };
    match as_str_value(text_field) {
        Some(t) => Some(String::from_str(t)),
        None => None,
    }
}

} // verus!

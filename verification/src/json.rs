//! Trusted access to the JSON crate, specified against a model: a parsed
//! value's contents are named as a specification-level JSON document, the
//! parser ties that document to the text alone, and each accessor says
//! exactly which member of the document it hands out. Everything that
//! interprets an answer is then verified against the document.
use vstd::prelude::*;

verus! {

/// A JSON document at the specification level: null, booleans, integer
/// numbers by value, other numbers kept abstract, strings, arrays and
/// objects of documents.
pub enum JVal {
    Null,
    Bool(bool),
    Num(int),
    Float,
    Str(Seq<char>),
    Arr(Seq<JVal>),
    Obj(Map<Seq<char>, JVal>),
}

#[verifier::external_type_specification]
#[verifier::external_body]
pub struct ExValue(serde_json::Value);

/// Whether `s` is a well-formed JSON document to the JSON crate's parser.
pub uninterp spec fn json_wf(s: Seq<char>) -> bool;

/// The document the JSON crate's parser reads from `s`, meaningful on
/// well-formed text.
pub uninterp spec fn json_doc(s: Seq<char>) -> JVal;

/// The document a parsed JSON value holds.
pub uninterp spec fn json_model(v: serde_json::Value) -> JVal;

/// The documents held by a sequence of parsed values, in order.
pub open spec fn arr_models(vs: Seq<serde_json::Value>) -> Seq<JVal> {
    Seq::new(vs.len(), |i: int| json_model(vs[i]))
}

/// Relies on `serde_json::from_str` for `Value`: parsing is a function of
/// the text alone, succeeds exactly on well-formed JSON, and the parsed
/// value holds the text's document.
#[verifier::external_body]
pub fn json_parse(s: &str) -> (r: Option<serde_json::Value>)
    ensures
        r is Some <==> json_wf(s@),
        r matches Some(v) ==> json_model(v) == json_doc(s@),
{
    serde_json::from_str(s).ok()
}

/// Relies on `serde_json::Value::get`: the member of an object under a
/// key, exactly when the value is an object that has it.
#[verifier::external_body]
pub fn json_get<'a>(v: &'a serde_json::Value, key: &str) -> (r: Option<&'a serde_json::Value>)
    ensures
        match r {
            Some(m) => json_model(*v) matches JVal::Obj(o) && o.dom().contains(key@)
                && json_model(*m) == o[key@],
            None => !(json_model(*v) matches JVal::Obj(o) && o.dom().contains(key@)),
        },
{
    v.get(key)
}

/// Relies on `serde_json::Value::as_str`: the text of a JSON string
/// value, owned; nothing for any other value.
#[verifier::external_body]
pub fn json_as_str(v: &serde_json::Value) -> (r: Option<String>)
    ensures
        match r {
            Some(t) => json_model(*v) matches JVal::Str(q) && t@ == q,
            None => !(json_model(*v) is Str),
        },
{
    match v.as_str() {
        Some(s) => Some(s.to_string()),
        None => None,
    }
}

/// Relies on `serde_json::Value::as_i64`: the value of a JSON integer
/// that fits a signed 64-bit number; nothing for other numbers or other
/// values.
#[verifier::external_body]
pub fn json_as_i64(v: &serde_json::Value) -> (r: Option<i64>)
    ensures
        match r {
            Some(n) => json_model(*v) matches JVal::Num(m) && m == n as int,
            None => !(json_model(*v) matches JVal::Num(m) && i64::MIN <= m <= i64::MAX),
        },
{
    v.as_i64()
}

/// Relies on `serde_json::Value::as_array`: the elements of a JSON array
/// value, holding the document's elements in order.
#[verifier::external_body]
pub fn json_as_array<'a>(v: &'a serde_json::Value) -> (r: Option<&'a Vec<serde_json::Value>>)
    ensures
        match r {
            Some(a) => json_model(*v) matches JVal::Arr(elems) && arr_models(a@) == elems,
            None => !(json_model(*v) is Arr),
        },
{
    v.as_array()
}

/// The string member of an object document under `k`, when the document
/// is an object holding a string there.
pub open spec fn jstr_field(j: JVal, k: Seq<char>) -> Option<Seq<char>> {
    match j {
        JVal::Obj(o) => if o.dom().contains(k) {
            match o[k] {
                JVal::Str(t) => Some(t),
                _ => None,
            }
        } else {
            None
        },
        _ => None,
    }
}

/// The integer member of an object document under `k`, when the document
/// is an object holding there an integer that fits a signed 64-bit
/// number.
pub open spec fn jint_field(j: JVal, k: Seq<char>) -> Option<int> {
    match j {
        JVal::Obj(o) => if o.dom().contains(k) {
            match o[k] {
                JVal::Num(n) => if i64::MIN <= n <= i64::MAX {
                    Some(n)
                } else {
                    None
                },
                _ => None,
            }
        } else {
            None
        },
        _ => None,
    }
}

/// The array member of an object document under `k`, when the document
/// is an object holding an array there.
pub open spec fn jarr_field(j: JVal, k: Seq<char>) -> Option<Seq<JVal>> {
    match j {
        JVal::Obj(o) => if o.dom().contains(k) {
            match o[k] {
                JVal::Arr(elems) => Some(elems),
                _ => None,
            }
        } else {
            None
        },
        _ => None,
    }
}

/// Reads the string member of `v` under `key`, exactly as `jstr_field`
/// reads the document.
pub fn get_str_field(v: &serde_json::Value, key: &str) -> (r: Option<String>)
    ensures
        match r {
            Some(t) => jstr_field(json_model(*v), key@) matches Some(q) && t@ == q,
            None => jstr_field(json_model(*v), key@) is None,
        },
{
    match json_get(v, key) {
        Some(x) => json_as_str(x),
        None => None,
    }
}

/// Reads the integer member of `v` under `key`, exactly as `jint_field`
/// reads the document.
pub fn get_i64_field(v: &serde_json::Value, key: &str) -> (r: Option<i64>)
    ensures
        match r {
            Some(n) => jint_field(json_model(*v), key@) matches Some(m) && m == n as int,
            None => jint_field(json_model(*v), key@) is None,
        },
{
    match json_get(v, key) {
        Some(x) => json_as_i64(x),
        None => None,
    }
}

/// Reads the array member of `v` under `key`, exactly as `jarr_field`
/// reads the document.
pub fn get_arr_field<'a>(v: &'a serde_json::Value, key: &str) -> (r: Option<
    &'a Vec<serde_json::Value>,
>)
    ensures
        match r {
            Some(a) => jarr_field(json_model(*v), key@) matches Some(e) && arr_models(a@) == e,
            None => jarr_field(json_model(*v), key@) is None,
        },
{
    match json_get(v, key) {
        Some(x) => json_as_array(x),
        None => None,
    }
}

} // verus!

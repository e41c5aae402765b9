//! JSON values held as plain data of the library's own, and the
//! trusted boundary to `serde_json`, which does the actual parsing.

use vstd::prelude::*;

verus! {

/// A JSON number: its value when it is a non-negative integer fitting
/// `u64`, and its decimal text in every case.
#[derive(Debug)]
pub struct JsonNum {
    pub int_val: Option<u64>,
    pub text: String,
}

/// A `JsonNum` as plain sequences.
#[verifier::ext_equal]
pub struct JsonNumView {
    pub int_val: Option<u64>,
    pub text: Seq<char>,
}

impl View for JsonNum {
    type V = JsonNumView;

    open spec fn view(&self) -> JsonNumView {
        JsonNumView { int_val: self.int_val, text: self.text@ }
    }
}

/// A parsed JSON document, held as plain values of the library's own.
#[derive(Debug)]
pub enum JsonVal {
    Null,
    Bool(bool),
    Num(JsonNum),
    Str(String),
    Arr(Vec<JsonVal>),
    Obj(Vec<(String, JsonVal)>),
}

#[verifier::external_type_specification]
#[verifier::external_body]
pub struct ExJsonValue(serde_json::Value);

/// What parsing the text `s` as JSON yields, when it is well-formed: a
/// name for the outcome of `serde_json`'s parse, which depends on the
/// text alone.
pub uninterp spec fn parsed_json(s: Seq<char>) -> Option<JsonVal>;

/// Relies on `serde_json::Value`'s variants and on
/// `serde_json::Number::{as_u64, to_string}`: carries a parsed value
/// over into the library's own shape, one variant to one variant,
/// object entries in the order the map iterates them.
#[verifier::external_body]
fn convert_json(v: &serde_json::Value) -> JsonVal {
    match v {
        serde_json::Value::Null => JsonVal::Null,
        serde_json::Value::Bool(b) => JsonVal::Bool(*b),
        serde_json::Value::Number(n) => JsonVal::Num(
            JsonNum { int_val: n.as_u64(), text: n.to_string() },
        ),
        serde_json::Value::String(s) => JsonVal::Str(s.clone()),
        serde_json::Value::Array(a) => JsonVal::Arr(a.iter().map(convert_json).collect()),
        serde_json::Value::Object(m) => JsonVal::Obj(
            m.iter().map(|(k, x)| (k.clone(), convert_json(x))).collect(),
        ),
    }
}

/// Relies on `serde_json::from_str::<serde_json::Value>`: parses JSON
/// text, deterministically in the text (object keys come out in the
/// map's fixed order); a parse failure carries `serde_json`'s message.
#[verifier::external_body]
pub fn parse_json(s: &str) -> (r: Result<JsonVal, String>)
    ensures
        r is Ok <==> parsed_json(s@) is Some,
        r is Ok ==> r->Ok_0 == parsed_json(s@)->Some_0,
{
    match serde_json::from_str::<serde_json::Value>(s) {
        Ok(v) => Ok(convert_json(&v)),
        Err(e) => Err(format!("Failed to parse JSON: {}", e)),
    }
}

} // verus!

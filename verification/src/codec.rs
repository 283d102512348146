//! The trusted boundary to `serde_json`: parsing document text into the
//! library's tree and rendering a tree back to pretty-printed text.
//!
//! Both directions are named rather than specified in full: [`json_parse`]
//! stands for what `serde_json`'s parser yields for a given text, and
//! [`json_text_of`] for the pretty text it writes for a given tree. Everything
//! the library proves about documents goes through these two names.

use vstd::prelude::*;

use serde_json::Value;

use crate::json::{Json, JsonSpec};

verus! {

#[verifier::external_type_specification]
#[verifier::external_body]
pub struct ExValue(Value);

/// What `serde_json::from_str` yields for a given text, as this library's
/// tree; `None` where the text is not valid JSON.
pub uninterp spec fn json_parse(s: Seq<char>) -> Option<JsonSpec>;

/// The pretty-printed text `serde_json::to_string_pretty` writes for a tree.
pub uninterp spec fn json_text_of(v: JsonSpec) -> Seq<char>;

/// Relies on `serde_json::Value`'s variants: each is moved to the matching
/// tree node; integers through `Number::as_i64`, any other number as its text.
#[verifier::external_body]
fn tree_of_value(v: &Value) -> Json {
    match v {
        Value::Null => Json::Null,
        Value::Bool(b) => Json::Bool(*b),
        Value::Number(n) => match n.as_i64() {
            Some(i) => Json::Int(i),
            None => Json::Num(n.to_string()),
        },
        Value::String(s) => Json::Str(s.clone()),
        Value::Array(a) => Json::Arr(a.iter().map(tree_of_value).collect()),
        Value::Object(o) => Json::Obj(
            o.iter().map(|(k, x)| (k.clone(), tree_of_value(x))).collect(),
        ),
    }
}

/// Relies on the tree's variants: each is moved to the matching
/// `serde_json::Value`; number text back through `Number`'s `FromStr`.
#[verifier::external_body]
fn value_of_tree(v: &Json) -> Value {
    match v {
        Json::Null => Value::Null,
        Json::Bool(b) => Value::Bool(*b),
        Json::Int(i) => Value::Number(serde_json::Number::from(*i)),
        Json::Num(s) => match s.parse::<serde_json::Number>() {
            Ok(n) => Value::Number(n),
            Err(_) => Value::String(s.clone()),
        },
        Json::Str(s) => Value::String(s.clone()),
        Json::Arr(a) => Value::Array(a.iter().map(value_of_tree).collect()),
        Json::Obj(o) => Value::Object(
            o.iter().map(|(k, x)| (k.clone(), value_of_tree(x))).collect(),
        ),
    }
}

/// Relies on `serde_json::from_str::<Value>`: the outcome depends on the text
/// alone; the error carries `serde_json`'s own message.
#[verifier::external_body]
pub fn parse_json(s: &str) -> (r: Result<Json, String>)
    ensures
        r is Ok <==> json_parse(s@) is Some,
        r is Ok ==> r->Ok_0@ == json_parse(s@)->0,
{
    match serde_json::from_str::<Value>(s) {
        Ok(v) => Ok(tree_of_value(&v)),
        Err(e) => Err(e.to_string()),
    }
}

/// Relies on `serde_json::to_string_pretty`: the text depends on the tree
/// alone (object keys are written in `serde_json`'s own order).
#[verifier::external_body]
pub fn render_json(v: &Json) -> (r: String)
    ensures
        r@ == json_text_of(v@),
{
    match serde_json::to_string_pretty(&value_of_tree(v)) {
        Ok(s) => s,
        Err(_) => String::new(),
    }
}

} // verus!

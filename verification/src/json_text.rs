//! JSON documents in text form.

use vstd::prelude::*;
use crate::json::{json_tree, Json, JsonNumber, JsonView, NumberView};

verus! {

/// The JSON value type of `serde_json`.
#[verifier::external_type_specification]
#[verifier::external_body]
pub struct ExValue(serde_json::Value);

/// The error type of `serde_json`.
#[verifier::external_type_specification]
#[verifier::external_body]
pub struct ExJsonError(serde_json::Error);

/// The tree that a `serde_json` value holds.
pub uninterp spec fn value_tree(value: serde_json::Value) -> JsonView;

/// What a `serde_json` error says.
pub uninterp spec fn error_text(error: serde_json::Error) -> Seq<char>;

/// The tree that a JSON text stands for, or what is said of a text that is no JSON text.
pub uninterp spec fn json_reading(text: Seq<char>) -> Result<JsonView, Seq<char>>;

/// The tree that a JSON text stands for, if it is a JSON text.
pub open spec fn json_document(text: Seq<char>) -> Option<JsonView> {
    match json_reading(text) {
        Ok(tree) => Some(tree),
        Err(_) => None,
    }
}

/// The outermost layer of a JSON value.
pub enum JsonLayer {
    Null,
    Bool(bool),
    Number(Option<i64>, String),
    Text(String),
    Array(Vec<serde_json::Value>),
    Object(Vec<(String, serde_json::Value)>),
}

/// The tree of which `layer` is the outermost layer.
pub open spec fn layer_tree(layer: JsonLayer) -> JsonView {
    match layer {
        JsonLayer::Null => JsonView::Null,
        JsonLayer::Bool(b) => JsonView::Bool(b),
        JsonLayer::Number(integer, text) => JsonView::Number(NumberView { integer, text: text@ }),
        JsonLayer::Text(t) => JsonView::Text(t@),
        JsonLayer::Array(items) => JsonView::Array(
            items@.map_values(|item: serde_json::Value| value_tree(item)),
        ),
        JsonLayer::Object(members) => JsonView::Object(
            members@.map_values(|m: (String, serde_json::Value)| (m.0@, value_tree(m.1))),
        ),
    }
}

/// `serde_json::from_str` reads a JSON text. The tree that it gives, or what the error says, is a
/// function of the text alone.
#[verifier::external_body]
fn parse_value(raw: &str) -> (r: Result<serde_json::Value, serde_json::Error>)
    ensures
        match r {
            Ok(value) => json_reading(raw@) == Ok::<JsonView, Seq<char>>(value_tree(value)),
            Err(error) => json_reading(raw@) == Err::<JsonView, Seq<char>>(error_text(error)),
        },
{
    serde_json::from_str(raw)
}

/// The `Display` form of `serde_json::Error`: what the error says, and where in the text it stands.
#[verifier::external_body]
fn error_message(error: &serde_json::Error) -> (r: String)
    ensures
        r@ == error_text(*error),
{
    error.to_string()
}

/// Takes a `serde_json::Value` apart, one variant for one: the layer holds what the value holds. A
/// number is told by `Number::as_i64` and by its text, and the members of an object come in the order
/// in which `serde_json::Map` walks them.
#[verifier::external_body]
fn value_layer(value: serde_json::Value) -> (r: JsonLayer)
    ensures
        layer_tree(r) == value_tree(value),
{
    match value {
        serde_json::Value::Null => JsonLayer::Null,
        serde_json::Value::Bool(b) => JsonLayer::Bool(b),
        serde_json::Value::Number(n) => JsonLayer::Number(n.as_i64(), n.to_string()),
        serde_json::Value::String(t) => JsonLayer::Text(t),
        serde_json::Value::Array(items) => JsonLayer::Array(items),
        serde_json::Value::Object(members) => JsonLayer::Object(members.into_iter().collect()),
    }
}

/// The value that a `serde_json` value is.
pub fn json_of_value(value: serde_json::Value) -> (r: Json)
    ensures
        r@ == value_tree(value),
    decreases value_tree(value),
{
    match value_layer(value) {
        JsonLayer::Null => Json::Null,
        JsonLayer::Bool(b) => Json::Bool(b),
        JsonLayer::Number(integer, text) => Json::Number(JsonNumber { integer, text }),
        JsonLayer::Text(t) => Json::Text(t),
        JsonLayer::Array(items) => {
            let ghost all = items@;
            let ghost layer = JsonLayer::Array(items);
            let mut out: Vec<Json> = Vec::new();
            for item in it: items.into_iter()
                invariant
                    it.seq() == all,
                    out@.len() == it.index(),
                    layer_tree(layer) == value_tree(value),
                    layer matches JsonLayer::Array(v) && v@ == all,
                    forall|j: int|
                        0 <= j < it.index() ==> json_tree(#[trigger] out@[j]) == value_tree(
                            all[j],
                        ),
            {
                proof {
                    let tree = value_tree(value);
                    assert(tree->Array_0[it.index() as int] == value_tree(item));
                    assert(decreases_to!(tree => tree->Array_0));
                    assert(decreases_to!(tree->Array_0 => tree->Array_0[it.index() as int]));
                }
                let json = json_of_value(item);
                out.push(json);
            }
            let r = Json::Array(out);
            proof {
                assert(r@->Array_0 =~= value_tree(value)->Array_0);
            }
            r
        },
        JsonLayer::Object(members) => {
            let ghost all = members@;
            let ghost layer = JsonLayer::Object(members);
            let mut out: Vec<(String, Json)> = Vec::new();
            for member in it: members.into_iter()
                invariant
                    it.seq() == all,
                    out@.len() == it.index(),
                    layer_tree(layer) == value_tree(value),
                    layer matches JsonLayer::Object(v) && v@ == all,
                    forall|j: int|
                        0 <= j < it.index() ==> (#[trigger] out@[j]).0@ == all[j].0@
                            && json_tree(out@[j].1) == value_tree(all[j].1),
            {
                proof {
                    let tree = value_tree(value);
                    assert(tree->Object_0[it.index() as int] == (member.0@, value_tree(member.1)));
                    assert(decreases_to!(tree => tree->Object_0));
                    assert(decreases_to!(tree->Object_0 => tree->Object_0[it.index() as int]));
                    let entry = tree->Object_0[it.index() as int];
                    assert(decreases_to!(entry => entry.1));
                }
                let json = json_of_value(member.1);
                out.push((member.0, json));
            }
            let r = Json::Object(out);
            proof {
                assert(r@->Object_0 =~= value_tree(value)->Object_0);
            }
            r
        },
    }
}

/// Reads a JSON text, or says why it is none.
pub fn read_json(raw: &str) -> (r: Result<Json, String>)
    ensures
        match r {
            Ok(json) => json_reading(raw@) == Ok::<JsonView, Seq<char>>(json@),
            Err(reason) => json_reading(raw@) == Err::<JsonView, Seq<char>>(reason@),
        },
{
    match parse_value(raw) {
        Ok(value) => Ok(json_of_value(value)),
        Err(error) => Err(error_message(&error)),
    }
}

/// Reads a JSON text.
pub fn parse_json(raw: &str) -> (r: Option<Json>)
    ensures
        match r {
            Some(json) => json_document(raw@) == Some(json@),
            None => json_document(raw@) is None,
        },
{
    match parse_value(raw) {
        Ok(value) => Some(json_of_value(value)),
        Err(_) => None,
    }
}

} // verus!

//! JSON values, as far as the library reads them.

use handlebars::JsonRender;
use serde_json::Map as JsonMap;
use serde_json::Value as Json;
use vstd::prelude::*;

verus! {

/// `serde_json::Value`, a JSON value. Nothing inside it is visible here: what
/// the library reads of one, it reads through `shape_of` and `stringify`.
#[verifier::external_type_specification]
#[verifier::external_body]
pub struct ExJson(serde_json::Value);

/// `serde_json::Map`, the keys and values of a JSON object. Nothing inside it
/// is visible here: it is read through `entry_keys` and `entry_values`.
#[verifier::external_type_specification]
#[verifier::external_body]
#[verifier::reject_recursive_types(K)]
#[verifier::reject_recursive_types(V)]
pub struct ExJsonMap<K, V>(serde_json::Map<K, V>);

/// What a JSON value is: which of the six variants, with the items of an
/// array and the entries of an object.
pub enum Shape {
    Null,
    Bool,
    Number,
    String,
    Array(Seq<Json>),
    Object(Seq<(Seq<char>, Json)>),
}

/// The shape of `value`: the variant of `serde_json::Value` that it is.
pub uninterp spec fn json_shape(value: Json) -> Shape;

/// The text that `handlebars::JsonRender::render` gives for `value`.
pub uninterp spec fn json_text(value: Json) -> Seq<char>;

/// The keys of `map` with their values, in the order in which the map hands
/// them out.
pub uninterp spec fn map_entries(map: JsonMap<String, Json>) -> Seq<(Seq<char>, Json)>;

/// A JSON value taken apart one level deep.
#[derive(Clone, Copy, Debug)]
pub enum JsonShape<'a> {
    Null,
    Bool,
    Number,
    String,
    Array(&'a Vec<Json>),
    Object(&'a JsonMap<String, Json>),
}

impl<'a> View for JsonShape<'a> {
    type V = Shape;

    open spec fn view(&self) -> Shape {
        match *self {
            JsonShape::Null => Shape::Null,
            JsonShape::Bool => Shape::Bool,
            JsonShape::Number => Shape::Number,
            JsonShape::String => Shape::String,
            JsonShape::Array(items) => Shape::Array(items@),
            JsonShape::Object(entries) => Shape::Object(map_entries(*entries)),
        }
    }
}

/// Matches on the variants of `serde_json::Value`, one arm for each, and
/// hands on the items of an array and the map of an object. Claimed: the
/// result is the shape of `value`, which is all that is said of `json_shape`.
#[verifier::external_body]
pub(crate) fn shape_of<'a>(value: &'a Json) -> (shape: JsonShape<'a>)
    ensures
        shape@ == json_shape(*value),
{
    match value {
        Json::Null => JsonShape::Null,
        Json::Bool(_) => JsonShape::Bool,
        Json::Number(_) => JsonShape::Number,
        Json::String(_) => JsonShape::String,
        Json::Array(items) => JsonShape::Array(items),
        Json::Object(entries) => JsonShape::Object(entries),
    }
}

/// Calls `handlebars::JsonRender::render` on a `serde_json::Value`. Claimed:
/// the result depends on the value alone.
#[verifier::external_body]
pub(crate) fn stringify(value: &Json) -> (text: String)
    ensures
        text@ == json_text(*value),
{
    value.render()
}

/// Calls `serde_json::Map::keys`. Claimed: the keys come in the map's own
/// order, one for each entry.
#[verifier::external_body]
pub(crate) fn entry_keys<'a>(entries: &'a JsonMap<String, Json>) -> (keys: Vec<&'a String>)
    ensures
        keys@.len() == map_entries(*entries).len(),
        forall|i: int|
            0 <= i < keys@.len() ==> (#[trigger] keys@[i])@ == map_entries(*entries)[i].0,
{
    entries.keys().collect()
}

/// Calls `serde_json::Map::values`. Claimed: the values come in the map's own
/// order, one for each entry.
#[verifier::external_body]
pub(crate) fn entry_values<'a>(entries: &'a JsonMap<String, Json>) -> (values: Vec<&'a Json>)
    ensures
        values@.len() == map_entries(*entries).len(),
        forall|i: int|
            0 <= i < values@.len() ==> *(#[trigger] values@[i]) == map_entries(*entries)[i].1,
{
    entries.values().collect()
}

} // verus!

//! JSON values, as the response bodies are made of them.
use serde_json::Value;
use vstd::prelude::*;

verus! {

/// `serde_json::Value`, carried as it is; `json_content` says what it holds.
#[verifier::external_type_specification]
#[verifier::external_body]
pub struct ExValue(serde_json::Value);

/// What a JSON value holds. The members of an object have no order of their own.
pub enum JsonView {
    Null,
    Bool(bool),
    Number(int),
    Text(Seq<char>),
    Array(Seq<JsonView>),
    Object(Map<Seq<char>, JsonView>),
}

/// What the value `v` holds.
pub uninterp spec fn json_content(v: Value) -> JsonView;

/// What each of the values of `items` holds.
pub open spec fn json_contents(items: Seq<Value>) -> Seq<JsonView> {
    items.map_values(|v: Value| json_content(v))
}

/// The text that `serde_json` prints, with line breaks and two blanks of indentation a
/// level, for a value that holds `v`.
pub uninterp spec fn json_pretty_text(v: JsonView) -> Seq<char>;

/// `Value::Null`: holds null.
#[verifier::external_body]
pub(crate) fn json_null() -> (r: Value)
    ensures
        json_content(r) == JsonView::Null,
{
    Value::Null
}

/// `Value::from(bool)`: holds the boolean `b`.
#[verifier::external_body]
pub(crate) fn json_bool(b: bool) -> (r: Value)
    ensures
        json_content(r) == JsonView::Bool(b),
{
    Value::from(b)
}

/// `Value::from(u64)`: holds the number `n`.
#[verifier::external_body]
pub(crate) fn json_unsigned(n: u64) -> (r: Value)
    ensures
        json_content(r) == JsonView::Number(n as int),
{
    Value::from(n)
}

/// `Value::from(i64)`: holds the number `n`.
#[verifier::external_body]
pub(crate) fn json_signed(n: i64) -> (r: Value)
    ensures
        json_content(r) == JsonView::Number(n as int),
{
    Value::from(n)
}

/// `Value::from(&str)`: holds the string `s`.
#[verifier::external_body]
pub(crate) fn json_text(s: &str) -> (r: Value)
    ensures
        json_content(r) == JsonView::Text(s@),
{
    Value::from(s)
}

/// `Value::from(Vec<Value>)`: holds an array of what the items hold, in order.
#[verifier::external_body]
pub(crate) fn json_array(items: Vec<Value>) -> (r: Value)
    ensures
        json_content(r) == JsonView::Array(json_contents(items@)),
{
    Value::from(items)
}

/// `Value::from(Map::new())`: holds an object without members.
#[verifier::external_body]
pub(crate) fn json_object() -> (r: Value)
    ensures
        json_content(r) == JsonView::Object(Map::empty()),
{
    Value::from(serde_json::Map::new())
}

/// `IndexMut` of `Value` by a string: the object's member `key` becomes `value`,
/// whether it was there or not, and the other members stay. On a value that is
/// neither an object nor null the indexing panics.
#[verifier::external_body]
pub(crate) fn json_set(object: &mut Value, key: &str, value: Value)
    requires
        json_content(*old(object)) is Object,
    ensures
        json_content(*final(object)) == JsonView::Object(
            json_content(*old(object))->Object_0.insert(key@, json_content(value)),
        ),
{
    object[key] = value;
}

/// `serde_json::to_string_pretty`: a `Value` is always printed, and the text depends on
/// what it holds alone.
#[verifier::external_body]
pub(crate) fn json_pretty(v: &Value) -> (r: Option<String>)
    ensures
        r is Some,
        r matches Some(s) ==> s@ == json_pretty_text(json_content(*v)),
{
    serde_json::to_string_pretty(v).ok()
}

} // verus!

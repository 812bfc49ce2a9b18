//! JSON values: what the constructors of `serde_json` put into them.
use vstd::prelude::*;

verus! {

/// A JSON value of `serde_json`.
#[verifier::external_type_specification]
#[verifier::external_body]
pub struct ExValue(serde_json::Value);

/// What `serde_json::Value::as_bool` says of a value.
pub uninterp spec fn json_bool(v: serde_json::Value) -> Option<bool>;

/// What `serde_json::Value::as_i64` says of a value.
pub uninterp spec fn json_int(v: serde_json::Value) -> Option<i64>;

/// What `serde_json::Value::as_str` says of a value.
pub uninterp spec fn json_text(v: serde_json::Value) -> Option<Seq<char>>;

/// What `serde_json::Value::as_array` says of a value.
pub uninterp spec fn json_items(v: serde_json::Value) -> Option<Seq<serde_json::Value>>;

/// What `serde_json::Value::as_object` says of a value.
pub uninterp spec fn json_members(v: serde_json::Value) -> Option<Map<Seq<char>, serde_json::Value>>;

/// The map that a list of members makes, a later member in place of an earlier of its name.
pub open spec fn members(list: Seq<(String, serde_json::Value)>) -> Map<Seq<char>, serde_json::Value>
    decreases list.len(),
{
    if list.len() == 0 {
        Map::empty()
    } else {
        members(list.drop_last()).insert(list.last().0@, list.last().1)
    }
}

/// `serde_json::Value::Bool`: the boolean `b`.
#[verifier::external_body]
pub(crate) fn bool_value(b: bool) -> (r: serde_json::Value)
    ensures
        json_bool(r) == Some(b),
{
    serde_json::Value::Bool(b)
}

/// `serde_json::Value::from` on an `i32`: the number `n`.
#[verifier::external_body]
pub(crate) fn int_value(n: i32) -> (r: serde_json::Value)
    ensures
        json_int(r) == Some(n as i64),
{
    serde_json::Value::from(n)
}

/// `serde_json::Value::String`: the string `s`.
#[verifier::external_body]
pub(crate) fn text_value(s: String) -> (r: serde_json::Value)
    ensures
        json_text(r) == Some(s@),
{
    serde_json::Value::String(s)
}

/// `serde_json::Value::Array`: the array of `items`, in order.
#[verifier::external_body]
pub(crate) fn list_value(items: Vec<serde_json::Value>) -> (r: serde_json::Value)
    ensures
        json_items(r) == Some(items@),
{
    serde_json::Value::Array(items)
}

/// `serde_json::Map::from_iter`, as an object: the members of `list`; of two with one
/// name, the later.
#[verifier::external_body]
pub(crate) fn object_value(list: Vec<(String, serde_json::Value)>) -> (r: serde_json::Value)
    ensures
        json_members(r) == Some(members(list@)),
{
    serde_json::Value::Object(serde_json::Map::from_iter(list))
}

} // verus!

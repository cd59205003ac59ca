//! JSON as the `serde_json` crate reads it: what a value holds, and the parts
//! of one.

use serde_json::Value;
use vstd::prelude::*;

verus! {

/// `Value` of `serde_json`.
#[verifier::external_type_specification]
#[verifier::external_body]
pub struct ExValue(Value);

/// The error of `serde_json`.
#[verifier::external_type_specification]
#[verifier::external_body]
pub struct ExJsonError(serde_json::Error);

/// What a JSON value holds. Of a number that is the integer which it is, where
/// it is one that 64 signed bits hold.
pub enum JsonTree {
    Null,
    Bool(bool),
    Number(Option<i64>),
    Text(Seq<char>),
    List(Seq<JsonTree>),
    Object(Map<Seq<char>, JsonTree>),
}

/// What a JSON value holds.
pub uninterp spec fn json_tree(value: Value) -> JsonTree;

/// What `serde_json::from_slice` reads from some bytes, where it reads any
/// value.
pub uninterp spec fn json_of(bytes: Seq<u8>) -> Option<JsonTree>;

/// What each value of a list holds.
pub open spec fn json_trees(values: Seq<Value>) -> Seq<JsonTree> {
    Seq::new(values.len(), |i: int| json_tree(values[i]))
}

/// The member of an object under a key.
pub open spec fn member(tree: JsonTree, key: Seq<char>) -> Option<JsonTree> {
    match tree {
        JsonTree::Object(members) => if members.contains_key(key) {
            Some(members[key])
        } else {
            None
        },
        _ => None,
    }
}

/// The text that a value is.
pub open spec fn text_value(tree: JsonTree) -> Option<Seq<char>> {
    match tree {
        JsonTree::Text(text) => Some(text),
        _ => None,
    }
}

/// The items of the list that a value is.
pub open spec fn list_value(tree: JsonTree) -> Option<Seq<JsonTree>> {
    match tree {
        JsonTree::List(items) => Some(items),
        _ => None,
    }
}

/// The text under a key of an object.
pub open spec fn text_in(tree: JsonTree, key: Seq<char>) -> Option<Seq<char>> {
    match member(tree, key) {
        Some(value) => text_value(value),
        None => None,
    }
}

/// Whether a value is a list of 64-bit integers.
pub open spec fn is_int_list(tree: JsonTree) -> bool {
    tree matches JsonTree::List(items) && forall|i: int|
        0 <= i < items.len() ==> (#[trigger] items[i] matches JsonTree::Number(Some(_)))
}

/// The integers of a list.
pub open spec fn int_list(tree: JsonTree) -> Seq<i64> {
    match tree {
        JsonTree::List(items) => Seq::new(items.len(), |i: int| items[i]->Number_0->0),
        _ => seq![],
    }
}

/// `serde_json::from_slice` to a `Value`.
#[verifier::external_body]
pub(crate) fn parse_json(bytes: &[u8]) -> (parsed: Result<Value, serde_json::Error>)
    ensures
        parsed is Ok <==> json_of(bytes@) is Some,
        parsed matches Ok(value) ==> json_of(bytes@) == Some(json_tree(value)),
{
    serde_json::from_slice(bytes)
}

/// `Value::get` with a text: the member of an object under that key, and
/// nothing of any other value.
#[verifier::external_body]
pub(crate) fn json_member<'a>(value: &'a Value, key: &str) -> (found: Option<&'a Value>)
    ensures
        found is Some <==> member(json_tree(*value), key@) is Some,
        found matches Some(inner) ==> member(json_tree(*value), key@) == Some(json_tree(*inner)),
{
    value.get(key)
}

/// `Value::as_str`: the text, where the value is one.
#[verifier::external_body]
pub(crate) fn json_text(value: &Value) -> (text: Option<&str>)
    ensures
        text is Some <==> text_value(json_tree(*value)) is Some,
        text matches Some(inner) ==> text_value(json_tree(*value)) == Some(inner@),
{
    value.as_str()
}

/// `Value::as_array`: the items in order, where the value is a list.
#[verifier::external_body]
pub(crate) fn json_list(value: &Value) -> (list: Option<&Vec<Value>>)
    ensures
        list is Some <==> list_value(json_tree(*value)) is Some,
        list matches Some(items) ==> list_value(json_tree(*value)) == Some(json_trees(items@)),
{
    value.as_array()
}

/// `serde_json::from_value` to a vector of 64-bit integers: it succeeds
/// exactly on a list of such integers, and gives them in order.
#[verifier::external_body]
pub(crate) fn json_ints(value: &Value) -> (ints: Result<Vec<i64>, serde_json::Error>)
    ensures
        ints is Ok <==> is_int_list(json_tree(*value)),
        ints matches Ok(values) ==> values@ == int_list(json_tree(*value)),
{
    serde_json::from_value(value.clone())
}

/// The text under a key of an object.
pub(crate) fn text_at(value: &Value, key: &str) -> (text: Option<String>)
    ensures
        match text {
            Some(found) => text_in(json_tree(*value), key@) == Some(found@),
            None => text_in(json_tree(*value), key@) is None,
        },
{
    match json_member(value, key) {
        Some(inner) => match json_text(inner) {
            Some(text) => Some(text.to_owned()),
            None => None,
        },
        None => None,
    }
}

/// An object has the members that it holds, under their keys; no other value
/// has any. A text is told from what is none.
pub proof fn lemma_members(members: Map<Seq<char>, JsonTree>, key: Seq<char>, text: Seq<char>, tree: JsonTree)
    ensures
        member(JsonTree::Object(members), key) is Some <==> members.contains_key(key),
        members.contains_key(key) ==> member(JsonTree::Object(members), key) == Some(members[key]),
        !(tree is Object) ==> member(tree, key) is None,
        text_in(JsonTree::Object(members), key) == Some(text) <==> members.contains_key(key) && members[key]
            == JsonTree::Text(text),
        text_in(tree, key) is Some ==> tree is Object,
{
}

/// A list has its items, in order, and no other value has any.
pub proof fn lemma_lists(tree: JsonTree, items: Seq<JsonTree>)
    ensures
        list_value(tree) == Some(items) <==> tree == JsonTree::List(items),
{
}

/// A value is a list of integers exactly where each of its items is a number
/// that is one; these are the integers, in order.
pub proof fn lemma_int_lists(tree: JsonTree, ints: Seq<i64>)
    ensures
        is_int_list(tree) && int_list(tree) == ints <==> (tree matches JsonTree::List(items) && items.len() == ints.len()
            && forall|i: int| 0 <= i < items.len() ==> #[trigger] items[i] == JsonTree::Number(Some(ints[i]))),
{
    if let JsonTree::List(items) = tree {
        if items.len() == ints.len() && forall|i: int|
            0 <= i < items.len() ==> #[trigger] items[i] == JsonTree::Number(Some(ints[i])) {
            assert(int_list(tree) =~= ints);
        }
        if is_int_list(tree) && int_list(tree) == ints {
            assert forall|i: int| 0 <= i < items.len() implies #[trigger] items[i] == JsonTree::Number(Some(ints[i])) by {
                assert(int_list(tree)[i] == ints[i]);
            }
        }
    }
}

} // verus!

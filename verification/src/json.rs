//! JSON values, held by `serde_json`, and the trees they stand for.

use serde_json::Value;
use vstd::prelude::*;

use crate::text::{opt_text, texts};

verus! {

/// The tree that a JSON value stands for.
///
/// An object is a finite map: `serde_json` keeps its members sorted by key, so
/// the order of insertion is no part of the value.
pub enum Json {
    Null,
    Bool(bool),
    /// A number that is held as a 64-bit integer.
    Integer(int),
    /// Any other number, by the bits of the double that holds it.
    Double(u64),
    Text(Seq<char>),
    Array(Seq<Json>),
    Object(Map<Seq<char>, Json>),
}

/// A JSON value of `serde_json`.
#[verifier::external_type_specification]
#[verifier::external_body]
pub struct ExValue(serde_json::Value);

/// The object type of `serde_json`.
#[verifier::external_type_specification]
#[verifier::external_body]
#[verifier::reject_recursive_types(K)]
#[verifier::reject_recursive_types(V)]
pub struct ExMap<K, V>(serde_json::Map<K, V>);

/// The tree that a value holds.
pub uninterp spec fn tree_of(value: Value) -> Json;

/// The members that an object holds.
pub uninterp spec fn members_of(object: serde_json::Map<String, Value>) -> Map<Seq<char>, Json>;

/// The compact text of a tree, as `serde_json` writes it.
pub uninterp spec fn rendered(tree: Json) -> Seq<char>;

/// The tree that `serde_json` reads from a text, where the text is JSON.
pub uninterp spec fn parsed(text: Seq<char>) -> Option<Json>;

/// The tree of a value that may be missing.
pub open spec fn opt_tree(value: Option<Value>) -> Option<Json> {
    match value {
        Some(v) => Some(tree_of(v)),
        None => None,
    }
}

/// A tree without inner trees or doubles.
pub open spec fn scalar(tree: Json) -> bool {
    tree is Null || tree is Bool || tree is Integer || tree is Text
}

/// A scalar, or an array of scalars.
pub open spec fn plain(tree: Json) -> bool {
    match tree {
        Json::Array(items) => forall|i: int| 0 <= i < items.len() ==> scalar(#[trigger] items[i]),
        _ => scalar(tree),
    }
}

/// An object of plain members, none of whose keys begins with `$`.
pub open spec fn flat(members: Map<Seq<char>, Json>) -> bool {
    forall|key: Seq<char>| #[trigger]
        members.contains_key(key) ==> plain(members[key]) && !(key.len() > 0 && key[0] == '$')
}

/// The member of a tree under `key`, where the tree is an object that has one.
pub open spec fn member(tree: Json, key: Seq<char>) -> Option<Json> {
    match tree {
        Json::Object(members) => if members.contains_key(key) {
            Some(members[key])
        } else {
            None
        },
        _ => None,
    }
}

/// The text of a tree, where it is one.
pub open spec fn as_text(tree: Json) -> Option<Seq<char>> {
    match tree {
        Json::Text(s) => Some(s),
        _ => None,
    }
}

/// The text under `key`, where the tree is an object that has a text there.
pub open spec fn text_member(tree: Json, key: Seq<char>) -> Option<Seq<char>> {
    match member(tree, key) {
        Some(inner) => as_text(inner),
        None => None,
    }
}

/// The integer of a tree, where it is one that fits `i64`.
pub open spec fn as_integer(tree: Json) -> Option<int> {
    match tree {
        Json::Integer(n) => if i64::MIN <= n <= i64::MAX {
            Some(n)
        } else {
            None
        },
        _ => None,
    }
}

/// The trees of a list of texts.
pub open spec fn text_trees(list: Seq<Seq<char>>) -> Seq<Json> {
    list.map_values(|s: Seq<char>| Json::Text(s))
}

/// The tree that an optional exit status becomes: its number, or null.
pub open spec fn code_tree(code: Option<i32>) -> Json {
    match code {
        Some(n) => Json::Integer(n as int),
        None => Json::Null,
    }
}

/// The members of an object without any.
pub open spec fn no_members() -> Map<Seq<char>, Json> {
    Map::empty()
}

/// `serde_json`'s `Value::from` on a `String`: the value holds that text.
#[verifier::external_body]
pub(crate) fn text_value(s: String) -> (value: Value)
    ensures
        tree_of(value) == Json::Text(s@),
{
    Value::from(s)
}

/// `serde_json`'s `Value::from` on a list of `String`s: the value is the array
/// of those texts, in their order.
#[verifier::external_body]
pub(crate) fn texts_value(list: Vec<String>) -> (value: Value)
    ensures
        tree_of(value) == Json::Array(text_trees(texts(list@))),
{
    Value::from(list)
}

/// `serde_json`'s `Value::from` on an optional integer: the value is that
/// integer, or null where there is none.
#[verifier::external_body]
pub(crate) fn code_value(code: Option<i32>) -> (value: Value)
    ensures
        tree_of(value) == code_tree(code),
{
    Value::from(code)
}

/// `serde_json`'s `Value::from` on an object: the value is that object.
#[verifier::external_body]
pub(crate) fn object_value(object: serde_json::Map<String, Value>) -> (value: Value)
    ensures
        tree_of(value) == Json::Object(members_of(object)),
{
    Value::from(object)
}

/// `serde_json`'s `Map::new`: the object has no members.
#[verifier::external_body]
pub(crate) fn empty_object() -> (object: serde_json::Map<String, Value>)
    ensures
        members_of(object) == no_members(),
{
    serde_json::Map::new()
}

/// `serde_json`'s `Map::insert`: the object then has that member under that
/// key, in place of one it may have had, and is otherwise unchanged.
#[verifier::external_body]
pub(crate) fn insert(object: &mut serde_json::Map<String, Value>, key: String, value: Value)
    ensures
        members_of(*final(object)) == members_of(*old(object)).insert(key@, tree_of(value)),
{
    object.insert(key, value);
}

/// Tells the object among `serde_json`'s values apart and hands it out.
#[verifier::external_body]
pub(crate) fn into_object(value: Value) -> (object: Option<serde_json::Map<String, Value>>)
    ensures
        match object {
            Some(inner) => tree_of(value) == Json::Object(members_of(inner)),
            None => !(tree_of(value) is Object),
        },
{
    match value {
        Value::Object(inner) => Some(inner),
        _ => None,
    }
}

/// `serde_json`'s `Value::is_object`.
#[verifier::external_body]
pub(crate) fn is_object(value: &Value) -> (yes: bool)
    ensures
        yes == (tree_of(*value) is Object),
{
    value.is_object()
}

/// `serde_json`'s `Value::get` on a text: the member under that key, and
/// nothing where the value is no object or has no such member.
#[verifier::external_body]
pub(crate) fn get<'a>(value: &'a Value, key: &str) -> (inner: Option<&'a Value>)
    ensures
        match inner {
            Some(found) => member(tree_of(*value), key@) == Some(tree_of(*found)),
            None => member(tree_of(*value), key@) is None,
        },
{
    value.get(key)
}

/// `serde_json`'s `Value::as_str`: the text, where the value is one.
#[verifier::external_body]
pub(crate) fn get_text(value: &Value) -> (s: Option<String>)
    ensures
        opt_text(s) == as_text(tree_of(*value)),
{
    value.as_str().map(str::to_owned)
}

/// `serde_json`'s `Value::as_i64`: the integer, where the value is one that
/// fits `i64`.
#[verifier::external_body]
pub(crate) fn get_integer(value: &Value) -> (n: Option<i64>)
    ensures
        match n {
            Some(k) => as_integer(tree_of(*value)) == Some(k as int),
            None => as_integer(tree_of(*value)) is None,
        },
{
    value.as_i64()
}

/// `serde_json`'s `to_string` on a value: its compact text. What
/// `serde_json` reads back from that text is the value.
///
/// The keys that begin with `$` are left out because `serde_json` reserves one
/// such key for itself when it reads; the nesting is bounded because the reader
/// bounds it.
#[verifier::external_body]
pub(crate) fn render(value: &Value) -> (text: String)
    requires
        tree_of(*value) is Object,
        flat(tree_of(*value)->Object_0),
    ensures
        text@ == rendered(tree_of(*value)),
        parsed(text@) == Some(tree_of(*value)),
{
    value.to_string()
}

/// `serde_json`'s `from_str`: the value that the text is, where the text is
/// JSON.
#[verifier::external_body]
pub(crate) fn parse(text: &str) -> (value: Option<Value>)
    ensures
        match value {
            Some(v) => parsed(text@) == Some(tree_of(v)),
            None => parsed(text@) is None,
        },
{
    serde_json::from_str(text).ok()
}

} // verus!

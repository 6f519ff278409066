//! The boundary to `serde_json`: its value type, the model that stands for a
//! value in contracts, and the operations of `serde_json` that the crate
//! relies on.
//!
//! Nothing in this file is proved. The contracts restate what `serde_json`
//! does when it is built with its `preserve_order` feature, so that an
//! object keeps its keys in the order of their insertion.

use crate::tree::{Members, Tree};
use serde_json::Value;
use vstd::prelude::*;

verus! {

/// `serde_json::Value`, a JSON value. Its inside is hidden from proofs:
/// they see a value through `tree_of` alone.
#[verifier::external_type_specification]
#[verifier::external_body]
pub struct ExValue(serde_json::Value);

/// `serde_json::Map`, the members of a JSON object. Proofs see a map
/// through `members_of` alone.
#[verifier::external_type_specification]
#[verifier::external_body]
#[verifier::reject_recursive_types(K)]
#[verifier::reject_recursive_types(V)]
pub struct ExMap<K, V>(serde_json::Map<K, V>);

/// The document that a value holds: `Null`, `Bool`, `Number` and `Text` for
/// the scalars, `List` for an array with the documents of its items, and
/// `Object` for an object with the members of its map. The contracts below
/// take objects apart; of any other value they say only that it is no
/// object.
pub uninterp spec fn tree_of(value: Value) -> Tree;

/// The members that a map holds: its keys in the order in which the map
/// yields them, and under each key the document of its value.
pub uninterp spec fn members_of(map: serde_json::Map<String, Value>) -> Members;

/// `Value::as_object_mut`: the map of an object, for changing it in place;
/// `None` for any other value. Whatever is done to the map is done to the
/// object.
pub assume_specification[ Value::as_object_mut ](value: &mut Value) -> (map: Option<
    &mut serde_json::Map<String, Value>,
>)
    ensures
        match tree_of(*old(value)) {
            Tree::Object(members) => {
                &&& map is Some
                &&& members_of(*map.unwrap()) == members
                &&& tree_of(*final(value)) == Tree::Object(members_of(*final(map.unwrap())))
            },
            _ => map is None && *final(value) == *old(value),
        },
;

/// `Map::new`: a map without members.
pub assume_specification[ serde_json::Map::<String, Value>::new ]() -> (map: serde_json::Map<
    String,
    Value,
>)
    ensures
        members_of(map) == Members::empty(),
;

/// `Map::insert`: puts `v` under `k`. A key that is present keeps its place
/// and its old value is handed back; a new key goes to the end.
pub assume_specification[ serde_json::Map::<String, Value>::insert ](
    map: &mut serde_json::Map<String, Value>,
    k: String,
    v: Value,
) -> (previous: Option<Value>)
    ensures
        members_of(*final(map)) == members_of(*old(map)).put(k@, tree_of(v)),
        match previous {
            Some(p) => members_of(*old(map)).has(k@) && tree_of(p) == members_of(*old(map)).at[k@],
            None => !members_of(*old(map)).has(k@),
        },
;

/// `Value::get` with a string index: the member under `key` where `value` is
/// an object that has one, else `None`.
#[verifier::external_body]
pub(crate) fn member<'a>(value: &'a Value, key: &str) -> (found: Option<&'a Value>)
    ensures
        match found {
            Some(m) => tree_of(*value).member(key@) == Some(tree_of(*m)),
            None => tree_of(*value).member(key@) is None,
        },
{
    value.get(key)
}

/// `Map::entry` followed by `Entry::or_insert`: the member under `key`, for
/// changing it in place. Where the key has no member, `fresh` is first put
/// under it, at the end of the map. Whatever is done to the member is done
/// to the map.
#[verifier::external_body]
pub(crate) fn member_or_insert<'a>(
    map: &'a mut serde_json::Map<String, Value>,
    key: &str,
    fresh: Value,
) -> (member: &'a mut Value)
    ensures
        tree_of(*member) == (if members_of(*old(map)).has(key@) {
            members_of(*old(map)).at[key@]
        } else {
            tree_of(fresh)
        }),
        members_of(*final(map)) == members_of(*old(map)).put(key@, tree_of(*final(member))),
{
    map.entry(key).or_insert(fresh)
}

/// `Value::Object`: the object that holds the members of `map`.
#[verifier::external_body]
pub(crate) fn object(map: serde_json::Map<String, Value>) -> (value: Value)
    ensures
        tree_of(value) == Tree::Object(members_of(map)),
{
    Value::Object(map)
}

} // verus!

//! Reading and writing a value by a path of keys, written with dots between
//! the keys: `"server.port"`.

use crate::error::{Error, Failure};
use crate::json::{member, member_or_insert, members_of, object, tree_of};
use crate::keys::{law_segments_of_dotted, lemma_segments_nonempty, segments, split, texts};
use crate::text::{trim, trimmed};
use crate::tree::{
    law_assign_keeps_others, law_assign_makes_objects, law_lookup_assigned, law_lookup_stops,
    law_refusal_is_a_value_on_the_way, lemma_put_back, Refusal, Tree,
};
use serde_json::Value;
use vstd::prelude::*;

verus! {

/// The value under the keys `keys`, followed one after another from `root`.
pub fn get_keys<'a>(root: &'a Value, keys: &Vec<&str>) -> (found: Option<&'a Value>)
    ensures
        match found {
            Some(value) => tree_of(*root).lookup(texts(keys@)) == Some(tree_of(*value)),
            None => tree_of(*root).lookup(texts(keys@)) is None,
        },
{
    let ghost path = texts(keys@);
    let mut current = root;
    let mut i: usize = 0;
    assert(path.skip(0) =~= path);
    while i < keys.len()
        invariant
            i <= keys.len(),
            path == texts(keys@),
            tree_of(*root).lookup(path) == tree_of(*current).lookup(path.skip(i as int)),
        decreases keys.len() - i,
    {
        assert(path.skip(i as int).skip(1) =~= path.skip(i + 1));
        assert(path.skip(i as int)[0] == keys@[i as int]@);
        match member(current, keys[i]) {
            Some(child) => {
                current = child;
            },
            None => {
                return None;
            },
        }
        i = i + 1;
    }
    Some(current)
}

/// A new object without members.
pub fn empty_object() -> (value: Value)
    ensures
        tree_of(value) == Tree::empty_object(),
{
    object(serde_json::Map::new())
}

/// Writes `value` under the keys `keys`, followed one after another from
/// `root`; objects that are missing on the way are created. Where the write
/// is refused, nothing is changed.
pub fn set_keys(root: &mut Value, keys: &Vec<&str>, value: Value) -> (done: Result<(), Error>)
    ensures
        match tree_of(*old(root)).refusal(texts(keys@)) {
            None => done is Ok && tree_of(*final(root)) == tree_of(*old(root)).assign(
                texts(keys@),
                tree_of(value),
            ),
            Some(refusal) => {
                &&& done matches Err(error) && error@ == Failure::Path(refusal.message())
                &&& tree_of(*final(root)) == tree_of(*old(root))
            },
        },
{
    let n = keys.len();
    if n == 0 {
        return Err(Error::Path("empty path".to_owned()));
    }
    let ghost path = texts(keys@);
    let ghost before = tree_of(*root);
    let ghost given = tree_of(value);
    let mut current = root;
    let mut i: usize = 0;
    assert(path.skip(0) =~= path);
    while i < n - 1
        invariant
            n == keys.len(),
            i <= n - 1,
            path == texts(keys@),
            before == tree_of(*old(root)),
            given == tree_of(value),
            before.refusal(path) == tree_of(*current).refusal(path.skip(i as int)),
            tree_of(*final(current)) == tree_of(*current).assign(path.skip(i as int), given)
                ==> tree_of(*final(root)) == before.assign(path, given),
            tree_of(*current).refusal(path.skip(i as int)) is Some && tree_of(*final(current))
                == tree_of(*current) ==> tree_of(*final(root)) == before,
        decreases n - i,
    {
        let ghost rest = path.skip(i as int);
        assert(rest.len() >= 2);
        assert(rest[0] == keys@[i as int]@);
        assert(rest.skip(1) =~= path.skip(i + 1));
        let map = match current.as_object_mut() {
            Some(map) => map,
            None => {
                return Err(Error::Path("path segment is not an object".to_owned()));
            },
        };
        let ghost members = members_of(*map);
        let child = member_or_insert(map, keys[i], empty_object());
        proof {
            lemma_put_back(members, rest[0]);
        }
        current = child;
        i = i + 1;
    }
    match current.as_object_mut() {
        Some(map) => {
            map.insert(keys[n - 1].to_owned(), value);
            Ok(())
        },
        None => Err(Error::Path("path parent is not an object".to_owned())),
    }
}

/// What is read from `tree` at `path`.
pub open spec fn read(tree: Tree, path: Seq<char>) -> Option<Tree> {
    tree.lookup(segments(path))
}

/// Why writing into `tree` at `path` is refused, if it is: the path is
/// nothing but whitespace, or a value that is not an object is in the way.
pub open spec fn refused(tree: Tree, path: Seq<char>) -> Option<Refusal> {
    if trimmed(path).len() == 0 {
        Some(Refusal::EmptyPath)
    } else {
        tree.refusal(segments(path))
    }
}

/// The tree after `value` was written into `tree` at `path`.
pub open spec fn written(tree: Tree, path: Seq<char>, value: Tree) -> Tree {
    tree.assign(segments(path), value)
}

/// The value at `path`, or `None` where a key of the path has no member or
/// the way leads through a value that is not an object.
pub fn get<'a>(root: &'a Value, path: &str) -> (found: Option<&'a Value>)
    ensures
        match found {
            Some(value) => read(tree_of(*root), path@) == Some(tree_of(*value)),
            None => read(tree_of(*root), path@) is None,
        },
{
    let keys = split(path);
    get_keys(root, &keys)
}

/// Writes `value` at `path`, creating the objects that are missing on the
/// way. A path that is empty or all whitespace is refused, and so is one
/// that leads through a value that is not an object; a refused write changes
/// nothing.
pub fn set(root: &mut Value, path: &str, value: Value) -> (done: Result<(), Error>)
    ensures
        match refused(tree_of(*old(root)), path@) {
            None => done is Ok && tree_of(*final(root)) == written(
                tree_of(*old(root)),
                path@,
                tree_of(value),
            ),
            Some(refusal) => {
                &&& done matches Err(error) && error@ == Failure::Path(refusal.message())
                &&& tree_of(*final(root)) == tree_of(*old(root))
            },
        },
        path@.len() == 0 ==> refused(tree_of(*old(root)), path@) == Some(Refusal::EmptyPath),
{
    if trim(path).is_empty() {
        return Err(Error::Path("empty path".to_owned()));
    }
    let keys = split(path);
    proof {
        lemma_segments_nonempty(path@);
    }
    set_keys(root, &keys, value)
}

/// A value that was written at a path is read at that path.
pub proof fn law_read_written(tree: Tree, path: Seq<char>, value: Tree)
    requires
        refused(tree, path) is None,
    ensures
        read(written(tree, path, value), path) == Some(value),
{
    law_lookup_assigned(tree, segments(path), value);
}

/// After a write, what comes before any dot of the written path leads to an
/// object: the parents that were missing have been created.
pub proof fn law_written_parents_are_objects(
    tree: Tree,
    parent: Seq<char>,
    rest: Seq<char>,
    value: Tree,
)
    requires
        refused(tree, parent + seq!['.'] + rest) is None,
    ensures
        read(written(tree, parent + seq!['.'] + rest, value), parent) matches Some(reached)
            && reached is Object,
{
    let path = parent + seq!['.'] + rest;
    law_segments_of_dotted(parent, rest);
    lemma_segments_nonempty(rest);
    let k = segments(parent).len() as int;
    assert(segments(path).take(k) =~= segments(parent));
    law_assign_makes_objects(tree, segments(path), value, k);
}

/// A write changes nothing that is read along another way: a path whose
/// keys part from those of the written path reads what it read before.
pub proof fn law_written_keeps_others(
    tree: Tree,
    path: Seq<char>,
    value: Tree,
    other: Seq<char>,
    k: int,
)
    requires
        refused(tree, path) is None,
        0 <= k < segments(path).len(),
        k < segments(other).len(),
        segments(other).take(k) == segments(path).take(k),
        segments(other)[k] != segments(path)[k],
    ensures
        read(written(tree, path, value), other) == read(tree, other),
{
    law_assign_keeps_others(tree, segments(path), value, segments(other), k);
}

/// Nothing is found beyond a value that is missing or is not an object.
pub proof fn law_read_beyond(tree: Tree, parent: Seq<char>, rest: Seq<char>)
    requires
        match read(tree, parent) {
            Some(reached) => !(reached is Object),
            None => true,
        },
    ensures
        read(tree, parent + seq!['.'] + rest) is None,
{
    let path = parent + seq!['.'] + rest;
    law_segments_of_dotted(parent, rest);
    lemma_segments_nonempty(rest);
    let k = segments(parent).len() as int;
    assert(segments(path).take(k) =~= segments(parent));
    law_lookup_stops(tree, segments(path), k);
}

/// A write through a value that is not an object is refused: where the
/// part of the path before a dot leads to such a value, nothing is written.
pub proof fn law_write_through_value_refused(tree: Tree, parent: Seq<char>, rest: Seq<char>)
    requires
        read(tree, parent) matches Some(reached) && !(reached is Object),
    ensures
        refused(tree, parent + seq!['.'] + rest) is Some,
{
    let path = parent + seq!['.'] + rest;
    law_segments_of_dotted(parent, rest);
    lemma_segments_nonempty(rest);
    lemma_segments_nonempty(path);
    let k = segments(parent).len() as int;
    assert(segments(path).take(k) =~= segments(parent));
    law_refusal_is_a_value_on_the_way(tree, segments(path));
}

} // verus!

//! The mathematical model of a configuration document, and what reading and
//! writing along a path of keys mean on it.
//!
//! Everything here is specification: the executable code works on
//! `serde_json::Value` and is tied to this model in `json`.

use crate::keys::Key;
use vstd::prelude::*;

verus! {

/// A number of a document.
pub enum Numeral {
    /// A non-negative integer.
    Unsigned(nat),
    /// A negative integer.
    Negative(int),
    /// Any other finite number, by the 64 bits of its binary encoding.
    Binary(nat),
}

/// The members of an object: the keys in the order in which they were
/// inserted, and the member that stands under each key.
pub struct Members {
    pub order: Seq<Key>,
    pub at: Map<Key, Tree>,
}

/// A document, or a part of one.
pub enum Tree {
    Null,
    Bool(bool),
    Number(Numeral),
    Text(Seq<char>),
    List(Seq<Tree>),
    Object(Members),
}

/// Why a write is refused.
pub enum Refusal {
    /// The path names nothing.
    EmptyPath,
    /// A key before the last one leads to a value that is not an object.
    Segment,
    /// The value that should receive the last key is not an object.
    Parent,
}

impl Refusal {
    /// The message that the refusal is reported with.
    pub open spec fn message(self) -> Seq<char> {
        match self {
            Refusal::EmptyPath => "empty path"@,
            Refusal::Segment => "path segment is not an object"@,
            Refusal::Parent => "path parent is not an object"@,
        }
    }
}

impl Members {
    /// No members at all.
    pub open spec fn empty() -> Members {
        Members { order: Seq::empty(), at: Map::empty() }
    }

    /// Whether `key` has a member.
    pub open spec fn has(self, key: Key) -> bool {
        self.at.contains_key(key)
    }

    /// The members after `member` was put under `key`: an existing key keeps
    /// its place in the order, a new one goes to the end.
    pub open spec fn put(self, key: Key, member: Tree) -> Members {
        Members {
            order: if self.has(key) {
                self.order
            } else {
                self.order.push(key)
            },
            at: self.at.insert(key, member),
        }
    }

    /// The order lists each key that has a member, once.
    pub open spec fn well_formed(self) -> bool {
        &&& self.order.no_duplicates()
        &&& forall|key: Key|
            #![trigger self.order.contains(key)]
            #![trigger self.has(key)]
            self.order.contains(key) <==> self.has(key)
    }
}

impl Tree {
    /// The object without members.
    pub open spec fn empty_object() -> Tree {
        Tree::Object(Members::empty())
    }

    /// The member under `key`, where `self` is an object that has one.
    pub open spec fn member(self, key: Key) -> Option<Tree> {
        match self {
            Tree::Object(members) => if members.has(key) {
                Some(members.at[key])
            } else {
                None
            },
            _ => None,
        }
    }

    /// The value reached from `self` by following `path` key by key, or
    /// `None` as soon as a key has no member or the value at hand is not an
    /// object. The empty path reaches `self`.
    pub open spec fn lookup(self, path: Seq<Key>) -> Option<Tree>
        decreases path.len(),
    {
        if path.len() == 0 {
            Some(self)
        } else {
            match self.member(path[0]) {
                Some(child) => child.lookup(path.skip(1)),
                None => None,
            }
        }
    }

    /// Why `path` cannot be written from `self`, if it cannot: the path is
    /// empty, or the walk along its keys, through the members that exist,
    /// meets a value that is not an object before the last key is placed.
    /// A key without a member ends the walk: nothing stands in the way of
    /// creating what is missing.
    pub open spec fn refusal(self, path: Seq<Key>) -> Option<Refusal>
        decreases path.len(),
    {
        if path.len() == 0 {
            Some(Refusal::EmptyPath)
        } else if !(self is Object) {
            Some(
                if path.len() == 1 {
                    Refusal::Parent
                } else {
                    Refusal::Segment
                },
            )
        } else if path.len() == 1 {
            None
        } else {
            match self.member(path[0]) {
                Some(child) => child.refusal(path.skip(1)),
                None => None,
            }
        }
    }

    /// The tree after `value` was written at `path`: objects along the path
    /// are kept, with the member under the next key replaced; where a key has
    /// no member yet, an empty object is created for it. The last key
    /// receives `value`, whether or not it had a member.
    ///
    /// Meaningful where `self.refusal(path)` is `None`; elsewhere the tree
    /// comes back as it is.
    pub open spec fn assign(self, path: Seq<Key>, value: Tree) -> Tree
        decreases path.len(),
    {
        match self {
            Tree::Object(members) => if path.len() == 0 {
                self
            } else if path.len() == 1 {
                Tree::Object(members.put(path[0], value))
            } else {
                let child = match self.member(path[0]) {
                    Some(child) => child,
                    None => Tree::empty_object(),
                };
                Tree::Object(members.put(path[0], child.assign(path.skip(1), value)))
            },
            _ => self,
        }
    }
}

/// Putting a member back under its own key changes nothing.
pub proof fn lemma_put_back(members: Members, key: Key)
    ensures
        members.has(key) ==> members.put(key, members.at[key]) == members,
{
    if members.has(key) {
        assert(members.at.insert(key, members.at[key]) =~= members.at);
    }
}

/// Putting a member keeps the order of the keys sound.
pub proof fn law_put_keeps_well_formed(members: Members, key: Key, member: Tree)
    requires
        members.well_formed(),
    ensures
        members.put(key, member).well_formed(),
{
    let after = members.put(key, member);
    if !members.has(key) {
        assert forall|other: Key| after.order.contains(other) <==> after.has(other) by {
            if after.order.contains(other) {
                let i = choose|i: int| 0 <= i < after.order.len() && after.order[i] == other;
                if i < members.order.len() {
                    assert(members.order[i] == other);
                    assert(members.order.contains(other));
                }
            }
            if after.has(other) {
                assert(other == key || members.has(other));
                if other == key {
                    assert(after.order[members.order.len() as int] == key);
                } else {
                    assert(members.order.contains(other));
                    let i = choose|i: int| 0 <= i < members.order.len() && members.order[i] == other;
                    assert(after.order[i] == other);
                }
            }
        }
        assert forall|i: int, j: int|
            0 <= i < after.order.len() && 0 <= j < after.order.len() && i != j implies after.order[i]
            != after.order[j] by {
            if i == members.order.len() {
                assert(members.order[j] == after.order[j]);
                assert(members.order.contains(after.order[j]));
            } else if j == members.order.len() {
                assert(members.order[i] == after.order[i]);
                assert(members.order.contains(after.order[i]));
            }
        }
    }
}

/// Nothing stands in the way of writing into an empty object.
pub proof fn lemma_empty_object_refuses_nothing(path: Seq<Key>)
    requires
        path.len() > 0,
    ensures
        Tree::empty_object().refusal(path) is None,
{
}

/// A value written at a path is the value read at that path.
pub proof fn law_lookup_assigned(tree: Tree, path: Seq<Key>, value: Tree)
    requires
        tree.refusal(path) is None,
    ensures
        tree.assign(path, value).lookup(path) == Some(value),
    decreases path.len(),
{
    let rest = path.skip(1);
    if path.len() == 1 {
        assert(value.lookup(rest) == Some(value));
    } else {
        let child = match tree.member(path[0]) {
            Some(child) => child,
            None => Tree::empty_object(),
        };
        lemma_empty_object_refuses_nothing(rest);
        law_lookup_assigned(child, rest, value);
    }
}

/// After a write, every key of the path but the last leads to an object.
pub proof fn law_assign_makes_objects(tree: Tree, path: Seq<Key>, value: Tree, k: int)
    requires
        tree.refusal(path) is None,
        0 <= k < path.len(),
    ensures
        tree.assign(path, value).lookup(path.take(k)) matches Some(reached) && reached is Object,
    decreases path.len(),
{
    if k > 0 {
        let rest = path.skip(1);
        let child = match tree.member(path[0]) {
            Some(child) => child,
            None => Tree::empty_object(),
        };
        lemma_empty_object_refuses_nothing(rest);
        law_assign_makes_objects(child, rest, value, k - 1);
        assert(path.take(k).skip(1) =~= rest.take(k - 1));
        assert(path.take(k)[0] == path[0]);
    }
}

/// A write changes nothing that is read along another way: where a path
/// parts from the written one at some key, it reads after the write what it
/// read before.
pub proof fn law_assign_keeps_others(
    tree: Tree,
    path: Seq<Key>,
    value: Tree,
    other: Seq<Key>,
    k: int,
)
    requires
        tree.refusal(path) is None,
        0 <= k < path.len(),
        k < other.len(),
        other.take(k) == path.take(k),
        other[k] != path[k],
    ensures
        tree.assign(path, value).lookup(other) == tree.lookup(other),
    decreases path.len(),
{
    if k > 0 {
        let rest = path.skip(1);
        assert(other[0] == other.take(k)[0]);
        assert(path[0] == path.take(k)[0]);
        assert(other.skip(1).take(k - 1) =~= other.take(k).skip(1));
        assert(rest.take(k - 1) =~= path.take(k).skip(1));
        match tree.member(path[0]) {
            Some(child) => {
                law_assign_keeps_others(child, rest, value, other.skip(1), k - 1);
            },
            None => {
                lemma_empty_object_refuses_nothing(rest);
                law_assign_keeps_others(Tree::empty_object(), rest, value, other.skip(1), k - 1);
                lemma_nothing_in_empty_object(other.skip(1));
            },
        }
    }
}

/// Nothing is read from an empty object but the object itself.
pub proof fn lemma_nothing_in_empty_object(path: Seq<Key>)
    requires
        path.len() > 0,
    ensures
        Tree::empty_object().lookup(path) is None,
{
}

/// Reading stops where the way is lost: if the first `k` keys of a path
/// lead nowhere, or to a value that is not an object, so does the path.
pub proof fn law_lookup_stops(tree: Tree, path: Seq<Key>, k: int)
    requires
        0 <= k < path.len(),
        match tree.lookup(path.take(k)) {
            Some(reached) => !(reached is Object),
            None => true,
        },
    ensures
        tree.lookup(path) is None,
    decreases path.len(),
{
    if k == 0 {
        assert(path.take(0).len() == 0);
    } else {
        assert(path.take(k)[0] == path[0]);
        assert(path.take(k).skip(1) =~= path.skip(1).take(k - 1));
        match tree.member(path[0]) {
            Some(child) => {
                law_lookup_stops(child, path.skip(1), k - 1);
            },
            None => {},
        }
    }
}

/// A write is refused for a value on the way exactly where reading finds
/// one: the walk along the keys before the last meets a value that is not
/// an object.
pub proof fn law_refusal_is_a_value_on_the_way(tree: Tree, path: Seq<Key>)
    requires
        path.len() > 0,
    ensures
        tree.refusal(path) is Some <==> exists|k: int|
            0 <= k < path.len() && (#[trigger] tree.lookup(path.take(k)) matches Some(reached)
                && !(reached is Object)),
        tree.refusal(path) == Some(Refusal::Parent) <==> (tree.lookup(
            path.take(path.len() - 1),
        ) matches Some(reached) && !(reached is Object)),
    decreases path.len(),
{
    assert(path.take(0).len() == 0);
    if !(tree is Object) {
        assert(tree.lookup(path.take(0)) == Some(tree));
        if path.len() > 1 {
            law_lookup_stops(tree, path.take(path.len() - 1), 0);
            assert(path.take(path.len() - 1).take(0) =~= path.take(0));
        }
    } else if path.len() == 1 {
        assert forall|k: int| 0 <= k < path.len() implies !(#[trigger] tree.lookup(
            path.take(k),
        ) matches Some(reached) && !(reached is Object)) by {
            assert(k == 0);
        }
    } else {
        let rest = path.skip(1);
        match tree.member(path[0]) {
            Some(child) => {
                law_refusal_is_a_value_on_the_way(child, rest);
                assert forall|k: int| 1 <= k <= path.len() implies #[trigger] tree.lookup(
                    path.take(k),
                ) == child.lookup(rest.take(k - 1)) by {
                    assert(path.take(k)[0] == path[0]);
                    assert(path.take(k).skip(1) =~= rest.take(k - 1));
                }
                if tree.refusal(path) is Some {
                    let j = choose|j: int|
                        0 <= j < rest.len() && (#[trigger] child.lookup(rest.take(j)) matches Some(
                            reached,
                        ) && !(reached is Object));
                    assert(tree.lookup(path.take(j + 1)) == child.lookup(rest.take(j)));
                }
                assert(tree.lookup(path.take(path.len() - 1)) == child.lookup(
                    rest.take(rest.len() - 1),
                ));
            },
            None => {
                assert forall|k: int| 0 <= k < path.len() implies !(#[trigger] tree.lookup(
                    path.take(k),
                ) matches Some(reached) && !(reached is Object)) by {
                    if k > 0 {
                        assert(path.take(k)[0] == path[0]);
                    }
                }
                assert(path.take(path.len() - 1)[0] == path[0]);
            },
        }
    }
}

} // verus!

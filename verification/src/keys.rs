//! The keys of a dot path: what they are, how a path is split into them,
//! and what holds of them.

use vstd::prelude::*;

verus! {

/// A key of an object, as text.
pub type Key = Seq<char>;

/// The keys of a path: the pieces between its dots, in order. A path
/// without a dot is one key, and a dot at either end or beside another dot
/// bounds an empty key.
pub open spec fn segments(path: Seq<char>) -> Seq<Key>
    decreases path.len(),
{
    if path.len() == 0 {
        seq![Seq::<char>::empty()]
    } else {
        let before = segments(path.drop_last());
        if path.last() == '.' {
            before.push(Seq::<char>::empty())
        } else {
            before.update(before.len() - 1, before.last().push(path.last()))
        }
    }
}

/// The texts of a list of keys.
pub open spec fn texts(keys: Seq<&str>) -> Seq<Key> {
    Seq::new(keys.len(), |i: int| keys[i]@)
}

/// There is always at least one key.
pub proof fn lemma_segments_nonempty(path: Seq<char>)
    ensures
        segments(path).len() >= 1,
    decreases path.len(),
{
    if path.len() > 0 {
        lemma_segments_nonempty(path.drop_last());
    }
}

/// The keys `keys` written as one path, with a dot between neighbours.
pub open spec fn joined(keys: Seq<Key>) -> Seq<char>
    decreases keys.len(),
{
    if keys.len() == 0 {
        Seq::empty()
    } else if keys.len() == 1 {
        keys[0]
    } else {
        joined(keys.drop_last()) + seq!['.'] + keys.last()
    }
}

/// Whether no key holds a dot.
pub open spec fn dotless(keys: Seq<Key>) -> bool {
    forall|i: int, j: int| 0 <= i < keys.len() && 0 <= j < keys[i].len() ==> keys[i][j] != '.'
}

/// The keys of a path hold no dot.
pub proof fn law_segments_dotless(path: Seq<char>)
    ensures
        dotless(segments(path)),
    decreases path.len(),
{
    if path.len() > 0 {
        law_segments_dotless(path.drop_last());
        lemma_segments_nonempty(path.drop_last());
    }
}

/// The keys of a path, joined with dots, are the path.
pub proof fn law_segments_joined(path: Seq<char>)
    ensures
        joined(segments(path)) == path,
    decreases path.len(),
{
    if path.len() > 0 {
        let shorter = path.drop_last();
        let before = segments(shorter);
        law_segments_joined(shorter);
        lemma_segments_nonempty(shorter);
        if path.last() == '.' {
            assert(before.push(Seq::<char>::empty()).drop_last() =~= before);
            assert(joined(before) + seq!['.'] + Seq::<char>::empty() =~= path);
        } else {
            let grown = before.last().push(path.last());
            let after = before.update(before.len() - 1, grown);
            if before.len() > 1 {
                assert(after.drop_last() =~= before.drop_last());
                assert(joined(before.drop_last()) + seq!['.'] + grown =~= (joined(
                    before.drop_last(),
                ) + seq!['.'] + before.last()).push(path.last()));
            }
            assert(shorter.push(path.last()) =~= path);
        }
    }
}

/// A path made of two paths with a dot between them has the keys of the
/// first, then the keys of the second.
pub proof fn law_segments_of_dotted(first: Seq<char>, second: Seq<char>)
    ensures
        segments(first + seq!['.'] + second) == segments(first) + segments(second),
    decreases second.len(),
{
    let whole = first + seq!['.'] + second;
    if second.len() == 0 {
        assert(whole.drop_last() =~= first);
        assert(segments(first).push(Seq::<char>::empty()) =~= segments(first) + segments(second));
    } else {
        let shorter = second.drop_last();
        law_segments_of_dotted(first, shorter);
        lemma_segments_nonempty(shorter);
        lemma_segments_nonempty(first);
        assert(whole.drop_last() =~= first + seq!['.'] + shorter);
        assert(whole.last() == second.last());
        let before = segments(shorter);
        if second.last() == '.' {
            assert((segments(first) + before).push(Seq::<char>::empty()) =~= segments(first)
                + before.push(Seq::<char>::empty()));
        } else {
            let grown = before.last().push(second.last());
            assert((segments(first) + before).update(
                (segments(first) + before).len() - 1,
                grown,
            ) =~= segments(first) + before.update(before.len() - 1, grown));
        }
    }
}

/// A text without a dot is a path of one key.
pub proof fn lemma_segments_of_key(key: Key)
    requires
        forall|j: int| 0 <= j < key.len() ==> key[j] != '.',
    ensures
        segments(key) == seq![key],
    decreases key.len(),
{
    if key.len() == 0 {
        assert(key =~= Seq::<char>::empty());
    } else {
        let shorter = key.drop_last();
        lemma_segments_of_key(shorter);
        assert(shorter.push(key.last()) =~= key);
        assert(seq![shorter].last() == shorter);
        assert(seq![shorter].update(0, key) =~= seq![key]);
    }
}

/// Keys without dots, joined with dots, make a path with exactly these
/// keys.
pub proof fn law_segments_of_joined(keys: Seq<Key>)
    requires
        keys.len() > 0,
        dotless(keys),
    ensures
        segments(joined(keys)) == keys,
    decreases keys.len(),
{
    lemma_segments_of_key(keys.last());
    if keys.len() == 1 {
        assert(seq![keys[0]] =~= keys);
    } else {
        law_segments_of_joined(keys.drop_last());
        law_segments_of_dotted(joined(keys.drop_last()), keys.last());
        assert(keys.drop_last() + seq![keys.last()] =~= keys);
    }
}

/// Splits a path at its dots.
pub fn split(path: &str) -> (keys: Vec<&str>)
    ensures
        texts(keys@) == segments(path@),
{
    broadcast use vstd::string::group_string_axioms;

    let n = path.unicode_len();
    let mut keys: Vec<&str> = Vec::new();
    let mut start: usize = 0;
    let mut end: usize = 0;
    assert(path@.take(0) =~= Seq::<char>::empty());
    assert(texts(keys@).push(path@.subrange(0, 0)) =~= segments(path@.take(0)));
    for c in it: path.chars()
        invariant
            it.seq() == path@,
            n == path@.len(),
            start <= end <= n,
            end == it.index(),
            segments(path@.take(end as int)) == texts(keys@).push(
                path@.subrange(start as int, end as int),
            ),
    {
        let ghost done = texts(keys@);
        let ghost open = path@.subrange(start as int, end as int);
        proof {
            let longer = path@.take(end + 1);
            assert(longer.drop_last() =~= path@.take(end as int));
            assert(longer.last() == c);
        }
        if c == '.' {
            keys.push(path.substring_char(start, end));
            start = end + 1;
            assert(texts(keys@) =~= done.push(open));
            assert(path@.subrange(start as int, end + 1) =~= Seq::<char>::empty());
        } else {
            assert(path@.subrange(start as int, end + 1) =~= open.push(c));
            assert(done.push(open).update(done.len() as int, open.push(c)) =~= done.push(
                open.push(c),
            ));
        }
        end = end + 1;
    }
    assert(path@.take(n as int) =~= path@);
    let ghost done = texts(keys@);
    keys.push(path.substring_char(start, n));
    assert(texts(keys@) =~= done.push(path@.subrange(start as int, n as int)));
    keys
}

} // verus!

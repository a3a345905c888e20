//! The mathematical model shared by the two topic tables.
//!
//! A table is stored as a vector of entries whose topic names are pairwise
//! distinct; its model is the finite map from each topic name to the entry's
//! mathematical image.  The lemmas here relate the vector operations the
//! registry performs (push, remove, in-place replacement) to `insert` and
//! `remove` on that map.

use vstd::prelude::*;

verus! {

/// An entry of a topic table: a value filed under a topic-name key.
pub trait Keyed: View {
    /// The key under which the entry stands in its table.
    spec fn key(&self) -> Seq<char>;
}

/// No two entries of the sequence share a key.
pub open spec fn unique_keys<E: Keyed>(s: Seq<E>) -> bool {
    forall|i: int, j: int| 0 <= i < j < s.len() ==> s[i].key() != s[j].key()
}

/// The finite map that a sequence of entries represents: each entry's image
/// under its key.  With `unique_keys` no entry shadows another.
pub open spec fn as_map<E: Keyed>(s: Seq<E>) -> Map<Seq<char>, <E as View>::V>
    decreases s.len(),
{
    if s.len() == 0 {
        Map::empty()
    } else {
        as_map(s.drop_last()).insert(s.last().key(), s.last().view())
    }
}

/// Dropping the last entry keeps the keys pairwise distinct.
pub proof fn lemma_unique_keys_drop_last<E: Keyed>(s: Seq<E>)
    requires
        unique_keys(s),
        s.len() > 0,
    ensures
        unique_keys(s.drop_last()),
{
    assert forall|i: int, j: int|
        0 <= i < j < s.drop_last().len() implies s.drop_last()[i].key()
        != s.drop_last()[j].key() by {
        assert(s.drop_last()[i] == s[i]);
        assert(s.drop_last()[j] == s[j]);
    }
}

/// A key stands in the map exactly when some entry carries it.
pub proof fn lemma_as_map_contains<E: Keyed>(s: Seq<E>, k: Seq<char>)
    ensures
        as_map(s).contains_key(k) <==> exists|i: int| 0 <= i < s.len() && s[i].key() == k,
    decreases s.len(),
{
    if s.len() == 0 {
    } else {
        lemma_as_map_contains(s.drop_last(), k);
        if s.last().key() == k {
            assert(s[s.len() - 1].key() == k);
        } else {
            if as_map(s).contains_key(k) {
                let i = choose|i: int|
                    0 <= i < s.drop_last().len() && s.drop_last()[i].key() == k;
                assert(s[i].key() == k);
            }
            if exists|i: int| 0 <= i < s.len() && s[i].key() == k {
                let i = choose|i: int| 0 <= i < s.len() && s[i].key() == k;
                assert(i < s.len() - 1);
                assert(s.drop_last()[i].key() == k);
            }
        }
    }
}

/// In a table with distinct keys, the map sends each entry's key to that
/// entry's image.
pub proof fn lemma_as_map_index<E: Keyed>(s: Seq<E>, i: int)
    requires
        unique_keys(s),
        0 <= i < s.len(),
    ensures
        as_map(s).contains_key(s[i].key()),
        as_map(s)[s[i].key()] == s[i].view(),
    decreases s.len(),
{
    if i == s.len() - 1 {
    } else {
        lemma_unique_keys_drop_last(s);
        lemma_as_map_index(s.drop_last(), i);
        assert(s.drop_last()[i] == s[i]);
        assert(s[i].key() != s.last().key());
    }
}

/// Appending an entry inserts its image under its key.
pub proof fn lemma_as_map_push<E: Keyed>(s: Seq<E>, e: E)
    ensures
        as_map(s.push(e)) == as_map(s).insert(e.key(), e.view()),
{
    assert(s.push(e).drop_last() =~= s);
    assert(s.push(e).last() == e);
}

/// Appending an entry under a fresh key keeps the keys pairwise distinct.
pub proof fn lemma_unique_keys_push<E: Keyed>(s: Seq<E>, e: E)
    requires
        unique_keys(s),
        forall|i: int| 0 <= i < s.len() ==> s[i].key() != e.key(),
    ensures
        unique_keys(s.push(e)),
{
    assert forall|i: int, j: int|
        0 <= i < j < s.push(e).len() implies s.push(e)[i].key() != s.push(e)[j].key() by {
        if j < s.len() {
            assert(s.push(e)[i] == s[i]);
            assert(s.push(e)[j] == s[j]);
        } else {
            assert(s.push(e)[i] == s[i]);
            assert(s.push(e)[j] == e);
        }
    }
}

/// Removing the entry at an index removes its key from the map and keeps the
/// remaining keys pairwise distinct.
pub proof fn lemma_as_map_remove<E: Keyed>(s: Seq<E>, i: int)
    requires
        unique_keys(s),
        0 <= i < s.len(),
    ensures
        as_map(s.remove(i)) =~= as_map(s).remove(s[i].key()),
        unique_keys(s.remove(i)),
    decreases s.len(),
{
    s.remove_ensures(i);
    assert forall|m: int, n: int|
        0 <= m < n < s.remove(i).len() implies s.remove(i)[m].key() != s.remove(i)[n].key() by {
        let m0: int = if m < i { m } else { m + 1 };
        let n0: int = if n < i { n } else { n + 1 };
        assert(s.remove(i)[m] == s[m0]);
        assert(s.remove(i)[n] == s[n0]);
    }
    if i == s.len() - 1 {
        assert(s.remove(i) =~= s.drop_last());
        lemma_as_map_contains(s.drop_last(), s[i].key());
        assert forall|j: int|
            0 <= j < s.drop_last().len() implies s.drop_last()[j].key() != s[i].key() by {
            assert(s.drop_last()[j] == s[j]);
        }
        assert(!as_map(s.drop_last()).contains_key(s[i].key()));
    } else {
        lemma_unique_keys_drop_last(s);
        lemma_as_map_remove(s.drop_last(), i);
        assert(s.remove(i).drop_last() =~= s.drop_last().remove(i));
        assert(s.remove(i).last() == s.last()) by {
            assert(s.remove(i)[s.remove(i).len() - 1] == s[s.len() - 1]);
        }
        assert(s[i].key() != s.last().key());
        assert(s.drop_last()[i] == s[i]);
    }
}

} // verus!

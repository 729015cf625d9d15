//! Association lists read as mathematical maps.
//!
//! The index types of this library are stored as vectors of key-value pairs
//! whose keys never repeat; this module gives such a list its meaning as a
//! `Map` over the views of its keys and values, and the lemmas that relate
//! updating, extending and searching the list to operations on that map.

use vstd::prelude::*;

verus! {

/// The mapping that an association list denotes: entries are read in order,
/// and a later entry for a key overwrites an earlier one.
pub open spec fn assoc_view<K: View, V: View>(s: Seq<(K, V)>) -> Map<K::V, V::V>
    decreases s.len(),
{
    if s.len() == 0 {
        Map::empty()
    } else {
        assoc_view(s.drop_last()).insert(s.last().0@, s.last().1@)
    }
}

/// No two entries of the list bind the same key.
pub open spec fn distinct_keys<K: View, V: View>(s: Seq<(K, V)>) -> bool {
    forall|i: int, j: int| 0 <= i < j < s.len() ==> s[i].0@ != s[j].0@
}

/// An entry whose key no later entry repeats gives that key's binding.
pub proof fn lemma_assoc_view_entry<K: View, V: View>(s: Seq<(K, V)>, i: int)
    requires
        0 <= i < s.len(),
        forall|j: int| i < j < s.len() ==> s[j].0@ != s[i].0@,
    ensures
        assoc_view(s).contains_key(s[i].0@),
        assoc_view(s)[s[i].0@] == s[i].1@,
    decreases s.len(),
{
    if i < s.len() - 1 {
        assert(s.drop_last()[i] == s[i]);
        lemma_assoc_view_entry(s.drop_last(), i);
    }
}

/// A key under which no entry stands is absent from the mapping.
pub proof fn lemma_assoc_view_absent<K: View, V: View>(s: Seq<(K, V)>, key: K::V)
    requires
        forall|i: int| 0 <= i < s.len() ==> s[i].0@ != key,
    ensures
        !assoc_view(s).contains_key(key),
    decreases s.len(),
{
    if s.len() > 0 {
        assert(forall|i: int| 0 <= i < s.drop_last().len() ==> s.drop_last()[i] == s[i]);
        lemma_assoc_view_absent(s.drop_last(), key);
    }
}

/// Appending an entry binds its key, overwriting any earlier binding.
pub proof fn lemma_assoc_view_push<K: View, V: View>(s: Seq<(K, V)>, e: (K, V))
    ensures
        assoc_view(s.push(e)) == assoc_view(s).insert(e.0@, e.1@),
{
    assert(s.push(e).drop_last() =~= s);
    assert(s.push(e).last() == e);
}

/// Replacing the entry of a key, when keys are distinct, rebinds exactly
/// that key.
pub proof fn lemma_assoc_view_update<K: View, V: View>(s: Seq<(K, V)>, i: int, e: (K, V))
    requires
        0 <= i < s.len(),
        e.0@ == s[i].0@,
        distinct_keys(s),
    ensures
        assoc_view(s.update(i, e)) == assoc_view(s).insert(e.0@, e.1@),
    decreases s.len(),
{
    let t = s.update(i, e);
    assert(t.last() == if i == s.len() - 1 { e } else { s.last() });
    if i == s.len() - 1 {
        assert(t.drop_last() =~= s.drop_last());
        assert(assoc_view(t) =~= assoc_view(s).insert(e.0@, e.1@));
    } else {
        assert(t.drop_last() =~= s.drop_last().update(i, e));
        assert(forall|a: int, b: int|
            0 <= a < b < s.drop_last().len() ==> s.drop_last()[a] == s[a] && s.drop_last()[b]
                == s[b]);
        lemma_assoc_view_update(s.drop_last(), i, e);
        assert(s.last().0@ != e.0@);
        assert(assoc_view(t) =~= assoc_view(s).insert(e.0@, e.1@));
    }
}

} // verus!

//! Viewing a sequence of keyed entries as a finite map.
//!
//! The in-memory store and the in-memory volume backend both keep their
//! entries in a vector whose keys are unique; their contracts speak about
//! the induced map.  The lemmas here relate the vector operations (push,
//! update, remove) to the map operations (insert, remove).

use vstd::prelude::*;

verus! {

/// The map induced by a sequence of key-value pairs; a later entry wins,
/// though with unique keys the case never arises.
pub open spec fn pairs_to_map<K, V>(s: Seq<(K, V)>) -> Map<K, V>
    decreases s.len(),
{
    if s.len() == 0 {
        Map::empty()
    } else {
        pairs_to_map(s.drop_last()).insert(s.last().0, s.last().1)
    }
}

/// No two entries share a key.
pub open spec fn unique_keys<K, V>(s: Seq<(K, V)>) -> bool {
    forall|i: int, j: int| 0 <= i < j < s.len() ==> (#[trigger] s[i]).0 != (#[trigger] s[j]).0
}

/// A key is in the induced map iff some entry carries it.
pub proof fn lemma_contains<K, V>(s: Seq<(K, V)>, k: K)
    ensures
        pairs_to_map(s).contains_key(k) <==> exists|i: int|
            0 <= i < s.len() && (#[trigger] s[i]).0 == k,
    decreases s.len(),
{
    if s.len() > 0 {
        lemma_contains(s.drop_last(), k);
        if s.last().0 == k {
            assert(s[s.len() - 1].0 == k);
        } else if exists|i: int| 0 <= i < s.len() && (#[trigger] s[i]).0 == k {
            let i = choose|i: int| 0 <= i < s.len() && (#[trigger] s[i]).0 == k;
            if i < s.len() - 1 {
                assert(s.drop_last()[i].0 == k);
            }
        }
    }
}

/// With unique keys, the induced map sends each entry's key to its value.
pub proof fn lemma_value_at<K, V>(s: Seq<(K, V)>, i: int)
    requires
        unique_keys(s),
        0 <= i < s.len(),
    ensures
        pairs_to_map(s).contains_key(s[i].0),
        pairs_to_map(s)[s[i].0] == s[i].1,
    decreases s.len(),
{
    lemma_contains(s, s[i].0);
    if i == s.len() - 1 {
    } else {
        assert(s[i].0 != s[s.len() - 1].0);
        assert(s.drop_last()[i] == s[i]);
        lemma_value_at(s.drop_last(), i);
    }
}

/// Appending a fresh entry inserts its key.
pub proof fn lemma_push<K, V>(s: Seq<(K, V)>, k: K, v: V)
    requires
        unique_keys(s),
        forall|i: int| 0 <= i < s.len() ==> (#[trigger] s[i]).0 != k,
    ensures
        pairs_to_map(s.push((k, v))) == pairs_to_map(s).insert(k, v),
        unique_keys(s.push((k, v))),
{
    assert(s.push((k, v)).drop_last() =~= s);
    assert(forall|i: int, j: int|
        0 <= i < j < s.push((k, v)).len() ==> (#[trigger] s.push((k, v))[i]).0 != (#[trigger] s.push(
            (k, v),
        )[j]).0) by {
        assert(forall|i: int| 0 <= i < s.len() ==> s.push((k, v))[i] == s[i]);
    }
}

/// Overwriting the entry at `i` with a key no other entry carries removes
/// the old key and inserts the new one.
pub proof fn lemma_update<K, V>(s: Seq<(K, V)>, i: int, k2: K, v2: V)
    requires
        unique_keys(s),
        0 <= i < s.len(),
        forall|j: int| 0 <= j < s.len() && j != i ==> (#[trigger] s[j]).0 != k2,
    ensures
        pairs_to_map(s.update(i, (k2, v2))) == pairs_to_map(s).remove(s[i].0).insert(k2, v2),
        unique_keys(s.update(i, (k2, v2))),
    decreases s.len(),
{
    let t = s.update(i, (k2, v2));
    assert(unique_keys(t)) by {
        assert(forall|a: int| 0 <= a < s.len() && a != i ==> t[a] == s[a]);
        assert(t[i].0 == k2);
    }
    if i == s.len() - 1 {
        assert(t.drop_last() =~= s.drop_last());
        lemma_contains(s.drop_last(), s[i].0);
        assert(!pairs_to_map(s.drop_last()).contains_key(s[i].0)) by {
            if exists|a: int| 0 <= a < s.drop_last().len() && (#[trigger] s.drop_last()[a]).0
                == s[i].0 {
                let a = choose|a: int|
                    0 <= a < s.drop_last().len() && (#[trigger] s.drop_last()[a]).0 == s[i].0;
                assert(s[a].0 == s[i].0);
            }
        }
        assert(pairs_to_map(t) =~= pairs_to_map(s).remove(s[i].0).insert(k2, v2));
    } else {
        assert(t.drop_last() =~= s.drop_last().update(i, (k2, v2)));
        assert(forall|j: int|
            0 <= j < s.drop_last().len() && j != i ==> (#[trigger] s.drop_last()[j]).0 != k2);
        lemma_update(s.drop_last(), i, k2, v2);
        assert(s.drop_last()[i] == s[i]);
        assert(t.last() == s.last());
        assert(s[i].0 != s.last().0);
        assert(k2 != s.last().0) by {
            assert(s[s.len() - 1].0 == s.last().0);
        }
        assert(pairs_to_map(t) =~= pairs_to_map(s).remove(s[i].0).insert(k2, v2));
    }
}

/// Removing the entry at `i` removes its key.
pub proof fn lemma_remove<K, V>(s: Seq<(K, V)>, i: int)
    requires
        unique_keys(s),
        0 <= i < s.len(),
    ensures
        pairs_to_map(s.remove(i)) == pairs_to_map(s).remove(s[i].0),
        unique_keys(s.remove(i)),
    decreases s.len(),
{
    let t = s.remove(i);
    assert(unique_keys(t)) by {
        assert(forall|a: int| 0 <= a < i ==> t[a] == s[a]);
        assert(forall|a: int| i <= a < t.len() ==> t[a] == s[a + 1]);
    }
    if i == s.len() - 1 {
        assert(t =~= s.drop_last());
        lemma_contains(s.drop_last(), s[i].0);
        assert(!pairs_to_map(s.drop_last()).contains_key(s[i].0)) by {
            if exists|a: int| 0 <= a < s.drop_last().len() && (#[trigger] s.drop_last()[a]).0
                == s[i].0 {
                let a = choose|a: int|
                    0 <= a < s.drop_last().len() && (#[trigger] s.drop_last()[a]).0 == s[i].0;
                assert(s[a].0 == s[i].0);
            }
        }
        assert(pairs_to_map(t) =~= pairs_to_map(s).remove(s[i].0));
    } else {
        assert(t.drop_last() =~= s.drop_last().remove(i));
        assert(s.drop_last()[i] == s[i]);
        lemma_remove(s.drop_last(), i);
        assert(t.last() == s.last());
        assert(s[i].0 != s.last().0) by {
            assert(s[s.len() - 1].0 == s.last().0);
        }
        assert(pairs_to_map(t) =~= pairs_to_map(s).remove(s[i].0));
    }
}

} // verus!

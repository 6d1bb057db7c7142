//! Keyed record stores, modelled as association lists with unique keys.
//!
//! Every component keeps its persistent records in a `Vec` of key/value
//! pairs. `kv_lookup` is the mathematical reading of such a list, and the
//! lemmas here relate it to the indexed updates the executable code makes.

use vstd::prelude::*;

verus! {

/// The value stored under `key`: the first match, scanning left to right.
pub open spec fn kv_lookup<K, V>(s: Seq<(K, V)>, key: K) -> Option<V>
    decreases s.len(),
{
    if s.len() == 0 {
        None
    } else if s[0].0 == key {
        Some(s[0].1)
    } else {
        kv_lookup(s.skip(1), key)
    }
}

/// No two entries share a key.
pub open spec fn kv_unique<K, V>(s: Seq<(K, V)>) -> bool {
    forall|i: int, j: int| 0 <= i < j < s.len() ==> (#[trigger] s[i]).0 != (#[trigger] s[j]).0
}

/// Looking up the key of entry `i` finds exactly that entry.
pub proof fn lemma_kv_lookup_at<K, V>(s: Seq<(K, V)>, key: K, i: int)
    requires
        kv_unique(s),
        0 <= i < s.len(),
        s[i].0 == key,
    ensures
        kv_lookup(s, key) == Some(s[i].1),
    decreases s.len(),
{
    if i == 0 {
    } else {
        assert(s[0].0 != key);
        assert(kv_unique(s.skip(1)));
        assert(s.skip(1)[i - 1] == s[i]);
        lemma_kv_lookup_at(s.skip(1), key, i - 1);
    }
}

/// A key that occurs in no entry is not found.
pub proof fn lemma_kv_lookup_absent<K, V>(s: Seq<(K, V)>, key: K)
    requires
        forall|i: int| 0 <= i < s.len() ==> (#[trigger] s[i]).0 != key,
    ensures
        kv_lookup(s, key) == None::<V>,
    decreases s.len(),
{
    if s.len() > 0 {
        assert(forall|i: int|
            0 <= i < s.skip(1).len() ==> (#[trigger] s.skip(1)[i]).0 != key) by {
            assert(forall|i: int|
                0 <= i < s.skip(1).len() ==> s.skip(1)[i] == s[i + 1]);
        }
        lemma_kv_lookup_absent(s.skip(1), key);
    }
}

/// A found value sits in some entry of the list.
pub proof fn lemma_kv_lookup_some_index<K, V>(s: Seq<(K, V)>, key: K)
    requires
        kv_lookup(s, key) is Some,
    ensures
        exists|i: int|
            0 <= i < s.len() && (#[trigger] s[i]).0 == key
                && s[i].1 == kv_lookup(s, key)->Some_0,
    decreases s.len(),
{
    if s.len() > 0 && s[0].0 != key {
        lemma_kv_lookup_some_index(s.skip(1), key);
        let j = choose|j: int|
            0 <= j < s.skip(1).len() && (#[trigger] s.skip(1)[j]).0 == key
                && s.skip(1)[j].1 == kv_lookup(s.skip(1), key)->Some_0;
        assert(s[j + 1] == s.skip(1)[j]);
    }
}

/// A key that is not found occurs in no entry.
pub proof fn lemma_kv_lookup_none_absent<K, V>(s: Seq<(K, V)>, key: K)
    requires
        kv_lookup(s, key) == None::<V>,
    ensures
        forall|i: int| 0 <= i < s.len() ==> (#[trigger] s[i]).0 != key,
    decreases s.len(),
{
    if s.len() > 0 {
        lemma_kv_lookup_none_absent(s.skip(1), key);
        assert forall|i: int| 0 <= i < s.len() implies (#[trigger] s[i]).0 != key by {
            if i > 0 {
                assert(s.skip(1)[i - 1] == s[i]);
            }
        }
    }
}

/// Overwriting the entry that holds `key` leaves every other key's value
/// as it was.
pub proof fn lemma_kv_update_other<K, V>(s: Seq<(K, V)>, key: K, v: V, i: int, other: K)
    requires
        kv_unique(s),
        0 <= i < s.len(),
        s[i].0 == key,
        other != key,
    ensures
        kv_lookup(s.update(i, (key, v)), other) == kv_lookup(s, other),
    decreases s.len(),
{
    let s2 = s.update(i, (key, v));
    if i == 0 {
        assert(s2.skip(1) =~= s.skip(1));
    } else {
        if s[0].0 == other {
        } else {
            assert(kv_unique(s.skip(1)));
            assert(s.skip(1)[i - 1] == s[i]);
            lemma_kv_update_other(s.skip(1), key, v, i - 1, other);
            assert(s2.skip(1) =~= s.skip(1).update(i - 1, (key, v)));
        }
    }
}

/// Appending an entry under a fresh key leaves every other key's value
/// as it was.
pub proof fn lemma_kv_push_other<K, V>(s: Seq<(K, V)>, key: K, v: V, other: K)
    requires
        other != key,
    ensures
        kv_lookup(s.push((key, v)), other) == kv_lookup(s, other),
    decreases s.len(),
{
    let s2 = s.push((key, v));
    if s.len() == 0 {
        assert(s2.len() == 1 && s2[0].0 == key);
        assert(s2.skip(1) =~= Seq::<(K, V)>::empty());
        assert(kv_lookup(s2.skip(1), other) == None::<V>);
        assert(kv_lookup(s2, other) == None::<V>);
    } else {
        assert(s2[0] == s[0]);
        if s[0].0 == other {
            assert(kv_lookup(s2, other) == Some(s2[0].1));
        } else {
            lemma_kv_push_other(s.skip(1), key, v, other);
            assert(s2.skip(1) =~= s.skip(1).push((key, v)));
            assert(kv_lookup(s2, other) == kv_lookup(s2.skip(1), other));
        }
    }
}

/// Removing the entry that holds `key` leaves every other key's value
/// as it was.
pub proof fn lemma_kv_remove_other<K, V>(s: Seq<(K, V)>, key: K, i: int, other: K)
    requires
        kv_unique(s),
        0 <= i < s.len(),
        s[i].0 == key,
        other != key,
    ensures
        kv_lookup(s.remove(i), other) == kv_lookup(s, other),
    decreases s.len(),
{
    let s2 = s.remove(i);
    if i == 0 {
        assert(s2 =~= s.skip(1));
    } else {
        if s[0].0 == other {
            assert(s2[0] == s[0]);
        } else {
            assert(kv_unique(s.skip(1)));
            assert(s.skip(1)[i - 1] == s[i]);
            lemma_kv_remove_other(s.skip(1), key, i - 1, other);
            assert(s2.skip(1) =~= s.skip(1).remove(i - 1));
        }
    }
}

/// Scans for `key` and returns the index of its entry, if any.
pub fn kv_find_u64<V>(entries: &Vec<(u64, V)>, key: u64) -> (r: Option<usize>)
    ensures
        match r {
            Some(i) => i < entries@.len() && entries@[i as int].0 == key,
            None => forall|i: int|
                0 <= i < entries@.len() ==> (#[trigger] entries@[i]).0 != key,
        },
{
    let n = entries.len();
    let mut idx: usize = 0;
    while idx < n
        invariant
            n == entries@.len(),
            idx <= n,
            forall|i: int| 0 <= i < idx ==> (#[trigger] entries@[i]).0 != key,
        decreases n - idx,
    {
        if entries[idx].0 == key {
            return Some(idx);
        }
        idx = idx + 1;
    }
    None
}

} // verus!

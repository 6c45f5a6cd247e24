//! Tables of keys and values. The entries stand in the order in which they
//! were made; a key has at most one.

use vstd::prelude::*;

verus! {

/// The entries of a table.
pub type Entries<K, V> = Seq<(K, V)>;

/// The value of the last entry with the key `k`.
pub open spec fn find<K, V>(t: Entries<K, V>, k: K) -> Option<V>
    decreases t.len(),
{
    if t.len() == 0 {
        None
    } else if t.last().0 == k {
        Some(t.last().1)
    } else {
        find(t.drop_last(), k)
    }
}

/// The entries without those of the key `k`.
pub open spec fn remove<K, V>(t: Entries<K, V>, k: K) -> Entries<K, V>
    decreases t.len(),
{
    if t.len() == 0 {
        t
    } else if t.last().0 == k {
        remove(t.drop_last(), k)
    } else {
        remove(t.drop_last(), k).push(t.last())
    }
}

/// The entries with `v` as the value of `k`.
pub open spec fn insert<K, V>(t: Entries<K, V>, k: K, v: V) -> Entries<K, V> {
    remove(t, k).push((k, v))
}

/// A key that was removed is gone; the others keep their values.
pub proof fn law_remove<K, V>(t: Entries<K, V>, k: K, other: K)
    ensures
        find(remove(t, k), k) is None,
        other != k ==> find(remove(t, k), other) == find(t, other),
    decreases t.len(),
{
    if t.len() > 0 {
        law_remove(t.drop_last(), k, other);
        if t.last().0 != k {
            assert(remove(t, k).drop_last() =~= remove(t.drop_last(), k));
        }
    }
}

/// A key that was inserted has its value; the others keep theirs.
pub proof fn law_insert<K, V>(t: Entries<K, V>, k: K, v: V, other: K)
    ensures
        find(insert(t, k, v), k) == Some(v),
        other != k ==> find(insert(t, k, v), other) == find(t, other),
{
    law_remove(t, k, other);
    assert(insert(t, k, v).drop_last() =~= remove(t, k));
}

} // verus!

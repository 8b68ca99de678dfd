//! Association lists: a sequence of key/value pairs read as a map from each
//! key to the value of its first entry.

use vstd::prelude::*;

verus! {

/// The value of the first entry of `s` whose key is `k`.
pub open spec fn assoc_get<K, V>(s: Seq<(K, V)>, k: K) -> Option<V>
    decreases s.len(),
{
    if s.len() == 0 {
        None
    } else if s[0].0 == k {
        Some(s[0].1)
    } else {
        assoc_get(s.subrange(1, s.len() as int), k)
    }
}

/// Whether some entry of `s` has key `k`.
pub open spec fn assoc_has<K, V>(s: Seq<(K, V)>, k: K) -> bool {
    exists|i: int| 0 <= i < s.len() && s[i].0 == k
}

/// Looking up a key whose first entry is at `i`.
pub proof fn lemma_assoc_get_first<K, V>(s: Seq<(K, V)>, i: int, k: K)
    requires
        0 <= i < s.len(),
        s[i].0 == k,
        forall|j: int| 0 <= j < i ==> s[j].0 != k,
    ensures
        assoc_get(s, k) == Some(s[i].1),
    decreases i,
{
    if i > 0 {
        let t = s.subrange(1, s.len() as int);
        assert forall|j: int| 0 <= j < i - 1 implies t[j].0 != k by {
            assert(t[j] == s[j + 1]);
        }
        lemma_assoc_get_first(t, i - 1, k);
    }
}

/// Looking up a key that has no entry.
pub proof fn lemma_assoc_get_absent<K, V>(s: Seq<(K, V)>, k: K)
    requires
        forall|j: int| 0 <= j < s.len() ==> s[j].0 != k,
    ensures
        assoc_get(s, k) is None,
    decreases s.len(),
{
    if s.len() > 0 {
        let t = s.subrange(1, s.len() as int);
        assert forall|j: int| 0 <= j < t.len() implies t[j].0 != k by {
            assert(t[j] == s[j + 1]);
        }
        lemma_assoc_get_absent(t, k);
    }
}

/// A lookup finds an entry exactly when some entry carries the key.
pub proof fn lemma_assoc_get_some<K, V>(s: Seq<(K, V)>, k: K)
    ensures
        assoc_get(s, k) is Some <==> assoc_has(s, k),
    decreases s.len(),
{
    if s.len() > 0 {
        let t = s.subrange(1, s.len() as int);
        lemma_assoc_get_some(t, k);
        if s[0].0 != k {
            if assoc_has(s, k) {
                let i = choose|i: int| 0 <= i < s.len() && s[i].0 == k;
                assert(t[i - 1] == s[i]);
            }
            if assoc_has(t, k) {
                let i = choose|i: int| 0 <= i < t.len() && t[i].0 == k;
                assert(s[i + 1] == t[i]);
            }
        } else {
            assert(s[0].0 == k);
        }
    }
}

/// Replacing the first entry of `k` changes the lookup of `k` only.
pub proof fn lemma_assoc_update_first<K, V>(s: Seq<(K, V)>, i: int, k: K, v: V, k2: K)
    requires
        0 <= i < s.len(),
        s[i].0 == k,
        forall|j: int| 0 <= j < i ==> s[j].0 != k,
    ensures
        assoc_get(s.update(i, (k, v)), k2) == if k2 == k { Some(v) } else { assoc_get(s, k2) },
    decreases i,
{
    let u = s.update(i, (k, v));
    if i == 0 {
        assert(u.subrange(1, u.len() as int) =~= s.subrange(1, s.len() as int));
    } else {
        let t = s.subrange(1, s.len() as int);
        assert forall|j: int| 0 <= j < i - 1 implies t[j].0 != k by {
            assert(t[j] == s[j + 1]);
        }
        lemma_assoc_update_first(t, i - 1, k, v, k2);
        assert(u.subrange(1, u.len() as int) =~= t.update(i - 1, (k, v)));
        if k2 == k {
            lemma_assoc_get_first(u, i, k);
        }
    }
}

/// Appending an entry for a key without one changes the lookup of that key only.
pub proof fn lemma_assoc_push_new<K, V>(s: Seq<(K, V)>, k: K, v: V, k2: K)
    requires
        forall|j: int| 0 <= j < s.len() ==> s[j].0 != k,
    ensures
        assoc_get(s.push((k, v)), k2) == if k2 == k { Some(v) } else { assoc_get(s, k2) },
    decreases s.len(),
{
    let u = s.push((k, v));
    if s.len() == 0 {
        assert(u[0] == (k, v));
        assert(u.subrange(1, u.len() as int) =~= Seq::<(K, V)>::empty());
        assert(assoc_get(Seq::<(K, V)>::empty(), k2) is None);
    } else {
        assert(u[0] == s[0]);
        let t = s.subrange(1, s.len() as int);
        assert forall|j: int| 0 <= j < t.len() implies t[j].0 != k by {
            assert(t[j] == s[j + 1]);
        }
        lemma_assoc_push_new(t, k, v, k2);
        assert(u.subrange(1, u.len() as int) =~= t.push((k, v)));
    }
}

/// Inserting an entry for another key leaves a lookup unchanged.
pub proof fn lemma_assoc_insert_other<K, V>(s: Seq<(K, V)>, j: int, e: (K, V), k2: K)
    requires
        0 <= j <= s.len(),
        e.0 != k2,
    ensures
        assoc_get(s.insert(j, e), k2) == assoc_get(s, k2),
    decreases j,
{
    let u = s.insert(j, e);
    if j == 0 {
        assert(u.subrange(1, u.len() as int) =~= s);
    } else {
        let t = s.subrange(1, s.len() as int);
        lemma_assoc_insert_other(t, j - 1, e, k2);
        assert(u.subrange(1, u.len() as int) =~= t.insert(j - 1, e));
        assert(u[0] == s[0]);
    }
}

/// Inserting an entry for a key that no earlier entry has makes lookups
/// of that key find it.
pub proof fn lemma_assoc_insert_new<K, V>(s: Seq<(K, V)>, j: int, e: (K, V))
    requires
        0 <= j <= s.len(),
        forall|i: int| 0 <= i < j ==> s[i].0 != e.0,
    ensures
        assoc_get(s.insert(j, e), e.0) == Some(e.1),
{
    let u = s.insert(j, e);
    assert forall|i: int| 0 <= i < j implies u[i].0 != e.0 by {
        assert(u[i] == s[i]);
    }
    lemma_assoc_get_first(u, j, e.0);
}

} // verus!

use vstd::prelude::*;

verus! {

/// Whether no two entries share a key.
pub open spec fn keys_unique<K, V>(ms: Seq<(K, V)>) -> bool {
    forall|i: int, j: int| 0 <= i < ms.len() && 0 <= j < ms.len() && i != j ==> ms[i].0 != ms[j].0
}

/// Whether some entry has key `n`.
pub open spec fn has_entry<K, V>(ms: Seq<(K, V)>, n: K) -> bool {
    exists|i: int| 0 <= i < ms.len() && ms[i].0 == n
}

/// The entries as a map from key to value.
pub open spec fn entry_map<K, V>(ms: Seq<(K, V)>) -> Map<K, V> {
    Map::new(
        |n: K| has_entry(ms, n),
        |n: K| ms[choose|i: int| 0 <= i < ms.len() && ms[i].0 == n].1,
    )
}

/// The entry at a position is the one the map holds under its key.
pub proof fn lemma_entry_at<K, V>(ms: Seq<(K, V)>, i: int)
    requires
        keys_unique(ms),
        0 <= i < ms.len(),
    ensures
        entry_map(ms).dom().contains(ms[i].0),
        entry_map(ms)[ms[i].0] == ms[i].1,
{
    assert(has_entry(ms, ms[i].0));
    let j = choose|j: int| 0 <= j < ms.len() && ms[j].0 == ms[i].0;
    assert(j == i);
}

/// Adding an entry under a new key adds it to the map.
pub proof fn lemma_entry_push<K, V>(ms: Seq<(K, V)>, v: (K, V))
    requires
        keys_unique(ms),
        !has_entry(ms, v.0),
    ensures
        keys_unique(ms.push(v)),
        entry_map(ms.push(v)) == entry_map(ms).insert(v.0, v.1),
{
    let t = ms.push(v);
    assert forall|i: int, j: int| 0 <= i < t.len() && 0 <= j < t.len() && i != j implies t[i].0
        != t[j].0 by {
        if i < ms.len() && j < ms.len() {
        } else if i < ms.len() {
            assert(ms[i].0 != v.0);
        } else {
            assert(ms[j].0 != v.0);
        }
    }
    let m = entry_map(ms).insert(v.0, v.1);
    assert forall|n: K| #[trigger] entry_map(t).dom().contains(n) == m.dom().contains(n) by {
        if has_entry(ms, n) {
            let i = choose|i: int| 0 <= i < ms.len() && ms[i].0 == n;
            assert(t[i].0 == n);
        }
        if has_entry(t, n) && n != v.0 {
            let i = choose|i: int| 0 <= i < t.len() && t[i].0 == n;
            assert(ms[i].0 == n);
        }
        if n == v.0 {
            assert(t[ms.len() as int].0 == n);
        }
    }
    assert forall|n: K| #[trigger] entry_map(t).dom().contains(n) implies entry_map(t)[n]
        == m[n] by {
        let i = choose|i: int| 0 <= i < t.len() && t[i].0 == n;
        lemma_entry_at(t, i);
        if i < ms.len() {
            lemma_entry_at(ms, i);
        }
    }
    assert(entry_map(t) =~= m);
}

/// Replacing an entry by one with the same key replaces it in the map.
pub proof fn lemma_entry_update<K, V>(ms: Seq<(K, V)>, i: int, v: (K, V))
    requires
        keys_unique(ms),
        0 <= i < ms.len(),
        v.0 == ms[i].0,
    ensures
        keys_unique(ms.update(i, v)),
        entry_map(ms.update(i, v)) == entry_map(ms).insert(v.0, v.1),
{
    let t = ms.update(i, v);
    assert forall|a: int, b: int| 0 <= a < t.len() && 0 <= b < t.len() && a != b implies t[a].0
        != t[b].0 by {
        assert(t[a].0 == ms[a].0);
        assert(t[b].0 == ms[b].0);
    }
    let m = entry_map(ms).insert(v.0, v.1);
    assert forall|n: K| #[trigger] entry_map(t).dom().contains(n) == m.dom().contains(n) by {
        if has_entry(ms, n) {
            let a = choose|a: int| 0 <= a < ms.len() && ms[a].0 == n;
            assert(t[a].0 == n);
        }
        if has_entry(t, n) {
            let a = choose|a: int| 0 <= a < t.len() && t[a].0 == n;
            assert(ms[a].0 == n);
        }
    }
    assert forall|n: K| #[trigger] entry_map(t).dom().contains(n) implies entry_map(t)[n]
        == m[n] by {
        let a = choose|a: int| 0 <= a < t.len() && t[a].0 == n;
        lemma_entry_at(t, a);
        lemma_entry_at(ms, a);
    }
    assert(entry_map(t) =~= m);
}

} // verus!

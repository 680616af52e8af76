//! Sequences of records in which each record carries a key that occurs at most
//! once, read as finite maps from key to record.

use vstd::prelude::*;

verus! {

/// No two positions of `s` carry the same key.
pub open spec fn unique_keys<T, K>(s: Seq<T>, key: spec_fn(T) -> K) -> bool {
    forall|i: int, j: int|
        0 <= i < s.len() && 0 <= j < s.len() && #[trigger] key(s[i]) == #[trigger] key(s[j]) ==> i
            == j
}

/// Some position of `s` carries the key `k`.
pub open spec fn has_key<T, K>(s: Seq<T>, key: spec_fn(T) -> K, k: K) -> bool {
    exists|i: int| 0 <= i < s.len() && #[trigger] key(s[i]) == k
}

/// The map from each key that occurs in `s` to the value of the record that carries it.
pub open spec fn keyed_map<T, K, V>(s: Seq<T>, key: spec_fn(T) -> K, val: spec_fn(T) -> V) -> Map<
    K,
    V,
> {
    Map::new(
        |k: K| has_key(s, key, k),
        |k: K| val(s[choose|i: int| 0 <= i < s.len() && #[trigger] key(s[i]) == k]),
    )
}

/// Reading the map at the key of a position gives the value of that position.
pub proof fn lemma_keyed_map_at<T, K, V>(
    s: Seq<T>,
    key: spec_fn(T) -> K,
    val: spec_fn(T) -> V,
    i: int,
)
    requires
        unique_keys(s, key),
        0 <= i < s.len(),
    ensures
        keyed_map(s, key, val).dom().contains(key(s[i])),
        keyed_map(s, key, val)[key(s[i])] == val(s[i]),
{
    let k = key(s[i]);
    assert(has_key(s, key, k));
    let j = choose|j: int| 0 <= j < s.len() && #[trigger] key(s[j]) == k;
    assert(key(s[j]) == key(s[i]));
}

/// Appending a record with a fresh key inserts that key into the map.
pub proof fn lemma_keyed_map_push<T, K, V>(
    s: Seq<T>,
    key: spec_fn(T) -> K,
    val: spec_fn(T) -> V,
    x: T,
)
    requires
        unique_keys(s, key),
        !has_key(s, key, key(x)),
    ensures
        unique_keys(s.push(x), key),
        keyed_map(s.push(x), key, val) == keyed_map(s, key, val).insert(key(x), val(x)),
{
    let t = s.push(x);
    assert forall|i: int, j: int|
        0 <= i < t.len() && 0 <= j < t.len() && #[trigger] key(t[i]) == #[trigger] key(t[j]) implies i
        == j by {
        if i < s.len() && j < s.len() {
            assert(key(s[i]) == key(s[j]));
        } else if i < s.len() {
            assert(key(s[i]) == key(x));
        } else if j < s.len() {
            assert(key(s[j]) == key(x));
        }
    }
    let m1 = keyed_map(t, key, val);
    let m2 = keyed_map(s, key, val).insert(key(x), val(x));
    assert forall|k: K| m1.dom().contains(k) <==> m2.dom().contains(k) by {
        if has_key(t, key, k) {
            let i = choose|i: int| 0 <= i < t.len() && #[trigger] key(t[i]) == k;
            if i < s.len() {
                assert(key(s[i]) == k);
            }
        }
        if has_key(s, key, k) {
            let i = choose|i: int| 0 <= i < s.len() && #[trigger] key(s[i]) == k;
            assert(key(t[i]) == k);
        }
        if k == key(x) {
            assert(key(t[s.len() as int]) == k);
        }
    }
    assert forall|k: K| m1.dom().contains(k) implies m1[k] == m2[k] by {
        let i = choose|i: int| 0 <= i < t.len() && #[trigger] key(t[i]) == k;
        lemma_keyed_map_at(t, key, val, i);
        if i < s.len() {
            assert(t[i] == s[i]);
            lemma_keyed_map_at(s, key, val, i);
        }
    }
    assert(m1 =~= m2);
}

/// Replacing the record at a position by one with the same key overwrites that key.
pub proof fn lemma_keyed_map_update<T, K, V>(
    s: Seq<T>,
    key: spec_fn(T) -> K,
    val: spec_fn(T) -> V,
    i: int,
    x: T,
)
    requires
        unique_keys(s, key),
        0 <= i < s.len(),
        key(x) == key(s[i]),
    ensures
        unique_keys(s.update(i, x), key),
        keyed_map(s.update(i, x), key, val) == keyed_map(s, key, val).insert(key(x), val(x)),
{
    let t = s.update(i, x);
    assert forall|a: int, b: int|
        0 <= a < t.len() && 0 <= b < t.len() && #[trigger] key(t[a]) == #[trigger] key(t[b]) implies a
        == b by {
        if a != i && b != i {
            assert(key(s[a]) == key(s[b]));
        } else if a != i {
            assert(key(s[a]) == key(s[i]));
        } else if b != i {
            assert(key(s[b]) == key(s[i]));
        }
    }
    let m1 = keyed_map(t, key, val);
    let m2 = keyed_map(s, key, val).insert(key(x), val(x));
    assert forall|k: K| m1.dom().contains(k) <==> m2.dom().contains(k) by {
        if has_key(t, key, k) {
            let j = choose|j: int| 0 <= j < t.len() && #[trigger] key(t[j]) == k;
            if j != i {
                assert(key(s[j]) == k);
            }
        }
        if has_key(s, key, k) {
            let j = choose|j: int| 0 <= j < s.len() && #[trigger] key(s[j]) == k;
            if j == i {
                assert(key(t[i]) == k);
            } else {
                assert(key(t[j]) == k);
            }
        }
        if k == key(x) {
            assert(key(t[i]) == k);
        }
    }
    assert forall|k: K| m1.dom().contains(k) implies m1[k] == m2[k] by {
        let j = choose|j: int| 0 <= j < t.len() && #[trigger] key(t[j]) == k;
        lemma_keyed_map_at(t, key, val, j);
        if j != i {
            assert(t[j] == s[j]);
            lemma_keyed_map_at(s, key, val, j);
        }
    }
    assert(m1 =~= m2);
}

} // verus!

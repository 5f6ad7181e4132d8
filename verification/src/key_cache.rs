//! Shared model of the lazily-filled, never-evicted key caches (pipelines
//! and texture bind groups): an insertion-ordered sequence of distinct keys,
//! where ensuring a key appends it only if it is not yet present.

use vstd::prelude::*;

verus! {

/// No key occurs twice.
pub open spec fn distinct_keys<K>(keys: Seq<K>) -> bool {
    forall|i: int, j: int|
        #![trigger keys[i], keys[j]]
        0 <= i < j < keys.len() ==> keys[i] != keys[j]
}

/// What ensuring a key does to the cache: nothing when the key is already
/// present, otherwise the key is appended at the end.
pub open spec fn ensure_key<K>(keys: Seq<K>, k: K) -> Seq<K> {
    if keys.contains(k) {
        keys
    } else {
        keys.push(k)
    }
}

/// Ensuring the same key twice creates exactly one entry: the second ensure
/// leaves the cache unchanged.
pub proof fn lemma_ensure_key_idempotent<K>(keys: Seq<K>, k: K)
    ensures
        ensure_key(ensure_key(keys, k), k) == ensure_key(keys, k),
{
    if !keys.contains(k) {
        assert(keys.push(k)[keys.len() as int] == k);
        assert(keys.push(k).contains(k));
    }
}

/// An ensured key is present afterwards.
pub proof fn lemma_ensure_key_contains<K>(keys: Seq<K>, k: K)
    ensures
        ensure_key(keys, k).contains(k),
{
    if !keys.contains(k) {
        assert(keys.push(k)[keys.len() as int] == k);
    }
}

/// Ensuring keeps the keys distinct.
pub proof fn lemma_ensure_key_distinct<K>(keys: Seq<K>, k: K)
    requires
        distinct_keys(keys),
    ensures
        distinct_keys(ensure_key(keys, k)),
{
    if !keys.contains(k) {
        let keys1 = keys.push(k);
        assert forall|i: int, j: int|
            #![trigger keys1[i], keys1[j]]
            0 <= i < j < keys1.len() implies keys1[i] != keys1[j] by {
            if j == keys.len() {
                assert(keys1[i] == keys[i]);
                assert(!keys.contains(k));
            } else {
                assert(keys1[i] == keys[i] && keys1[j] == keys[j]);
            }
        }
    }
}

/// Ensuring keeps every key that was already present.
pub proof fn lemma_ensure_key_monotone<K>(keys: Seq<K>, k: K, x: K)
    requires
        keys.contains(x),
    ensures
        ensure_key(keys, k).contains(x),
{
    let i = choose|i: int| 0 <= i < keys.len() && keys[i] == x;
    assert(ensure_key(keys, k)[i] == x);
}

/// What ensuring each key of `ks` in order does to the cache.
pub open spec fn ensure_keys<K>(keys: Seq<K>, ks: Seq<K>) -> Seq<K>
    decreases ks.len(),
{
    if ks.len() == 0 {
        keys
    } else {
        ensure_keys(ensure_key(keys, ks[0]), ks.subrange(1, ks.len() as int))
    }
}

/// Ensuring one more key at the end is one more ensure.
pub proof fn lemma_ensure_keys_push<K>(keys: Seq<K>, ks: Seq<K>, k: K)
    ensures
        ensure_keys(keys, ks.push(k)) == ensure_key(ensure_keys(keys, ks), k),
    decreases ks.len(),
{
    if ks.len() == 0 {
        assert(ks.push(k)[0] == k);
        let rest = ks.push(k).subrange(1, 1);
        assert(rest.len() == 0);
        assert(ensure_keys(keys, ks.push(k)) == ensure_keys(ensure_key(keys, k), rest));
        assert(ensure_keys(ensure_key(keys, k), rest) == ensure_key(keys, k));
        assert(ensure_keys(keys, ks) == keys);
    } else {
        let keys1 = ensure_key(keys, ks[0]);
        let tail = ks.subrange(1, ks.len() as int);
        assert(ks.push(k)[0] == ks[0]);
        assert(ks.push(k).subrange(1, ks.len() as int + 1) =~= tail.push(k));
        assert(ensure_keys(keys, ks.push(k)) == ensure_keys(keys1, tail.push(k)));
        lemma_ensure_keys_push(keys1, tail, k);
        assert(ensure_keys(keys, ks) == ensure_keys(keys1, tail));
    }
}

/// After ensuring the keys of `ks`, each of them is present.
pub proof fn lemma_ensure_keys_contains<K>(keys: Seq<K>, ks: Seq<K>, x: K)
    requires
        keys.contains(x) || ks.contains(x),
    ensures
        ensure_keys(keys, ks).contains(x),
    decreases ks.len(),
{
    if ks.len() == 0 {
    } else {
        let keys1 = ensure_key(keys, ks[0]);
        let tail = ks.subrange(1, ks.len() as int);
        if keys.contains(x) {
            lemma_ensure_key_monotone(keys, ks[0], x);
            lemma_ensure_keys_contains(keys1, tail, x);
        } else {
            let i = choose|i: int| 0 <= i < ks.len() && ks[i] == x;
            if i == 0 {
                lemma_ensure_key_contains(keys, x);
                lemma_ensure_keys_contains(keys1, tail, x);
            } else {
                assert(tail[i - 1] == x);
                assert(tail.contains(x));
                lemma_ensure_keys_contains(keys1, tail, x);
            }
        }
    }
}

/// The index a cached key is looked up at.
pub open spec fn key_index<K>(keys: Seq<K>, k: K) -> int {
    choose|i: int| 0 <= i < keys.len() && keys[i] == k
}

/// With distinct keys, the index of a present key is the one slot that
/// holds it.
pub proof fn lemma_key_index_unique<K>(keys: Seq<K>, k: K, i: int)
    requires
        distinct_keys(keys),
        0 <= i < keys.len(),
        keys[i] == k,
    ensures
        keys.contains(k),
        key_index(keys, k) == i,
{
    assert(keys.contains(k));
    let c = key_index(keys, k);
    assert(0 <= c < keys.len() && keys[c] == k);
}

/// A present key is looked up inside the cache.
pub proof fn lemma_key_index_in_range<K>(keys: Seq<K>, k: K)
    requires
        keys.contains(k),
    ensures
        0 <= key_index(keys, k) < keys.len(),
        keys[key_index(keys, k)] == k,
{
    let i = choose|i: int| 0 <= i < keys.len() && keys[i] == k;
    assert(0 <= key_index(keys, k) < keys.len() && keys[key_index(keys, k)] == k);
}

} // verus!

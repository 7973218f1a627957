//! Sequences of records read as finite maps and as weighted sums.
//!
//! The ledger stores each kind of record in a vector. Its contracts speak of
//! maps from keys to records, and its invariants of sums over all records of
//! one kind. The functions here give both readings, and the lemmas say how
//! each reading changes when a record is added, replaced or removed.

use vstd::prelude::*;

verus! {

/// No two records of the sequence have the same key.
pub open spec fn distinct<T, K>(s: Seq<T>, key: spec_fn(T) -> K) -> bool {
    forall|i: int, j: int| 0 <= i < s.len() && 0 <= j < s.len() && i != j ==> key(s[i]) != key(s[j])
}

/// Some record of the sequence has the key `k`.
pub open spec fn has_key<T, K>(s: Seq<T>, key: spec_fn(T) -> K, k: K) -> bool {
    exists|i: int| 0 <= i < s.len() && key(s[i]) == k
}

/// A position at which the key `k` stands, where there is one.
pub open spec fn position<T, K>(s: Seq<T>, key: spec_fn(T) -> K, k: K) -> int {
    choose|i: int| 0 <= i < s.len() && key(s[i]) == k
}

/// The map that takes each key of the sequence to a record with that key.
pub open spec fn keyed<T, K>(s: Seq<T>, key: spec_fn(T) -> K) -> Map<K, T> {
    Map::new(|k: K| has_key(s, key, k), |k: K| s[position(s, key, k)])
}

/// The sum of the weights of all records of the sequence.
pub open spec fn total<T>(s: Seq<T>, weight: spec_fn(T) -> nat) -> nat
    decreases s.len(),
{
    if s.len() == 0 {
        0
    } else {
        total(s.drop_last(), weight) + weight(s.last())
    }
}

/// The record at position `i` is the one the map holds under its key.
pub proof fn lemma_keyed_at<T, K>(s: Seq<T>, key: spec_fn(T) -> K, i: int)
    requires
        distinct(s, key),
        0 <= i < s.len(),
    ensures
        keyed(s, key).contains_key(key(s[i])),
        keyed(s, key)[key(s[i])] == s[i],
{
    let k = key(s[i]);
    assert(has_key(s, key, k));
    let p = position(s, key, k);
    assert(0 <= p < s.len() && key(s[p]) == k);
    assert(p == i);
}

/// Appending a record under a fresh key inserts it into the map.
pub proof fn lemma_keyed_push<T, K>(s: Seq<T>, key: spec_fn(T) -> K, v: T)
    requires
        distinct(s, key),
        !keyed(s, key).contains_key(key(v)),
    ensures
        distinct(s.push(v), key),
        keyed(s.push(v), key) == keyed(s, key).insert(key(v), v),
{
    let t = s.push(v);
    assert forall|i: int, j: int| 0 <= i < t.len() && 0 <= j < t.len() && i != j implies key(t[i])
        != key(t[j]) by {
        if i < s.len() {
            assert(has_key(s, key, key(s[i])));
        }
        if j < s.len() {
            assert(has_key(s, key, key(s[j])));
        }
    }
    let m = keyed(s, key).insert(key(v), v);
    assert forall|k: K| keyed(t, key).contains_key(k) <==> m.contains_key(k) by {
        if has_key(t, key, k) {
            let p = position(t, key, k);
            if p < s.len() {
                assert(key(s[p]) == k);
                assert(has_key(s, key, k));
            }
        }
        if has_key(s, key, k) {
            let p = position(s, key, k);
            assert(key(t[p]) == k);
        }
        if k == key(v) {
            assert(key(t[s.len() as int]) == k);
        }
    }
    assert forall|k: K| keyed(t, key).contains_key(k) implies keyed(t, key)[k] == m[k] by {
        let p = position(t, key, k);
        assert(0 <= p < t.len() && key(t[p]) == k);
        lemma_keyed_at(t, key, p);
        if p < s.len() {
            lemma_keyed_at(s, key, p);
        }
    }
    assert(keyed(t, key) =~= m);
}

/// Replacing a record by one with the same key overwrites it in the map.
pub proof fn lemma_keyed_update<T, K>(s: Seq<T>, key: spec_fn(T) -> K, i: int, v: T)
    requires
        distinct(s, key),
        0 <= i < s.len(),
        key(v) == key(s[i]),
    ensures
        distinct(s.update(i, v), key),
        keyed(s.update(i, v), key) == keyed(s, key).insert(key(v), v),
{
    let t = s.update(i, v);
    assert forall|a: int, b: int| 0 <= a < t.len() && 0 <= b < t.len() && a != b implies key(t[a])
        != key(t[b]) by {
        assert(key(t[a]) == key(s[a]));
        assert(key(t[b]) == key(s[b]));
    }
    let m = keyed(s, key).insert(key(v), v);
    assert forall|k: K| keyed(t, key).contains_key(k) <==> m.contains_key(k) by {
        if has_key(t, key, k) {
            let p = position(t, key, k);
            assert(key(s[p]) == k);
            assert(has_key(s, key, k));
        }
        if has_key(s, key, k) {
            let p = position(s, key, k);
            assert(key(t[p]) == k);
        }
        if k == key(v) {
            assert(key(t[i]) == k);
        }
    }
    assert forall|k: K| keyed(t, key).contains_key(k) implies keyed(t, key)[k] == m[k] by {
        let p = position(t, key, k);
        assert(0 <= p < t.len() && key(t[p]) == k);
        lemma_keyed_at(t, key, p);
        lemma_keyed_at(s, key, p);
    }
    assert(keyed(t, key) =~= m);
}

/// Removing the record at position `i` removes its key from the map.
pub proof fn lemma_keyed_remove<T, K>(s: Seq<T>, key: spec_fn(T) -> K, i: int)
    requires
        distinct(s, key),
        0 <= i < s.len(),
    ensures
        distinct(s.remove(i), key),
        keyed(s.remove(i), key) == keyed(s, key).remove(key(s[i])),
{
    let t = s.remove(i);
    assert forall|a: int, b: int| 0 <= a < t.len() && 0 <= b < t.len() && a != b implies key(t[a])
        != key(t[b]) by {
        let a0 = if a < i { a } else { a + 1 };
        let b0 = if b < i { b } else { b + 1 };
        assert(t[a] == s[a0]);
        assert(t[b] == s[b0]);
    }
    let m = keyed(s, key).remove(key(s[i]));
    assert forall|k: K| keyed(t, key).contains_key(k) <==> m.contains_key(k) by {
        if has_key(t, key, k) {
            let p = position(t, key, k);
            let p0 = if p < i { p } else { p + 1 };
            assert(t[p] == s[p0]);
            assert(has_key(s, key, k));
        }
        if has_key(s, key, k) && k != key(s[i]) {
            let p = position(s, key, k);
            let q = if p < i { p } else { p - 1 };
            assert(t[q] == s[p]);
            assert(key(t[q]) == k);
        }
    }
    assert forall|k: K| keyed(t, key).contains_key(k) implies keyed(t, key)[k] == m[k] by {
        let p = position(t, key, k);
        assert(0 <= p < t.len() && key(t[p]) == k);
        lemma_keyed_at(t, key, p);
        let p0 = if p < i { p } else { p + 1 };
        assert(t[p] == s[p0]);
        lemma_keyed_at(s, key, p0);
    }
    assert(keyed(t, key) =~= m);
}

/// Appending a record adds its weight to the sum.
pub proof fn lemma_total_push<T>(s: Seq<T>, weight: spec_fn(T) -> nat, v: T)
    ensures
        total(s.push(v), weight) == total(s, weight) + weight(v),
{
    assert(s.push(v).drop_last() =~= s);
}

/// Replacing a record exchanges its weight in the sum for the new one.
pub proof fn lemma_total_update<T>(s: Seq<T>, weight: spec_fn(T) -> nat, i: int, v: T)
    requires
        0 <= i < s.len(),
    ensures
        total(s.update(i, v), weight) + weight(s[i]) == total(s, weight) + weight(v),
    decreases s.len(),
{
    let t = s.update(i, v);
    if i == s.len() - 1 {
        assert(t.drop_last() =~= s.drop_last());
    } else {
        lemma_total_update(s.drop_last(), weight, i, v);
        assert(t.drop_last() =~= s.drop_last().update(i, v));
    }
}

/// Removing a record takes its weight out of the sum.
pub proof fn lemma_total_remove<T>(s: Seq<T>, weight: spec_fn(T) -> nat, i: int)
    requires
        0 <= i < s.len(),
    ensures
        total(s.remove(i), weight) + weight(s[i]) == total(s, weight),
    decreases s.len(),
{
    let t = s.remove(i);
    if i == s.len() - 1 {
        assert(t =~= s.drop_last());
    } else {
        lemma_total_remove(s.drop_last(), weight, i);
        assert(t.drop_last() =~= s.drop_last().remove(i));
    }
}

/// The weight of one record is at most the sum.
pub proof fn lemma_total_covers<T>(s: Seq<T>, weight: spec_fn(T) -> nat, i: int)
    requires
        0 <= i < s.len(),
    ensures
        weight(s[i]) <= total(s, weight),
    decreases s.len(),
{
    if i < s.len() - 1 {
        lemma_total_covers(s.drop_last(), weight, i);
    }
}

/// The weights of two records at different positions are together at most
/// the sum.
pub proof fn lemma_total_covers_two<T>(s: Seq<T>, weight: spec_fn(T) -> nat, i: int, j: int)
    requires
        0 <= i < s.len(),
        0 <= j < s.len(),
        i != j,
    ensures
        weight(s[i]) + weight(s[j]) <= total(s, weight),
{
    lemma_total_remove(s, weight, i);
    let t = s.remove(i);
    let q = if j < i { j } else { j - 1 };
    assert(t[q] == s[j]);
    lemma_total_covers(t, weight, q);
}

/// Where every record weighs nothing, so does the sequence.
pub proof fn lemma_total_zero<T>(s: Seq<T>, weight: spec_fn(T) -> nat)
    requires
        forall|i: int| 0 <= i < s.len() ==> weight(#[trigger] s[i]) == 0,
    ensures
        total(s, weight) == 0,
    decreases s.len(),
{
    if s.len() > 0 {
        assert(forall|i: int| 0 <= i < s.drop_last().len() ==> s.drop_last()[i] == s[i]);
        lemma_total_zero(s.drop_last(), weight);
    }
}

} // verus!

//! Amounts recorded in a map, read with the zero-default policy (a key without
//! an entry holds zero), and their sum over a list of keys.
use vstd::prelude::*;

verus! {

/// The amount `m` records for `k`, zero without an entry.
pub open spec fn amount_in<K>(m: Map<K, u128>, k: K) -> nat {
    if m.dom().contains(k) {
        m[k] as nat
    } else {
        0
    }
}

/// The sum of the amounts `m` records for the keys listed in `keys`.
pub open spec fn sum_over<K>(keys: Seq<K>, m: Map<K, u128>) -> nat
    decreases keys.len(),
{
    if keys.len() == 0 {
        0
    } else {
        sum_over(keys.drop_last(), m) + amount_in(m, keys.last())
    }
}

proof fn lemma_drop_last_distinct<K>(keys: Seq<K>)
    requires
        keys.len() > 0,
        keys.no_duplicates(),
    ensures
        keys.drop_last().no_duplicates(),
        !keys.drop_last().contains(keys.last()),
        forall|k: K| #[trigger] keys.contains(k) <==> keys.drop_last().contains(k) || k == keys.last(),
{
    let d = keys.drop_last();
    assert forall|i: int, j: int| 0 <= i < d.len() && 0 <= j < d.len() && i != j implies d[i]
        != d[j] by {
        assert(d[i] == keys[i] && d[j] == keys[j]);
    }
    if d.contains(keys.last()) {
        let i = choose|i: int| 0 <= i < d.len() && d[i] == keys.last();
        assert(keys[i] == keys[keys.len() - 1]);
    }
    assert forall|k: K| #[trigger] keys.contains(k) implies d.contains(k) || k == keys.last() by {
        let i = choose|i: int| 0 <= i < keys.len() && keys[i] == k;
        if i < keys.len() - 1 {
            assert(d[i] == k);
        }
    }
    assert forall|k: K| d.contains(k) implies #[trigger] keys.contains(k) by {
        let i = choose|i: int| 0 <= i < d.len() && d[i] == k;
        assert(keys[i] == k);
    }
}

/// Writing `v` for `k` changes the sum by as much as it changes `k`'s amount, when
/// `k` is listed, and leaves it otherwise.
pub proof fn lemma_sum_insert<K>(keys: Seq<K>, m: Map<K, u128>, k: K, v: u128)
    requires
        keys.no_duplicates(),
    ensures
        sum_over(keys, m.insert(k, v)) == sum_over(keys, m) + if keys.contains(k) {
            v - amount_in(m, k)
        } else {
            0
        },
    decreases keys.len(),
{
    if keys.len() > 0 {
        lemma_drop_last_distinct(keys);
        lemma_sum_insert(keys.drop_last(), m, k, v);
    }
}

/// A listed key's amount is at most the sum.
pub proof fn lemma_amount_le_sum<K>(keys: Seq<K>, m: Map<K, u128>, k: K)
    requires
        keys.contains(k),
    ensures
        amount_in(m, k) <= sum_over(keys, m),
    decreases keys.len(),
{
    if keys.last() != k {
        let i = choose|i: int| 0 <= i < keys.len() && keys[i] == k;
        assert(keys.drop_last()[i] == k);
        lemma_amount_le_sum(keys.drop_last(), m, k);
    }
}

} // verus!

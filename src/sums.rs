//! Sums over the transaction records of a ledger.
use vstd::prelude::*;

use vstd::set::fold::{is_fun_commutative, lemma_fold_empty, lemma_fold_insert};

use crate::engine::TxRecord;

verus! {

/// The step that adds the weight of record `k` to a running sum.
pub open spec fn add_weight(txs: Map<u32, TxRecord>, g: spec_fn(TxRecord) -> int) -> spec_fn(
    int,
    u32,
) -> int {
    |acc: int, k: u32| acc + g(txs[k])
}

/// The sum of `g` over every record of `txs`.
pub open spec fn sum_of(txs: Map<u32, TxRecord>, g: spec_fn(TxRecord) -> int) -> int {
    txs.dom().fold(0int, add_weight(txs, g))
}

proof fn lemma_add_weight_commutative(txs: Map<u32, TxRecord>, g: spec_fn(TxRecord) -> int)
    ensures
        is_fun_commutative(add_weight(txs, g)),
{
    let f = add_weight(txs, g);
    assert forall|a1: u32, a2: u32, b: int| #[trigger] f(f(b, a2), a1) == f(f(b, a1), a2) by {}
}

/// Two step functions that agree on the keys of `s` fold `s` alike.
proof fn lemma_fold_agree(
    s: Set<u32>,
    m1: Map<u32, TxRecord>,
    m2: Map<u32, TxRecord>,
    g: spec_fn(TxRecord) -> int,
)
    requires
        s.finite(),
        forall|k: u32| s.contains(k) ==> m1[k] == m2[k],
    ensures
        s.fold(0int, add_weight(m1, g)) == s.fold(0int, add_weight(m2, g)),
    decreases s.len(),
{
    lemma_add_weight_commutative(m1, g);
    lemma_add_weight_commutative(m2, g);
    if s.len() == 0 {
        assert(s =~= Set::empty());
        lemma_fold_empty(0int, add_weight(m1, g));
        lemma_fold_empty(0int, add_weight(m2, g));
    } else {
        let a = s.choose();
        let rest = s.remove(a);
        assert(rest.insert(a) =~= s);
        lemma_fold_agree(rest, m1, m2, g);
        lemma_fold_insert(rest, 0int, add_weight(m1, g), a);
        lemma_fold_insert(rest, 0int, add_weight(m2, g), a);
    }
}

/// The sum over no records is zero.
pub proof fn lemma_sum_empty(g: spec_fn(TxRecord) -> int)
    ensures
        sum_of(Map::<u32, TxRecord>::empty(), g) == 0,
{
    let m = Map::<u32, TxRecord>::empty();
    assert(m.dom() =~= Set::empty());
    lemma_fold_empty(0int, add_weight(m, g));
}

/// Storing `v` under `k` replaces the weight of what `k` held before, if
/// anything, by the weight of `v`.
pub proof fn lemma_sum_insert(txs: Map<u32, TxRecord>, k: u32, v: TxRecord, g: spec_fn(TxRecord) -> int)
    requires
        txs.dom().finite(),
    ensures
        sum_of(txs.insert(k, v), g) == sum_of(txs, g) + g(v) - (if txs.contains_key(k) {
            g(txs[k])
        } else {
            0
        }),
{
    let m2 = txs.insert(k, v);
    let rest = txs.dom().remove(k);
    lemma_add_weight_commutative(txs, g);
    lemma_add_weight_commutative(m2, g);
    assert(m2.dom() =~= rest.insert(k));
    lemma_fold_agree(rest, txs, m2, g);
    lemma_fold_insert(rest, 0int, add_weight(m2, g), k);
    if txs.contains_key(k) {
        assert(txs.dom() =~= rest.insert(k));
        lemma_fold_insert(rest, 0int, add_weight(txs, g), k);
    } else {
        assert(txs.dom() =~= rest);
    }
}

} // verus!

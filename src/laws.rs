//! Properties of the ledger that hold over every state and every sequence
//! of operations.
use vstd::prelude::*;

use crate::engine::{apply_spec, held_of, total_of, ClientAccount, Ledger, TxRecord};
use crate::row::{Transaction, TransactionMod, TransactionRow, TransactionState};

verus! {

/// The ledger reached from an empty one by applying `ops` in order, where a
/// rejected operation changes nothing.
pub open spec fn replay(ops: Seq<TransactionRow>) -> Ledger
    decreases ops.len(),
{
    if ops.len() == 0 {
        Ledger {
            transactions: Map::<u32, TxRecord>::empty(),
            clients: Map::<u16, ClientAccount>::empty(),
        }
    } else {
        let l = replay(ops.drop_last());
        match apply_spec(l, ops.last()) {
            Some(l2) => l2,
            None => l,
        }
    }
}

/// What `op`, once accepted on ledger `l`, adds to the total of client `c`:
/// the amount of a creation for `c`, or minus the amount of a transaction
/// of `c` that it charges back.
pub open spec fn total_change(l: Ledger, op: TransactionRow, c: u16) -> int {
    match op {
        TransactionRow::New(t) => if t.client == c {
            t.amount@
        } else {
            0
        },
        TransactionRow::Mod(m) => if m.state == TransactionState::Chargeback && m.client == c {
            -l.transactions[m.tx].amount
        } else {
            0
        },
    }
}

/// The sum of the amounts of the accepted deposits and withdrawals of
/// client `c` in `ops`, less the amounts of the accepted chargebacks of its
/// transactions.
pub open spec fn accepted_net(ops: Seq<TransactionRow>, c: u16) -> int
    decreases ops.len(),
{
    if ops.len() == 0 {
        0
    } else {
        let prev = ops.drop_last();
        let l = replay(prev);
        accepted_net(prev, c) + if apply_spec(l, ops.last()) is Some {
            total_change(l, ops.last(), c)
        } else {
            0
        }
    }
}

/// Applying one more operation extends the replay by one step.
pub proof fn lemma_replay_push(ops: Seq<TransactionRow>, op: TransactionRow)
    ensures
        replay(ops.push(op)) == match apply_spec(replay(ops), op) {
            Some(l2) => l2,
            None => replay(ops),
        },
{
    assert(ops.push(op).drop_last() =~= ops);
}

/// After any sequence of operations, for clients interleaved in any order,
/// each client's total is exactly the sum of its accepted deposits and
/// withdrawals less its accepted chargebacks.
pub proof fn lemma_total_is_accepted_net(ops: Seq<TransactionRow>, c: u16)
    ensures
        total_of(replay(ops), c) == accepted_net(ops, c),
    decreases ops.len(),
{
    if ops.len() > 0 {
        lemma_total_is_accepted_net(ops.drop_last(), c);
    }
}

/// A transaction id, once created, cannot be created again: a second
/// creation with that id is rejected, so the ledger and the existing record
/// stay as they were.
pub proof fn lemma_duplicate_id_rejected(l: Ledger, t: Transaction)
    requires
        l.transactions.contains_key(t.tx),
    ensures
        apply_spec(l, TransactionRow::New(t)) is None,
{
}

/// Applying the same dispute or resolve twice in a row adjusts the held
/// funds once: the first moves them by the transaction's amount, and the
/// second is rejected.
pub proof fn lemma_repeat_is_rejected(l: Ledger, m: TransactionMod)
    requires
        m.state == TransactionState::Disputed || m.state == TransactionState::Resolved,
        apply_spec(l, TransactionRow::Mod(m)) is Some,
    ensures
        ({
            let l1 = apply_spec(l, TransactionRow::Mod(m))->0;
            let amount = l.transactions[m.tx].amount;
            &&& held_of(l1, m.client) == held_of(l, m.client) + (if m.state
                == TransactionState::Disputed {
                amount
            } else {
                -amount
            })
            &&& apply_spec(l1, TransactionRow::Mod(m)) is None
        }),
{
}

/// A charged-back transaction stays charged back: no later operation that
/// names it is applied, and no operation changes its record.
pub proof fn lemma_chargeback_is_final(l: Ledger, id: u32, op: TransactionRow)
    requires
        l.transactions.contains_key(id),
        l.transactions[id].state == TransactionState::Chargeback,
    ensures
        op matches TransactionRow::Mod(m) && m.tx == id ==> apply_spec(l, op) is None,
        apply_spec(l, op) matches Some(l2) ==> l2.transactions.contains_key(id)
            && l2.transactions[id] == l.transactions[id],
{
}

/// An applied chargeback locks its client.
pub proof fn lemma_chargeback_locks(l: Ledger, m: TransactionMod)
    requires
        m.state == TransactionState::Chargeback,
        apply_spec(l, TransactionRow::Mod(m)) is Some,
    ensures
        apply_spec(l, TransactionRow::Mod(m))->0.clients[m.client].locked,
{
}

/// A locked client stays locked whatever is applied next.
pub proof fn lemma_locked_stays_locked(l: Ledger, c: u16, op: TransactionRow)
    requires
        l.clients.contains_key(c),
        l.clients[c].locked,
    ensures
        apply_spec(l, op) matches Some(l2) ==> l2.clients.contains_key(c) && l2.clients[c].locked,
{
}

/// A locked client cannot withdraw, whatever its available funds.
pub proof fn lemma_locked_rejects_withdrawal(l: Ledger, t: Transaction)
    requires
        l.clients.contains_key(t.client),
        l.clients[t.client].locked,
        t.amount@ < 0,
    ensures
        apply_spec(l, TransactionRow::New(t)) is None,
{
}

/// A withdrawal for a client without an account is rejected, so no account
/// is created for it.
pub proof fn lemma_withdrawal_needs_client(l: Ledger, t: Transaction)
    requires
        !l.clients.contains_key(t.client),
        t.amount@ < 0,
    ensures
        apply_spec(l, TransactionRow::New(t)) is None,
{
}

/// A deposit followed at once by a dispute of it and a resolve of it leaves
/// the client's total, held funds and lock exactly as they were before the
/// dispute: the resolve is always applied after such a dispute.
pub proof fn lemma_dispute_resolve_round_trip(l: Ledger, t: Transaction)
    requires
        apply_spec(l, TransactionRow::New(t)) is Some,
        apply_spec(
            apply_spec(l, TransactionRow::New(t))->0,
            TransactionRow::Mod(
                TransactionMod { tx: t.tx, client: t.client, state: TransactionState::Disputed },
            ),
        ) is Some,
    ensures
        ({
            let l1 = apply_spec(l, TransactionRow::New(t))->0;
            let l2 = apply_spec(
                l1,
                TransactionRow::Mod(
                    TransactionMod {
                        tx: t.tx,
                        client: t.client,
                        state: TransactionState::Disputed,
                    },
                ),
            )->0;
            let l3 = apply_spec(
                l2,
                TransactionRow::Mod(
                    TransactionMod {
                        tx: t.tx,
                        client: t.client,
                        state: TransactionState::Resolved,
                    },
                ),
            );
            &&& l3 is Some
            &&& l3->0.clients[t.client] == l1.clients[t.client]
        }),
{
}

} // verus!

//! The ledger engine: applies validated operations to transaction records
//! and client accounts, all or nothing.
use std::collections::HashMap;

use vstd::prelude::*;
use vstd::std_specs::hash::spec_values_iter;
use vstd::std_specs::iter::IteratorSpec;

use crate::amount::{in_range, Amount, MAX_UNITS};
use crate::row::{Transaction, TransactionRow, TransactionState};
use crate::sums::{lemma_sum_empty, lemma_sum_insert, sum_of};

verus! {

broadcast use vstd::std_specs::hash::group_hash_axioms;

/// A client account. The available balance is `total - held`; it is never
/// stored.
#[derive(Clone, Copy, Debug, PartialEq, Eq, Structural)]
pub struct Client {
    pub client: u16,
    pub total: Amount,
    pub held: Amount,
    pub locked: bool,
}

/// What a client account holds, as exact numbers of ten-thousandths.
pub struct ClientAccount {
    pub total: int,
    pub held: int,
    pub locked: bool,
}

/// What a transaction record holds, as exact numbers of ten-thousandths.
pub struct TxRecord {
    pub client: u16,
    pub amount: int,
    pub state: TransactionState,
}

/// The whole ledger: transaction records by id and client accounts by id.
pub struct Ledger {
    pub transactions: Map<u32, TxRecord>,
    pub clients: Map<u16, ClientAccount>,
}

impl View for Client {
    type V = ClientAccount;

    open spec fn view(&self) -> ClientAccount {
        ClientAccount { total: self.total@, held: self.held@, locked: self.locked }
    }
}

impl View for Transaction {
    type V = TxRecord;

    open spec fn view(&self) -> TxRecord {
        TxRecord { client: self.client, amount: self.amount@, state: self.state }
    }
}

/// The outcome of a creation of transaction `id` for `client` with a signed
/// `amount`, or `None` when it is rejected.
pub open spec fn create_spec(l: Ledger, id: u32, client: u16, amount: int) -> Option<Ledger> {
    let rec = TxRecord { client, amount, state: TransactionState::Resolved };
    if l.transactions.contains_key(id) {
        None
    } else if !l.clients.contains_key(client) {
        if amount < 0 {
            None
        } else {
            Some(
                Ledger {
                    transactions: l.transactions.insert(id, rec),
                    clients: l.clients.insert(
                        client,
                        ClientAccount { total: amount, held: 0, locked: false },
                    ),
                },
            )
        }
    } else {
        let c = l.clients[client];
        let new_available = c.total - c.held + amount;
        let new_total = c.total + amount;
        if (c.locked && amount < 0) || !in_range(new_available) || new_available < 0 || !in_range(new_total) || new_total < 0 {
            None
        } else {
            Some(
                Ledger {
                    transactions: l.transactions.insert(id, rec),
                    clients: l.clients.insert(
                        client,
                        ClientAccount { total: new_total, held: c.held, locked: c.locked },
                    ),
                },
            )
        }
    }
}

/// The outcome of a request from `client` to move transaction `id` to
/// state `target`, or `None` when it is rejected.
pub open spec fn modify_spec(l: Ledger, id: u32, client: u16, target: TransactionState) -> Option<
    Ledger,
> {
    if !l.transactions.contains_key(id) || l.transactions[id].client != client
        || !l.clients.contains_key(client) {
        None
    } else {
        let t = l.transactions[id];
        let c = l.clients[client];
        let moved = l.transactions.insert(
            id,
            TxRecord { client: t.client, amount: t.amount, state: target },
        );
        match target {
            TransactionState::Disputed => {
                if t.state != TransactionState::Resolved || !in_range(c.held + t.amount) {
                    None
                } else {
                    Some(
                        Ledger {
                            transactions: moved,
                            clients: l.clients.insert(
                                client,
                                ClientAccount {
                                    total: c.total,
                                    held: c.held + t.amount,
                                    locked: c.locked,
                                },
                            ),
                        },
                    )
                }
            },
            TransactionState::Resolved => {
                if t.state != TransactionState::Disputed || !in_range(c.held - t.amount) {
                    None
                } else {
                    Some(
                        Ledger {
                            transactions: moved,
                            clients: l.clients.insert(
                                client,
                                ClientAccount {
                                    total: c.total,
                                    held: c.held - t.amount,
                                    locked: c.locked,
                                },
                            ),
                        },
                    )
                }
            },
            TransactionState::Chargeback => {
                if t.state != TransactionState::Disputed || !in_range(c.held - t.amount)
                    || !in_range(c.total - t.amount) {
                    None
                } else {
                    Some(
                        Ledger {
                            transactions: moved,
                            clients: l.clients.insert(
                                client,
                                ClientAccount {
                                    total: c.total - t.amount,
                                    held: c.held - t.amount,
                                    locked: true,
                                },
                            ),
                        },
                    )
                }
            },
        }
    }
}

/// The outcome of applying `op` to the ledger `l`, or `None` when it is
/// rejected and nothing changes.
pub open spec fn apply_spec(l: Ledger, op: TransactionRow) -> Option<Ledger> {
    match op {
        TransactionRow::New(t) => create_spec(l, t.tx, t.client, t.amount@),
        TransactionRow::Mod(m) => modify_spec(l, m.tx, m.client, m.state),
    }
}

/// What a record adds to the total of client `c`: its amount, unless it
/// belongs to another client or was charged back.
pub open spec fn net_weight(c: u16) -> spec_fn(TxRecord) -> int {
    |t: TxRecord|
        if t.client == c && t.state != TransactionState::Chargeback {
            t.amount
        } else {
            0
        }
}

/// What a record adds to the held funds of client `c`: its amount, if it
/// belongs to `c` and is under dispute.
pub open spec fn held_weight(c: u16) -> spec_fn(TxRecord) -> int {
    |t: TxRecord|
        if t.client == c && t.state == TransactionState::Disputed {
            t.amount
        } else {
            0
        }
}

/// The total of client `c`, zero for a client without an account.
pub open spec fn total_of(l: Ledger, c: u16) -> int {
    if l.clients.contains_key(c) {
        l.clients[c].total
    } else {
        0
    }
}

/// The held funds of client `c`, zero for a client without an account.
pub open spec fn held_of(l: Ledger, c: u16) -> int {
    if l.clients.contains_key(c) {
        l.clients[c].held
    } else {
        0
    }
}

/// Every record belongs to an existing client, each client's total is the
/// sum of its amounts that were not charged back, and its held funds are
/// the sum of its amounts under dispute.
pub open spec fn balanced(l: Ledger) -> bool {
    &&& l.transactions.dom().finite()
    &&& forall|k: u32| #[trigger]
        l.transactions.contains_key(k) ==> l.clients.contains_key(l.transactions[k].client)
    &&& forall|c: u16| #[trigger] total_of(l, c) == sum_of(l.transactions, net_weight(c))
    &&& forall|c: u16| #[trigger] held_of(l, c) == sum_of(l.transactions, held_weight(c))
}

/// The empty ledger is balanced.
pub proof fn lemma_empty_balanced(l: Ledger)
    requires
        l.transactions == Map::<u32, TxRecord>::empty(),
        l.clients == Map::<u16, ClientAccount>::empty(),
    ensures
        balanced(l),
{
    assert forall|c: u16| #[trigger] total_of(l, c) == sum_of(l.transactions, net_weight(c)) by {
        lemma_sum_empty(net_weight(c));
    }
    assert forall|c: u16| #[trigger] held_of(l, c) == sum_of(l.transactions, held_weight(c)) by {
        lemma_sum_empty(held_weight(c));
    }
}

/// Whatever operations are applied, in whatever order and for whichever
/// clients, each client's total stays the exact sum of its accepted
/// deposits and withdrawals less those charged back, and its held funds
/// the sum of those under dispute.
pub proof fn lemma_apply_keeps_balanced(l: Ledger, op: TransactionRow)
    requires
        balanced(l),
        apply_spec(l, op) is Some,
    ensures
        balanced(apply_spec(l, op)->0),
{
    let l2 = apply_spec(l, op)->0;
    let (id, rec) = match op {
        TransactionRow::New(t) => (
            t.tx,
            TxRecord { client: t.client, amount: t.amount@, state: TransactionState::Resolved },
        ),
        TransactionRow::Mod(m) => (
            m.tx,
            TxRecord {
                client: l.transactions[m.tx].client,
                amount: l.transactions[m.tx].amount,
                state: m.state,
            },
        ),
    };
    assert(l2.transactions == l.transactions.insert(id, rec));
    assert forall|c: u16| #[trigger] total_of(l2, c) == sum_of(l2.transactions, net_weight(c)) by {
        lemma_sum_insert(l.transactions, id, rec, net_weight(c));
        assert(total_of(l, c) == sum_of(l.transactions, net_weight(c)));
    }
    assert forall|c: u16| #[trigger] held_of(l2, c) == sum_of(l2.transactions, held_weight(c)) by {
        lemma_sum_insert(l.transactions, id, rec, held_weight(c));
        assert(held_of(l, c) == sum_of(l.transactions, held_weight(c)));
    }
    assert forall|k: u32| #[trigger]
        l2.transactions.contains_key(k) implies l2.clients.contains_key(
        l2.transactions[k].client,
    ) by {
        if k != id {
            assert(l.transactions.contains_key(k));
        }
    }
}

impl Client {
    /// A fresh, unlocked account holding `total` with nothing held.
    pub fn new(client: u16, total: Amount) -> (r: Client)
        ensures
            r.client == client,
            r@ == (ClientAccount { total: total@, held: 0, locked: false }),
    {
        Client { client, total, held: Amount::zero(), locked: false }
    }

    /// The available balance, `total - held`, in ten-thousandths. It is
    /// exact whatever the two hold: its magnitude is at most twice
    /// [`MAX_UNITS`].
    pub fn available(&self) -> (r: i128)
        ensures
            r == self@.total - self@.held,
            -2 * MAX_UNITS <= r <= 2 * MAX_UNITS,
    {
        self.total.units() - self.held.units()
    }
}

/// Owns every transaction record and client account.
#[derive(Debug)]
pub struct TransactionEngine {
    transactions: HashMap<u32, Transaction>,
    clients: HashMap<u16, Client>,
}

impl View for TransactionEngine {
    type V = Ledger;

    closed spec fn view(&self) -> Ledger {
        Ledger {
            transactions: self.transactions@.map_values(|t: Transaction| t@),
            clients: self.clients@.map_values(|c: Client| c@),
        }
    }
}

impl Default for TransactionEngine {
    /// An engine with no transactions and no clients.
    fn default() -> (r: TransactionEngine)
        ensures
            r.wf(),
            balanced(r@),
            r@.transactions == Map::<u32, TxRecord>::empty(),
            r@.clients == Map::<u16, ClientAccount>::empty(),
    {
        TransactionEngine::new()
    }
}

impl TransactionEngine {
    /// Records are stored under their own ids, and the ledger is balanced.
    pub closed spec fn wf(&self) -> bool {
        &&& self.keyed()
        &&& balanced(self@)
    }

    /// Records and accounts are stored under their own ids, and every
    /// transaction's client exists.
    closed spec fn keyed(&self) -> bool {
        &&& forall|k: u32| #[trigger]
            self.transactions@.contains_key(k) ==> self.transactions@[k].tx == k
                && self.clients@.contains_key(self.transactions@[k].client)
        &&& forall|k: u16| #[trigger]
            self.clients@.contains_key(k) ==> self.clients@[k].client == k
    }

    /// An engine with no transactions and no clients.
    pub fn new() -> (r: TransactionEngine)
        ensures
            r.wf(),
            balanced(r@),
            r@.transactions == Map::<u32, TxRecord>::empty(),
            r@.clients == Map::<u16, ClientAccount>::empty(),
    {
        let r = TransactionEngine { transactions: HashMap::new(), clients: HashMap::new() };
        assert(r@.transactions =~= Map::<u32, TxRecord>::empty());
        assert(r@.clients =~= Map::<u16, ClientAccount>::empty());
        proof {
            lemma_empty_balanced(r@);
        }
        r
    }

    /// Every client account, once each, in no particular order.
    pub fn clients(&self) -> (r: Vec<Client>)
        requires
            self.wf(),
        ensures
            r@.len() == self@.clients.dom().len(),
            forall|i: int|
                0 <= i < r@.len() ==> #[trigger] self@.clients.contains_key(r@[i].client)
                    && self@.clients[r@[i].client] == r@[i]@,
            forall|c: u16|
                self@.clients.contains_key(c) ==> exists|i: int|
                    0 <= i < r@.len() && #[trigger] r@[i].client == c,
    {
        let ghost all = spec_values_iter(&self.clients).remaining().unref();
        let mut out: Vec<Client> = Vec::new();
        for c in it: self.clients.values()
            invariant
                out@.len() == it.index(),
                all == it.seq().unref(),
                forall|i: int| 0 <= i < it.index() ==> out@[i] == *it.seq()[i],
        {
            out.push(*c);
        }
        proof {
            assert(out@ =~= all);
            assert(self@.clients.dom() =~= self.clients@.dom());
            assert(all.len() == self.clients@.dom().len());
            assert(all.to_set() == self.clients@.values());
            assert forall|i: int| 0 <= i < out@.len() implies #[trigger] self@.clients.contains_key(
                out@[i].client,
            ) && self@.clients[out@[i].client] == out@[i]@ by {
                assert(all.to_set().contains(all[i]));
                let k = choose|k: u16| #[trigger]
                    self.clients@.contains_key(k) && self.clients@[k] == all[i];
            }
            assert forall|c: u16| self@.clients.contains_key(c) implies exists|i: int|
                0 <= i < out@.len() && #[trigger] out@[i].client == c by {
                assert(self.clients@.values().contains(self.clients@[c]));
                let i = choose|i: int| 0 <= i < all.len() && all[i] == self.clients@[c];
                assert(out@[i].client == c);
            }
        }
        out
    }

    /// Applies one operation. Returns whether it was applied; when it was
    /// not, nothing changed.
    pub fn apply(&mut self, tx: TransactionRow) -> (r: bool)
        requires
            old(self).wf(),
        ensures
            final(self).wf(),
            balanced(final(self)@),
            r == apply_spec(old(self)@, tx) is Some,
            r ==> final(self)@ == apply_spec(old(self)@, tx)->0,
            !r ==> final(self)@ == old(self)@,
    {
        let r = match tx {
            TransactionRow::New(t) => self.create(t),
            TransactionRow::Mod(m) => self.modify(m.tx, m.client, m.state),
        };
        proof {
            if r {
                lemma_apply_keeps_balanced(old(self)@, tx);
            }
        }
        r
    }

    fn create(&mut self, t: Transaction) -> (r: bool)
        requires
            old(self).keyed(),
        ensures
            final(self).keyed(),
            r == create_spec(old(self)@, t.tx, t.client, t.amount@) is Some,
            r ==> final(self)@ == create_spec(old(self)@, t.tx, t.client, t.amount@)->0,
            !r ==> final(self)@ == old(self)@,
    {
        if self.transactions.contains_key(&t.tx) {
            return false;
        }
        let amount = t.amount.units();
        let rec = Transaction {
            tx: t.tx,
            client: t.client,
            amount: t.amount,
            state: TransactionState::Resolved,
        };
        let ghost l = self@;
        match self.clients.get(&t.client) {
            None => {
                if amount < 0 {
                    return false;
                }
                self.clients.insert(t.client, Client::new(t.client, t.amount));
            },
            Some(found) => {
                let c: Client = *found;
                if c.locked && amount < 0 {
                    return false;
                }
                let new_available = c.available() + amount;
                if new_available < 0 || new_available > MAX_UNITS {
                    return false;
                }
                match c.total.checked_add(&t.amount) {
                    None => {
                        return false;
                    },
                    Some(new_total) => {
                        if new_total.is_negative() {
                            return false;
                        }
                        self.clients.insert(
                            t.client,
                            Client { client: c.client, total: new_total, held: c.held, locked: c.locked },
                        );
                    },
                }
            },
        }
        self.transactions.insert(t.tx, rec);
        proof {
            let l2 = create_spec(l, t.tx, t.client, t.amount@)->0;
            assert(self@.transactions =~= l2.transactions);
            assert(self@.clients =~= l2.clients);
        }
        true
    }

    fn modify(&mut self, id: u32, client: u16, target: TransactionState) -> (r: bool)
        requires
            old(self).keyed(),
        ensures
            final(self).keyed(),
            r == modify_spec(old(self)@, id, client, target) is Some,
            r ==> final(self)@ == modify_spec(old(self)@, id, client, target)->0,
            !r ==> final(self)@ == old(self)@,
    {
        let ghost l = self@;
        let t: Transaction = match self.transactions.get(&id) {
            None => {
                return false;
            },
            Some(found) => *found,
        };
        if t.client != client {
            return false;
        }
        let c: Client = match self.clients.get(&client) {
            None => {
                return false;
            },
            Some(found) => *found,
        };
        let updated = match target {
            TransactionState::Disputed => {
                if t.state != TransactionState::Resolved {
                    return false;
                }
                match c.held.checked_add(&t.amount) {
                    None => {
                        return false;
                    },
                    Some(held) => Client { client: c.client, total: c.total, held, locked: c.locked },
                }
            },
            TransactionState::Resolved => {
                if t.state != TransactionState::Disputed {
                    return false;
                }
                match c.held.checked_sub(&t.amount) {
                    None => {
                        return false;
                    },
                    Some(held) => Client { client: c.client, total: c.total, held, locked: c.locked },
                }
            },
            TransactionState::Chargeback => {
                if t.state != TransactionState::Disputed {
                    return false;
                }
                match (c.held.checked_sub(&t.amount), c.total.checked_sub(&t.amount)) {
                    (Some(held), Some(total)) => Client { client: c.client, total, held, locked: true },
                    _ => {
                        return false;
                    },
                }
            },
        };
        self.clients.insert(client, updated);
        self.transactions.insert(
            id,
            Transaction { tx: t.tx, client: t.client, amount: t.amount, state: target },
        );
        proof {
            let l2 = modify_spec(l, id, client, target)->0;
            assert(self@.transactions =~= l2.transactions);
            assert(self@.clients =~= l2.clients);
        }
        true
    }
}

} // verus!

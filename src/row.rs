//! Typed ledger operations, and the normaliser that turns a raw input row
//! into one of them or rejects it.
use vstd::prelude::*;
use vstd::string::StrSliceExecFns;

use crate::amount::{in_range, Amount, DECIMAL_PLACES, MAX_UNITS};

verus! {

/// Lifecycle state of a recorded transaction.
#[derive(Clone, Copy, Debug, PartialEq, Eq, Structural)]
pub enum TransactionState {
    /// The initial state, and the state after a dispute is resolved.
    Resolved,
    /// Under dispute: the amount is held.
    Disputed,
    /// Reversed after a dispute; final.
    Chargeback,
}

/// A deposit (positive amount) or a withdrawal (negative amount).
#[derive(Clone, Copy, Debug, PartialEq, Eq, Structural)]
pub struct Transaction {
    pub tx: u32,
    pub client: u16,
    pub amount: Amount,
    pub state: TransactionState,
}

/// A request to move an existing transaction to another state.
#[derive(Clone, Copy, Debug, PartialEq, Eq, Structural)]
pub struct TransactionMod {
    pub tx: u32,
    pub client: u16,
    pub state: TransactionState,
}

/// One validated operation for the engine.
#[derive(Clone, Copy, Debug, PartialEq, Eq, Structural)]
pub enum TransactionRow {
    /// Create a transaction.
    New(Transaction),
    /// Change the state of an existing transaction.
    Mod(TransactionMod),
}

/// The type tag of a raw input row.
#[derive(Clone, Copy, Debug, PartialEq, Eq, Structural)]
pub enum RawTransactionType {
    Deposit,
    Withdrawal,
    Dispute,
    Resolve,
    Chargeback,
}

/// A decimal number as read from input: `mantissa * 10^-scale`.
#[derive(Clone, Copy, Debug, PartialEq, Eq, Structural)]
pub struct RawAmount {
    pub mantissa: i128,
    pub scale: u32,
}

/// One input row before validation.
#[derive(Clone, Copy, Debug, PartialEq, Eq, Structural)]
pub struct RawTransactionRow {
    pub kind: RawTransactionType,
    pub client: u16,
    pub tx: u32,
    pub amount: Option<RawAmount>,
}

/// Why a raw row was not turned into an operation.
#[derive(Clone, Copy, Debug, PartialEq, Eq, Structural)]
pub enum RowRejection {
    /// A deposit or withdrawal without a positive amount of at most four
    /// decimal places that fits the ledger's range.
    MissingOrInvalidAmount,
    /// A dispute, resolve or chargeback that carries an amount.
    UnexpectedAmount,
}

pub open spec fn pow10(n: nat) -> int
    decreases n,
{
    if n == 0 {
        1
    } else {
        10 * pow10((n - 1) as nat)
    }
}

/// The amount of a deposit or withdrawal row in ten-thousandths, when it is
/// present, strictly positive, has at most four decimal places and fits.
pub open spec fn accepted_units(a: Option<RawAmount>) -> Option<int> {
    match a {
        Some(d) => {
            let u = d.mantissa * pow10((DECIMAL_PLACES - d.scale) as nat);
            if d.scale <= DECIMAL_PLACES && d.mantissa > 0 && in_range(u) {
                Some(u)
            } else {
                None
            }
        },
        None => None,
    }
}

/// The state that a modifier row asks for.
pub open spec fn target_state(kind: RawTransactionType) -> TransactionState {
    match kind {
        RawTransactionType::Resolve => TransactionState::Resolved,
        RawTransactionType::Chargeback => TransactionState::Chargeback,
        _ => TransactionState::Disputed,
    }
}

pub open spec fn is_creation(kind: RawTransactionType) -> bool {
    kind == RawTransactionType::Deposit || kind == RawTransactionType::Withdrawal
}

/// Whether input character `c` is the lowercase letter `lower` or its
/// uppercase form.
pub open spec fn same_letter(c: char, lower: char) -> bool {
    c == lower || (c as u32) + 32 == (lower as u32)
}

/// Whether `s` spells the lowercase word `word`, ignoring ASCII case.
pub open spec fn spells(s: Seq<char>, word: Seq<char>) -> bool {
    s.len() == word.len() && forall|i: int| 0 <= i < s.len() ==> same_letter(s[i], word[i])
}

/// The row type named by a tag, ignoring ASCII case.
pub open spec fn tag_kind(s: Seq<char>) -> Option<RawTransactionType> {
    if spells(s, seq!['d', 'e', 'p', 'o', 's', 'i', 't']) {
        Some(RawTransactionType::Deposit)
    } else if spells(s, seq!['w', 'i', 't', 'h', 'd', 'r', 'a', 'w', 'a', 'l']) {
        Some(RawTransactionType::Withdrawal)
    } else if spells(s, seq!['d', 'i', 's', 'p', 'u', 't', 'e']) {
        Some(RawTransactionType::Dispute)
    } else if spells(s, seq!['r', 'e', 's', 'o', 'l', 'v', 'e']) {
        Some(RawTransactionType::Resolve)
    } else if spells(s, seq!['c', 'h', 'a', 'r', 'g', 'e', 'b', 'a', 'c', 'k']) {
        Some(RawTransactionType::Chargeback)
    } else {
        None
    }
}

fn spells_word(tag: &str, word: &str) -> (r: bool)
    ensures
        r == spells(tag@, word@),
{
    let n = tag.unicode_len();
    if n != word.unicode_len() {
        return false;
    }
    let mut i: usize = 0;
    while i < n
        invariant
            n == tag@.len(),
            n == word@.len(),
            i <= n,
            forall|j: int| 0 <= j < i ==> same_letter(tag@[j], word@[j]),
        decreases n - i,
    {
        let c = tag.get_char(i);
        let w = word.get_char(i);
        if !(c == w || (c as u32) + 32 == (w as u32)) {
            return false;
        }
        i = i + 1;
    }
    true
}

impl RawTransactionType {
    /// The row type that `tag` names, in any ASCII case.
    pub fn from_tag(tag: &str) -> (r: Option<RawTransactionType>)
        ensures
            r == tag_kind(tag@),
    {
        proof {
            reveal_strlit("deposit");
            reveal_strlit("withdrawal");
            reveal_strlit("dispute");
            reveal_strlit("resolve");
            reveal_strlit("chargeback");
            assert("deposit"@ =~= seq!['d', 'e', 'p', 'o', 's', 'i', 't']);
            assert("withdrawal"@ =~= seq!['w', 'i', 't', 'h', 'd', 'r', 'a', 'w', 'a', 'l']);
            assert("dispute"@ =~= seq!['d', 'i', 's', 'p', 'u', 't', 'e']);
            assert("resolve"@ =~= seq!['r', 'e', 's', 'o', 'l', 'v', 'e']);
            assert("chargeback"@ =~= seq!['c', 'h', 'a', 'r', 'g', 'e', 'b', 'a', 'c', 'k']);
        }
        if spells_word(tag, "deposit") {
            Some(RawTransactionType::Deposit)
        } else if spells_word(tag, "withdrawal") {
            Some(RawTransactionType::Withdrawal)
        } else if spells_word(tag, "dispute") {
            Some(RawTransactionType::Dispute)
        } else if spells_word(tag, "resolve") {
            Some(RawTransactionType::Resolve)
        } else if spells_word(tag, "chargeback") {
            Some(RawTransactionType::Chargeback)
        } else {
            None
        }
    }
}

/// `10^(4 - scale)`.
fn unit_factor(scale: u32) -> (r: i128)
    requires
        scale <= DECIMAL_PLACES,
    ensures
        r == pow10((DECIMAL_PLACES - scale) as nat),
        1 <= r <= 10000,
{
    reveal_with_fuel(pow10, 5);
    if scale == 0 {
        10000
    } else if scale == 1 {
        1000
    } else if scale == 2 {
        100
    } else if scale == 3 {
        10
    } else {
        1
    }
}

/// The validated amount of a deposit or withdrawal row.
fn accept_amount(a: Option<RawAmount>) -> (r: Option<Amount>)
    ensures
        r is Some <==> accepted_units(a) is Some,
        r matches Some(v) ==> v@ == accepted_units(a)->0,
{
    match a {
        None => None,
        Some(d) => {
            if d.scale > DECIMAL_PLACES || d.mantissa <= 0 || d.mantissa > MAX_UNITS {
                proof {
                    if d.scale <= DECIMAL_PLACES && d.mantissa > MAX_UNITS {
                        let f = pow10((DECIMAL_PLACES - d.scale) as nat);
                        reveal_with_fuel(pow10, 5);
                        assert(f >= 1);
                        assert(d.mantissa * f >= d.mantissa) by (nonlinear_arith)
                            requires
                                f >= 1,
                                d.mantissa > 0,
                        ;
                    }
                }
                None
            } else {
                let f = unit_factor(d.scale);
                assert(d.mantissa * f <= MAX_UNITS * 10000) by (nonlinear_arith)
                    requires
                        0 < d.mantissa <= MAX_UNITS,
                        1 <= f <= 10000,
                ;
                assert(d.mantissa * f > 0) by (nonlinear_arith)
                    requires
                        0 < d.mantissa,
                        1 <= f,
                ;
                Amount::from_units(d.mantissa * f)
            }
        },
    }
}

impl RawTransactionRow {
    /// Validates the row. A deposit or withdrawal needs an accepted amount
    /// (see [`accepted_units`]); it becomes a creation in state `Resolved`,
    /// with the amount negated for a withdrawal. A dispute, resolve or
    /// chargeback must carry no amount; it becomes a request for the
    /// disputed, resolved or charged-back state.
    pub fn try_into_row(&self) -> (r: Result<TransactionRow, RowRejection>)
        ensures
            is_creation(self.kind) ==> match accepted_units(self.amount) {
                Some(u) => r matches Ok(TransactionRow::New(t)) && t.tx == self.tx && t.client
                    == self.client && t.state == TransactionState::Resolved && t.amount@ == (
                if self.kind == RawTransactionType::Deposit {
                    u
                } else {
                    -u
                }),
                None => r == Err::<TransactionRow, RowRejection>(
                    RowRejection::MissingOrInvalidAmount,
                ),
            },
            !is_creation(self.kind) ==> r == if self.amount is Some {
                Err(RowRejection::UnexpectedAmount)
            } else {
                Ok(
                    TransactionRow::Mod(
                        TransactionMod {
                            tx: self.tx,
                            client: self.client,
                            state: target_state(self.kind),
                        },
                    ),
                )
            },
    {
        match self.kind {
            RawTransactionType::Deposit | RawTransactionType::Withdrawal => {
                match accept_amount(self.amount) {
                    None => Err(RowRejection::MissingOrInvalidAmount),
                    Some(a) => {
                        let amount = if self.kind == RawTransactionType::Withdrawal {
                            a.negate()
                        } else {
                            a
                        };
                        Ok(
                            TransactionRow::New(
                                Transaction {
                                    tx: self.tx,
                                    client: self.client,
                                    amount,
                                    state: TransactionState::Resolved,
                                },
                            ),
                        )
                    },
                }
            },
            _ => {
                if self.amount.is_some() {
                    Err(RowRejection::UnexpectedAmount)
                } else {
                    let state = match self.kind {
                        RawTransactionType::Resolve => TransactionState::Resolved,
                        RawTransactionType::Chargeback => TransactionState::Chargeback,
                        _ => TransactionState::Disputed,
                    };
                    Ok(TransactionRow::Mod(TransactionMod { tx: self.tx, client: self.client, state }))
                }
            },
        }
    }
}

} // verus!

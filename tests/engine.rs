use std::str::FromStr;

use rust_decimal::Decimal;
use tx_ledger::{
    Amount, Client, RawAmount, RawTransactionRow, RawTransactionType, Transaction,
    TransactionEngine, TransactionMod, TransactionRow, TransactionState,
};

fn raw(kind: RawTransactionType, client: u16, tx: u32, amount: Option<&str>) -> RawTransactionRow {
    RawTransactionRow {
        kind,
        client,
        tx,
        amount: amount.map(|s| RawAmount::from_decimal(&Decimal::from_str(s).unwrap())),
    }
}

fn deposit(client: u16, tx: u32, amount: &str) -> RawTransactionRow {
    raw(RawTransactionType::Deposit, client, tx, Some(amount))
}

fn withdrawal(client: u16, tx: u32, amount: &str) -> RawTransactionRow {
    raw(RawTransactionType::Withdrawal, client, tx, Some(amount))
}

fn dispute(client: u16, tx: u32) -> RawTransactionRow {
    raw(RawTransactionType::Dispute, client, tx, None)
}

fn resolve(client: u16, tx: u32) -> RawTransactionRow {
    raw(RawTransactionType::Resolve, client, tx, None)
}

fn chargeback(client: u16, tx: u32) -> RawTransactionRow {
    raw(RawTransactionType::Chargeback, client, tx, None)
}

/// Normalises and applies one row; whether it changed the ledger.
fn feed(engine: &mut TransactionEngine, row: RawTransactionRow) -> bool {
    match row.try_into_row() {
        Ok(op) => engine.apply(op),
        Err(_) => false,
    }
}

fn client(engine: &TransactionEngine, id: u16) -> Option<Client> {
    engine.clients().into_iter().find(|c| c.client == id)
}

/// (available, held, total, locked) in ten-thousandths.
fn balances(engine: &TransactionEngine, id: u16) -> (i128, i128, i128, bool) {
    let c = client(engine, id).unwrap();
    (c.available(), c.held.units(), c.total.units(), c.locked)
}

#[test]
fn test_full_engine() {
    let rows = vec![
        deposit(1, 1, "1.0"),
        deposit(2, 2, "2.0"),
        deposit(3, 3, "3.0"),
        // a duplicate tx id is ignored
        deposit(1, 3, "2.0"),
        withdrawal(1, 2, "1.0"),
        // withdrawal for a client that does not exist fails
        withdrawal(100, 4, "1.0"),
        // non-sequential tx and client ids are fine
        withdrawal(3, 50, "1.0"),
        deposit(50, 51, "50.5555"),
        deposit(2, 5, "5.0"),
        // a chargeback in the resolved state is ignored
        chargeback(2, 5),
        dispute(2, 5),
        // a second dispute is ignored
        dispute(2, 5),
        resolve(2, 5),
        chargeback(2, 5),
        // a dispute and then a chargeback is final
        dispute(2, 5),
        chargeback(2, 5),
        resolve(2, 5),
        // the account is locked: the withdrawal fails, a deposit works
        withdrawal(2, 6, "1.0"),
        deposit(2, 7, "1.0"),
        // a dispute naming another client than the transaction's fails
        dispute(3, 7),
        // not enough funds available
        withdrawal(50, 8, "60"),
        // an outrageously large deposit works
        deposit(50, 19, "7922816251426433751"),
        // a still larger deposit fits: the sum stays within range at four
        // decimal places
        deposit(50, 20, "792281625142643375172"),
    ];
    let mut engine = TransactionEngine::new();
    for row in rows {
        feed(&mut engine, row);
    }
    let mut clients = engine.clients();
    clients.sort_by(|a, b| a.client.cmp(&b.client));
    let ids: Vec<u16> = clients.iter().map(|c| c.client).collect();
    assert_eq!(ids, vec![1, 2, 3, 50]);
    assert_eq!(balances(&engine, 1), (10000, 0, 10000, false));
    assert_eq!(balances(&engine, 2), (30000, 0, 30000, true));
    assert_eq!(balances(&engine, 3), (20000, 0, 20000, false));
    assert_eq!(
        balances(&engine, 50),
        (8002044413940698089735555, 0, 8002044413940698089735555, false)
    );
}

#[test]
fn single_deposit_opens_account() {
    let mut engine = TransactionEngine::new();
    assert!(feed(&mut engine, deposit(1, 1, "1.0")));
    assert_eq!(balances(&engine, 1), (10000, 0, 10000, false));
}

#[test]
fn chargeback_locks_but_allows_deposits() {
    let mut engine = TransactionEngine::default();
    assert!(feed(&mut engine, deposit(2, 5, "5.0")));
    assert!(feed(&mut engine, dispute(2, 5)));
    assert_eq!(balances(&engine, 2), (0, 50000, 50000, false));
    assert!(feed(&mut engine, chargeback(2, 5)));
    assert_eq!(balances(&engine, 2), (0, 0, 0, true));
    assert!(feed(&mut engine, deposit(2, 7, "1.0")));
    assert_eq!(balances(&engine, 2), (10000, 0, 10000, true));
    assert!(!feed(&mut engine, withdrawal(2, 8, "0.5")));
    assert_eq!(balances(&engine, 2), (10000, 0, 10000, true));
}

#[test]
fn withdrawal_without_account_is_rejected() {
    let mut engine = TransactionEngine::new();
    assert!(!feed(&mut engine, withdrawal(9, 1, "1.0")));
    assert!(client(&engine, 9).is_none());
    assert!(engine.clients().is_empty());
}

#[test]
fn over_precise_deposit_never_reaches_engine() {
    let mut engine = TransactionEngine::new();
    assert!(!feed(&mut engine, deposit(1, 1, "2.00001")));
    assert!(engine.clients().is_empty());
    // the id stays free
    assert!(feed(&mut engine, deposit(1, 1, "2.0001")));
    assert_eq!(balances(&engine, 1), (20001, 0, 20001, false));
}

#[test]
fn overflowing_deposit_is_rejected() {
    let mut engine = TransactionEngine::new();
    assert!(feed(&mut engine, deposit(1, 1, "1.0")));
    assert!(!feed(&mut engine, deposit(1, 2, "7922816251426433759354395.0335")));
    assert_eq!(balances(&engine, 1), (10000, 0, 10000, false));
    // the largest amount is fine on its own
    assert!(feed(&mut engine, deposit(2, 3, "7922816251426433759354395.0335")));
    assert_eq!(client(&engine, 2).unwrap().total.units(), tx_ledger::MAX_UNITS);
}

#[test]
fn duplicate_id_is_rejected_and_record_kept() {
    let mut engine = TransactionEngine::new();
    assert!(feed(&mut engine, deposit(1, 1, "3.0")));
    assert!(!feed(&mut engine, deposit(1, 1, "4.0")));
    assert!(!feed(&mut engine, withdrawal(1, 1, "1.0")));
    assert_eq!(balances(&engine, 1), (30000, 0, 30000, false));
    // the first record is the one disputed
    assert!(feed(&mut engine, dispute(1, 1)));
    assert_eq!(balances(&engine, 1), (0, 30000, 30000, false));
}

#[test]
fn repeated_dispute_and_resolve_adjust_once() {
    let mut engine = TransactionEngine::new();
    assert!(feed(&mut engine, deposit(1, 1, "2.5")));
    assert!(feed(&mut engine, dispute(1, 1)));
    assert!(!feed(&mut engine, dispute(1, 1)));
    assert_eq!(balances(&engine, 1), (0, 25000, 25000, false));
    assert!(feed(&mut engine, resolve(1, 1)));
    assert!(!feed(&mut engine, resolve(1, 1)));
    assert_eq!(balances(&engine, 1), (25000, 0, 25000, false));
}

#[test]
fn chargeback_is_irreversible() {
    let mut engine = TransactionEngine::new();
    assert!(feed(&mut engine, deposit(1, 1, "2.0")));
    assert!(feed(&mut engine, deposit(1, 2, "3.0")));
    assert!(feed(&mut engine, dispute(1, 1)));
    assert!(feed(&mut engine, chargeback(1, 1)));
    assert!(!feed(&mut engine, resolve(1, 1)));
    assert!(!feed(&mut engine, dispute(1, 1)));
    assert!(!feed(&mut engine, chargeback(1, 1)));
    assert_eq!(balances(&engine, 1), (30000, 0, 30000, true));
    // other transactions of the client still move, and the lock stays
    assert!(feed(&mut engine, dispute(1, 2)));
    assert!(feed(&mut engine, resolve(1, 2)));
    assert_eq!(balances(&engine, 1), (30000, 0, 30000, true));
}

#[test]
fn dispute_then_resolve_round_trips() {
    let mut engine = TransactionEngine::new();
    assert!(feed(&mut engine, deposit(4, 1, "10")));
    assert!(feed(&mut engine, withdrawal(4, 2, "2.25")));
    assert!(feed(&mut engine, deposit(4, 3, "7.125")));
    let before = balances(&engine, 4);
    assert_eq!(before, (148750, 0, 148750, false));
    assert!(feed(&mut engine, dispute(4, 3)));
    assert_eq!(balances(&engine, 4), (77500, 71250, 148750, false));
    assert!(feed(&mut engine, resolve(4, 3)));
    assert_eq!(balances(&engine, 4), before);
}

#[test]
fn total_is_sum_of_kept_amounts() {
    let mut engine = TransactionEngine::new();
    feed(&mut engine, deposit(1, 1, "10"));
    feed(&mut engine, deposit(2, 2, "4"));
    feed(&mut engine, withdrawal(1, 3, "3"));
    feed(&mut engine, deposit(1, 4, "1.5"));
    feed(&mut engine, withdrawal(2, 5, "1"));
    feed(&mut engine, dispute(1, 4));
    feed(&mut engine, chargeback(1, 4));
    feed(&mut engine, dispute(1, 3));
    // 10 - 3 + 1.5 - 1.5 (charged back); the withdrawal is held
    assert_eq!(balances(&engine, 1), (100000, -30000, 70000, true));
    assert_eq!(balances(&engine, 2), (30000, 0, 30000, false));
}

#[test]
fn withdrawal_beyond_available_is_rejected() {
    let mut engine = TransactionEngine::new();
    assert!(feed(&mut engine, deposit(1, 1, "5")));
    assert!(feed(&mut engine, deposit(1, 2, "3")));
    assert!(feed(&mut engine, dispute(1, 1)));
    assert!(!feed(&mut engine, withdrawal(1, 3, "3.0001")));
    assert!(feed(&mut engine, withdrawal(1, 4, "3")));
    assert_eq!(balances(&engine, 1), (0, 50000, 50000, false));
}

#[test]
fn modifier_for_unknown_or_foreign_transaction_is_rejected() {
    let mut engine = TransactionEngine::new();
    assert!(feed(&mut engine, deposit(1, 1, "5")));
    assert!(!feed(&mut engine, dispute(1, 2)));
    assert!(!feed(&mut engine, dispute(2, 1)));
    assert_eq!(balances(&engine, 1), (50000, 0, 50000, false));
}

#[test]
fn creation_state_is_always_resolved() {
    let mut engine = TransactionEngine::new();
    let op = TransactionRow::New(Transaction {
        tx: 1,
        client: 1,
        amount: Amount::from_units(10000).unwrap(),
        state: TransactionState::Chargeback,
    });
    assert!(engine.apply(op));
    let d = TransactionRow::Mod(TransactionMod { tx: 1, client: 1, state: TransactionState::Disputed });
    assert!(engine.apply(d));
    assert_eq!(balances(&engine, 1), (0, 10000, 10000, false));
}

#[test]
fn withdrawal_allowed_when_available_exceeds_range() {
    let mut engine = TransactionEngine::new();
    let max = "7922816251426433759354395.0335";
    assert!(feed(&mut engine, deposit(1, 1, max)));
    assert!(feed(&mut engine, withdrawal(1, 2, "0.0001")));
    assert!(feed(&mut engine, deposit(1, 3, "0.0001")));
    assert!(feed(&mut engine, dispute(1, 2)));
    let m = tx_ledger::MAX_UNITS;
    assert_eq!(balances(&engine, 1), (m + 1, -1, m, false));
    assert!(feed(&mut engine, withdrawal(1, 4, "0.0001")));
    assert_eq!(balances(&engine, 1), (m, -1, m - 1, false));
}

#[test]
fn client_new_and_available() {
    let c = Client::new(3, Amount::from_units(7).unwrap());
    assert_eq!(c.client, 3);
    assert_eq!(c.held.units(), 0);
    assert!(!c.locked);
    assert_eq!(c.available(), 7);
    let far = Client {
        client: 1,
        total: Amount::from_units(tx_ledger::MAX_UNITS).unwrap(),
        held: Amount::from_units(-1).unwrap(),
        locked: false,
    };
    assert_eq!(far.available(), tx_ledger::MAX_UNITS + 1);
}

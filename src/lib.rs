//! A single-pass ledger: raw transaction rows are normalised into typed
//! operations, and a transaction engine folds those operations into client
//! accounts using exact fixed-point arithmetic with four decimal places.
pub mod amount;
pub mod decimal;
pub mod engine;
pub mod laws;
pub mod row;
pub mod sums;

pub use amount::{Amount, DECIMAL_PLACES, MAX_UNITS};
pub use engine::{Client, TransactionEngine};
pub use row::{
    RawAmount, RawTransactionRow, RawTransactionType, RowRejection, Transaction, TransactionMod,
    TransactionRow, TransactionState,
};

use vstd::prelude::*;

use crate::models::Transaction;

verus! {

/// Errors reported by the engine and by the record parser.
#[derive(Debug)]
pub enum EngineError {
    /// Reading the input failed.
    IoError(String),
    /// The record source could not be decoded.
    CsvError(String),
    /// A record is malformed or incomplete.
    TransactionError(String),
    /// A dispute, resolve or chargeback names a transaction that was never logged.
    TransactionNotFound(u32),
    /// The account is frozen, or the referenced transaction is not under dispute.
    InvalidOperation(String),
    /// A withdrawal exceeds the available funds.
    InsufficientFunds,
    /// A balance would leave the range that an amount can represent.
    BalanceOverflow,
    /// The shard's queue is closed; the transaction is handed back.
    SendError(Transaction),
    /// The engine no longer accepts transactions.
    ShutDownError(String),
}

/// Why the account state machine refuses a transaction.
pub enum Refusal {
    Locked,
    InsufficientFunds,
    OutOfRange,
    UnknownTransaction(u32),
    NotDisputed,
    MissingAmount,
}

/// `r` is the error that the engine reports for `why`.
pub open spec fn reports(r: Result<(), EngineError>, why: Refusal) -> bool {
    match why {
        Refusal::Locked => r matches Err(EngineError::InvalidOperation(_)),
        Refusal::NotDisputed => r matches Err(EngineError::InvalidOperation(_)),
        Refusal::InsufficientFunds => r matches Err(EngineError::InsufficientFunds),
        Refusal::OutOfRange => r matches Err(EngineError::BalanceOverflow),
        Refusal::MissingAmount => r matches Err(EngineError::TransactionError(_)),
        Refusal::UnknownTransaction(id) => r matches Err(EngineError::TransactionNotFound(x)) && x == id,
    }
}

} // verus!

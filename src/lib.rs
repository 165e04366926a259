//! A sharded engine for client account transactions: deposits, withdrawals
//! and the dispute / resolve / chargeback cycle, applied per client under
//! exact fixed-point arithmetic.

pub mod errors;
pub mod models;
pub mod engine;
pub mod parse;
pub mod laws;

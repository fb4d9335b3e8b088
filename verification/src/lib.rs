//! A verified per-client payment ledger.
//!
//! Each client account tracks available and held funds, a lock flag, and a
//! history of transactions with their dispute status. Deposits, withdrawals
//! and the dispute lifecycle (dispute, resolve, chargeback) mutate the account
//! under a money-conservation invariant: the derived total always equals
//! `available + held`. A routing engine dispatches a stream of records to the
//! right account, creating accounts on first sight, and emits final snapshots.

pub mod client;
pub mod laws;
pub mod transaction_engine;

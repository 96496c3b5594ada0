//! A ledger of client accounts fed by a stream of deposits, withdrawals and
//! the dispute lifecycle (dispute, resolve, chargeback).
//!
//! Amounts are fixed-point integers: one unit of currency is `AMOUNT_SCALE`
//! units of an amount.
use vstd::prelude::*;

pub mod account;
pub mod account_map;
pub mod laws;
pub mod transaction;

pub use account::{Account, RuleViolation};
pub use account_map::{log_transaction, AccountMap};
pub use transaction::{Transaction, TransactionType};

verus! {

/// Number of amount units in one unit of currency (four decimal places).
pub const AMOUNT_SCALE: i64 = 10000;

} // verus!

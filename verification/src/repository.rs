//! The keyed stores of the ledger.

pub mod basic_account_repository;
pub mod dlq_repository;
pub mod int_map;
pub mod transaction_repository;
pub mod wrap_account_repository;

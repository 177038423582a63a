//! Replays an ordered stream of deposits, withdrawals, disputes, resolves and
//! chargebacks into per-client account balances.
//!
//! All processing goes through the [`TransactionProcessor`] trait. The
//! library has two processors: [`BasicProcessor`] keeps one transaction index
//! and one dispute index for all clients, [`WrapProcessor`] keeps them inside
//! each account.

use vstd::prelude::*;
use crate::account::basic::{AccountView, BasicAccount};
use crate::client::Client;
use crate::error::ProcessError;
use crate::processor::basic_processor::BasicTransactionProcessor;
use crate::processor::wrap_processor::WrapTransactionProcessor;
use crate::repository::basic_account_repository::{lists, views};
use crate::transaction::{Transaction, TransactionView};

pub mod account;
pub mod amount;
pub mod cli;
pub mod client;
pub mod error;
pub mod processor;
pub mod repository;
pub mod transaction;
pub mod transaction_type;

verus! {

pub type BasicProcessor = BasicTransactionProcessor;

pub type WrapProcessor = WrapTransactionProcessor;

/// A state machine that takes transactions one at a time and hands out the
/// resulting accounts at the end.
pub trait TransactionProcessor: Sized {
    /// The mathematical state of the processor.
    type Ledger;

    spec fn ledger(&self) -> Self::Ledger;

    /// The ledger after one transaction, and the transaction's result.
    spec fn step(ledger: Self::Ledger, transaction: TransactionView) -> (
        Self::Ledger,
        Result<(), ProcessError>,
    );

    /// The balances of every client in the ledger.
    spec fn balances(ledger: Self::Ledger) -> Map<Client, AccountView>;

    fn process(&mut self, transaction: Transaction) -> (result: Result<(), ProcessError>)
        ensures
            (final(self).ledger(), result) == Self::step(old(self).ledger(), transaction@),
    ;

    /// The accounts of all clients seen, each once, in an order of the
    /// processor's own.
    fn into_iter(self) -> (accounts: Vec<BasicAccount>)
        ensures
            lists(views(accounts@), Self::balances(self.ledger())),
    ;
}

} // verus!

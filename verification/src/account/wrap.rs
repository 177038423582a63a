//! An account that carries its own transaction and dispute index.

use vstd::prelude::*;
use crate::account::basic::{applied, AccountView, BasicAccount};
use crate::amount::Amount;
use crate::client::Client;
use crate::error::ProcessError;
use crate::processor::rules::Scope;
use crate::repository::transaction_repository::TransactionMemoryRepository;
use crate::transaction::{TransactionView, TxId};

verus! {

/// How a balance operation on an account with indices shows: the account
/// part is replaced or untouched as [`applied`] says, and the indices stay as
/// they are.
pub open spec fn applied_within(
    before: Scope,
    after: Scope,
    result: Result<(), ProcessError>,
    expected: Result<AccountView, ProcessError>,
) -> bool {
    &&& applied(before.account, after.account, result, expected)
    &&& after.transactions == before.transactions
    &&& after.disputes == before.disputes
}

/// The balances of one client together with the client's own transaction
/// index and dispute index.
pub struct WrapAccount {
    basic_account: BasicAccount,
    tx_repository: TransactionMemoryRepository,
    dispute_tx_repository: TransactionMemoryRepository,
}

impl View for WrapAccount {
    type V = Scope;

    closed spec fn view(&self) -> Scope {
        Scope {
            account: self.basic_account@,
            transactions: self.tx_repository@,
            disputes: self.dispute_tx_repository@,
        }
    }
}

impl WrapAccount {
    /// The scope of a client that no transaction has touched yet.
    pub open spec fn spec_new(client: Client) -> Scope {
        Scope {
            account: AccountView::new(client),
            transactions: Map::<TxId, TransactionView>::empty(),
            disputes: Map::<TxId, TransactionView>::empty(),
        }
    }

    /// The account of a client that no transaction has touched yet, with
    /// empty indices.
    pub fn new(client: Client) -> (account: Self)
        ensures
            account@ == Self::spec_new(client),
    {
        WrapAccount {
            basic_account: BasicAccount::new(client),
            tx_repository: TransactionMemoryRepository::new(),
            dispute_tx_repository: TransactionMemoryRepository::new(),
        }
    }

    pub fn available(&self) -> (available: &Amount)
        ensures
            available@ == self@.account.available,
    {
        self.basic_account.available()
    }

    pub fn held(&self) -> (held: &Amount)
        ensures
            held@ == self@.account.held,
    {
        self.basic_account.held()
    }

    pub fn total(&self) -> (total: &Amount)
        ensures
            total@ == self@.account.total,
    {
        self.basic_account.total()
    }

    pub fn locked(&self) -> (locked: bool)
        ensures
            locked == self@.account.locked,
    {
        self.basic_account.locked()
    }

    pub fn client(&self) -> (client: &Client)
        ensures
            *client == self@.account.client,
    {
        self.basic_account.client()
    }

    pub fn deposit(&mut self, amount: &Amount) -> (result: Result<(), ProcessError>)
        ensures
            applied_within(old(self)@, final(self)@, result, old(self)@.account.deposit(amount@)),
    {
        self.basic_account.deposit(amount)
    }

    pub fn withdrawal(&mut self, amount: &Amount) -> (result: Result<(), ProcessError>)
        ensures
            applied_within(
                old(self)@,
                final(self)@,
                result,
                old(self)@.account.withdrawal(amount@),
            ),
    {
        self.basic_account.withdrawal(amount)
    }

    pub fn dispute_deposit(&mut self, amount: &Amount) -> (result: Result<(), ProcessError>)
        ensures
            applied_within(
                old(self)@,
                final(self)@,
                result,
                old(self)@.account.dispute_deposit(amount@),
            ),
    {
        self.basic_account.dispute_deposit(amount)
    }

    pub fn dispute_withdrawal(&mut self, amount: &Amount) -> (result: Result<(), ProcessError>)
        ensures
            applied_within(
                old(self)@,
                final(self)@,
                result,
                old(self)@.account.dispute_withdrawal(amount@),
            ),
    {
        self.basic_account.dispute_withdrawal(amount)
    }

    pub fn resolve(&mut self, amount: &Amount) -> (result: Result<(), ProcessError>)
        ensures
            applied_within(old(self)@, final(self)@, result, old(self)@.account.resolve(amount@)),
    {
        self.basic_account.resolve(amount)
    }

    pub fn chargeback(&mut self, amount: &Amount) -> (result: Result<(), ProcessError>)
        ensures
            applied_within(
                old(self)@,
                final(self)@,
                result,
                old(self)@.account.chargeback(amount@),
            ),
    {
        self.basic_account.chargeback(amount)
    }

    /// The deposits and withdrawals of the client that can still be disputed.
    pub fn tx_repository(&self) -> (repository: &TransactionMemoryRepository)
        ensures
            repository@ == self@.transactions,
    {
        &self.tx_repository
    }

    /// The transaction index, to be changed in place: what the caller leaves
    /// in it is the account's transaction index afterwards.
    pub fn mut_tx_repository(&mut self) -> (repository: &mut TransactionMemoryRepository)
        ensures
            repository@ == old(self)@.transactions,
            final(self)@ == (Scope { transactions: final(repository)@, ..old(self)@ }),
    {
        &mut self.tx_repository
    }

    /// The open disputes of the client.
    pub fn dispute_tx_repository(&self) -> (repository: &TransactionMemoryRepository)
        ensures
            repository@ == self@.disputes,
    {
        &self.dispute_tx_repository
    }

    /// The dispute index, to be changed in place: what the caller leaves in
    /// it is the account's dispute index afterwards.
    pub fn mut_dispute_tx_repository(&mut self) -> (repository: &mut TransactionMemoryRepository)
        ensures
            repository@ == old(self)@.disputes,
            final(self)@ == (Scope { disputes: final(repository)@, ..old(self)@ }),
    {
        &mut self.dispute_tx_repository
    }

    /// The balances, without the indices.
    pub fn account(&self) -> (account: &BasicAccount)
        ensures
            account@ == self@.account,
    {
        &self.basic_account
    }

    /// The balances; the indices are given up.
    pub fn into_account(self) -> (account: BasicAccount)
        ensures
            account@ == self@.account,
    {
        self.basic_account
    }
}

} // verus!

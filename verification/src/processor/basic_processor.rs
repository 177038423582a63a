//! The processor that keeps one transaction index and one dispute index for
//! all clients.

use vstd::prelude::*;
use crate::account::basic::{AccountView, BasicAccount};
use crate::amount::Amount;
use crate::client::Client;
use crate::error::ProcessError;
use crate::processor::rules::{open_dispute, Scope};
use crate::repository::basic_account_repository::{lists, touch, views, BasicAccountMemoryRepository};
use crate::repository::transaction_repository::TransactionMemoryRepository;
use crate::transaction::{Transaction, TransactionView, TxId};
use crate::transaction_type::TransactionType;
use crate::TransactionProcessor;

verus! {

/// The mathematical content of a [`BasicTransactionProcessor`].
pub struct BasicLedger {
    pub accounts: Map<Client, AccountView>,
    /// The deposits and withdrawals of all clients that can still be
    /// disputed.
    pub transactions: Map<TxId, TransactionView>,
    /// The open disputes of all clients.
    pub disputes: Map<TxId, TransactionView>,
}

impl BasicLedger {
    /// The ledger before any transaction.
    pub open spec fn empty() -> BasicLedger {
        BasicLedger { accounts: Map::empty(), transactions: Map::empty(), disputes: Map::empty() }
    }

    /// What the rules see for `client`: the client's account, created if it
    /// is not there yet, and the two shared indices.
    pub open spec fn scope(self, client: Client) -> Scope {
        Scope {
            account: touch(self.accounts, client)[client],
            transactions: self.transactions,
            disputes: self.disputes,
        }
    }

    /// The ledger and the result after the rules have `ruled` on a
    /// transaction of `client`. The client's account exists afterwards
    /// either way; apart from that a transaction that is turned down changes
    /// nothing.
    pub open spec fn after(self, client: Client, ruled: Result<Scope, ProcessError>) -> (
        BasicLedger,
        Result<(), ProcessError>,
    ) {
        match ruled {
            Ok(scope) => (
                BasicLedger {
                    accounts: self.accounts.insert(client, scope.account),
                    transactions: scope.transactions,
                    disputes: scope.disputes,
                },
                Ok(()),
            ),
            Err(error) => (
                BasicLedger {
                    accounts: touch(self.accounts, client),
                    transactions: self.transactions,
                    disputes: self.disputes,
                },
                Err(error),
            ),
        }
    }

    /// The ledger after one transaction, and the transaction's result.
    pub open spec fn step(self, transaction: TransactionView) -> (
        BasicLedger,
        Result<(), ProcessError>,
    ) {
        self.after(transaction.client, self.scope(transaction.client).process(transaction))
    }

    /// The ledger after all of `transactions`, applied in order. Whether a
    /// transaction is applied or turned down, the next one follows.
    pub open spec fn replay(self, transactions: Seq<TransactionView>) -> BasicLedger
        decreases transactions.len(),
    {
        if transactions.len() == 0 {
            self
        } else {
            self.replay(transactions.drop_last()).step(transactions.last()).0
        }
    }

    /// The result of the transaction at `index` when `transactions` are
    /// applied in order.
    pub open spec fn outcome(self, transactions: Seq<TransactionView>, index: int) -> Result<
        (),
        ProcessError,
    > {
        self.replay(transactions.take(index)).step(transactions[index]).1
    }
}

/// The processor with one transaction index and one dispute index for all
/// clients.
pub struct BasicTransactionProcessor {
    client_repository: BasicAccountMemoryRepository,
    tx_repository: TransactionMemoryRepository,
    dispute_tx_repository: TransactionMemoryRepository,
}

impl View for BasicTransactionProcessor {
    type V = BasicLedger;

    closed spec fn view(&self) -> BasicLedger {
        BasicLedger {
            accounts: self.client_repository@,
            transactions: self.tx_repository@,
            disputes: self.dispute_tx_repository@,
        }
    }
}

impl Default for BasicTransactionProcessor {
    fn default() -> (processor: Self)
        ensures
            processor@ == BasicLedger::empty(),
    {
        Self::new()
    }
}

impl BasicTransactionProcessor {
    /// A processor that has seen no transaction.
    pub fn new() -> (processor: Self)
        ensures
            processor@ == BasicLedger::empty(),
    {
        BasicTransactionProcessor {
            client_repository: BasicAccountMemoryRepository::new(),
            tx_repository: TransactionMemoryRepository::new(),
            dispute_tx_repository: TransactionMemoryRepository::new(),
        }
    }

    /// The directory of accounts, to be read or changed in place: what the
    /// caller leaves in it is the processor's directory afterwards.
    pub fn client_repository(&mut self) -> (repository: &mut BasicAccountMemoryRepository)
        ensures
            repository@ == old(self)@.accounts,
            final(self)@ == (BasicLedger { accounts: final(repository)@, ..old(self)@ }),
    {
        &mut self.client_repository
    }

    /// Looks the client's account up, creating it if need be, and turns the
    /// transaction down if the account is locked.
    fn account(repository: &mut BasicAccountMemoryRepository, client: Client) -> (result: Result<
        &mut BasicAccount,
        ProcessError,
    >)
        ensures
            match result {
                Ok(account) => {
                    &&& account@ == touch(old(repository)@, client)[client]
                    &&& !account@.locked
                    &&& final(repository)@ == old(repository)@.insert(client, final(account)@)
                },
                Err(error) => {
                    &&& error == ProcessError::AccountLocked
                    &&& touch(old(repository)@, client)[client].locked
                    &&& final(repository)@ == touch(old(repository)@, client)
                },
            },
    {
        let account = repository.find_by_client(client);
        if account.locked() {
            proof {
                assert(old(repository)@.insert(client, touch(old(repository)@, client)[client])
                    =~= touch(old(repository)@, client));
            }
            return Err(ProcessError::AccountLocked);
        }
        Ok(account)
    }

    /// The rule for a withdrawal: guard, amount, duplicate check, debit, then
    /// the withdrawal is recorded in the shared index.
    fn withdrawal(&mut self, transaction: Transaction) -> (result: Result<(), ProcessError>)
        ensures
            (final(self)@, result) == old(self)@.after(
                transaction@.client,
                old(self)@.scope(transaction@.client).guard(
                    old(self)@.scope(transaction@.client).withdrawal(transaction@),
                ),
            ),
    {
        let account = match Self::account(&mut self.client_repository, transaction.client()) {
            Ok(account) => account,
            Err(error) => {
                return Err(error);
            },
        };
        let amount = match transaction.amount() {
            Some(amount) => amount,
            None => {
                proof {
                    self.lemma_touched(old(self)@.accounts, transaction@.client);
                }
                return Err(ProcessError::AmountNotFound);
            },
        };
        if self.tx_repository.exist_by_tx_id(&transaction.tx_id()) {
            proof {
                self.lemma_touched(old(self)@.accounts, transaction@.client);
            }
            return Err(ProcessError::TransactionExists);
        }
        match account.withdrawal(&amount) {
            Ok(()) => {},
            Err(error) => {
                proof {
                    self.lemma_touched(old(self)@.accounts, transaction@.client);
                }
                return Err(error);
            },
        }
        self.tx_repository.insert(transaction.tx_id(), transaction);
        Ok(())
    }

    /// The rule for a deposit: guard, amount, duplicate check, credit, then
    /// the deposit is recorded in the shared index.
    fn deposit(&mut self, transaction: Transaction) -> (result: Result<(), ProcessError>)
        ensures
            (final(self)@, result) == old(self)@.after(
                transaction@.client,
                old(self)@.scope(transaction@.client).guard(
                    old(self)@.scope(transaction@.client).deposit(transaction@),
                ),
            ),
    {
        let account = match Self::account(&mut self.client_repository, transaction.client()) {
            Ok(account) => account,
            Err(error) => {
                return Err(error);
            },
        };
        let amount = match transaction.amount() {
            Some(amount) => amount,
            None => {
                proof {
                    self.lemma_touched(old(self)@.accounts, transaction@.client);
                }
                return Err(ProcessError::AmountNotFound);
            },
        };
        if self.tx_repository.exist_by_tx_id(&transaction.tx_id()) {
            proof {
                self.lemma_touched(old(self)@.accounts, transaction@.client);
            }
            return Err(ProcessError::TransactionExists);
        }
        match account.deposit(&amount) {
            Ok(()) => {},
            Err(error) => {
                proof {
                    self.lemma_touched(old(self)@.accounts, transaction@.client);
                }
                return Err(error);
            },
        }
        self.tx_repository.insert(transaction.tx_id(), transaction);
        Ok(())
    }

    /// The rule for a dispute: guard, then the transaction referred to must
    /// not be under dispute, must be in the shared index and belong to the client; its
    /// amount is held and the dispute is recorded.
    fn dispute(&mut self, transaction: Transaction) -> (result: Result<(), ProcessError>)
        ensures
            (final(self)@, result) == old(self)@.after(
                transaction@.client,
                old(self)@.scope(transaction@.client).guard(
                    old(self)@.scope(transaction@.client).dispute(transaction@),
                ),
            ),
    {
        let account = match Self::account(&mut self.client_repository, transaction.client()) {
            Ok(account) => account,
            Err(error) => {
                return Err(error);
            },
        };
        if self.dispute_tx_repository.exist_by_tx_id(&transaction.tx_id()) {
            proof {
                self.lemma_touched(old(self)@.accounts, transaction@.client);
            }
            return Err(ProcessError::TransactionUnderDispute);
        }
        let org_tx = match self.tx_repository.find_by_tx_id(&transaction.tx_id()) {
            Some(org_tx) => org_tx,
            None => {
                proof {
                    self.lemma_touched(old(self)@.accounts, transaction@.client);
                }
                return Err(ProcessError::OrgTransactionNotFound);
            },
        };
        if org_tx.client() != transaction.client() {
            proof {
                self.lemma_touched(old(self)@.accounts, transaction@.client);
            }
            return Err(ProcessError::MismatchClientId);
        }
        let disputed = match (org_tx.kind(), org_tx.amount()) {
            (TransactionType::Deposit, Some(amount)) => account.dispute_deposit(&amount),
            (TransactionType::Withdrawal, Some(amount)) => account.dispute_withdrawal(&amount),
            _ => Err(ProcessError::InvalidTransactionTypeOrAmount),
        };
        match disputed {
            Ok(()) => {},
            Err(error) => {
                proof {
                    self.lemma_touched(old(self)@.accounts, transaction@.client);
                }
                return Err(error);
            },
        }
        self.dispute_tx_repository.insert(transaction.tx_id(), transaction);
        Ok(())
    }

    /// The amount under the open dispute that `transaction` refers to, or
    /// the error that keeps a resolve or chargeback from going ahead.
    fn open_dispute(
        tx_repository: &TransactionMemoryRepository,
        dispute_tx_repository: &TransactionMemoryRepository,
        transaction: &Transaction,
    ) -> (result: Result<Amount, ProcessError>)
        ensures
            match open_dispute(tx_repository@, dispute_tx_repository@, transaction@) {
                Ok(amount) => result matches Ok(found) && found@ == amount,
                Err(error) => result matches Err(found) && found == error,
            },
    {
        let dispute_tx = match dispute_tx_repository.find_by_tx_id(&transaction.tx_id()) {
            Some(dispute_tx) => dispute_tx,
            None => {
                return Err(ProcessError::DisputedTransactionNotFound);
            },
        };
        let org_tx = match tx_repository.find_by_tx_id(&dispute_tx.tx_id()) {
            Some(org_tx) => org_tx,
            None => {
                return Err(ProcessError::OrgTransactionNotFound);
            },
        };
        if org_tx.client() != transaction.client() {
            return Err(ProcessError::MismatchClientId);
        }
        match (org_tx.kind(), org_tx.amount()) {
            (TransactionType::Withdrawal | TransactionType::Deposit, Some(amount)) => Ok(amount),
            _ => Err(ProcessError::InvalidTransactionTypeOrAmount),
        }
    }

    /// The rule for a resolve: guard, open dispute, release of the held
    /// amount, then the identifier leaves both indices.
    fn resolve(&mut self, transaction: Transaction) -> (result: Result<(), ProcessError>)
        ensures
            (final(self)@, result) == old(self)@.after(
                transaction@.client,
                old(self)@.scope(transaction@.client).guard(
                    old(self)@.scope(transaction@.client).resolve(transaction@),
                ),
            ),
    {
        let account = match Self::account(&mut self.client_repository, transaction.client()) {
            Ok(account) => account,
            Err(error) => {
                return Err(error);
            },
        };
        let found = Self::open_dispute(
            &self.tx_repository,
            &self.dispute_tx_repository,
            &transaction,
        );
        let amount = match found {
            Ok(amount) => amount,
            Err(error) => {
                proof {
                    self.lemma_touched(old(self)@.accounts, transaction@.client);
                }
                return Err(error);
            },
        };
        match account.resolve(&amount) {
            Ok(()) => {},
            Err(error) => {
                proof {
                    self.lemma_touched(old(self)@.accounts, transaction@.client);
                }
                return Err(error);
            },
        }
        self.dispute_tx_repository.delete_by_id(&transaction.tx_id());
        self.tx_repository.delete_by_id(&transaction.tx_id());
        Ok(())
    }

    /// The rule for a chargeback: guard, open dispute, withdrawal of the held
    /// amount with the lock, then the identifier leaves both indices.
    fn charge_back(&mut self, transaction: Transaction) -> (result: Result<(), ProcessError>)
        ensures
            (final(self)@, result) == old(self)@.after(
                transaction@.client,
                old(self)@.scope(transaction@.client).guard(
                    old(self)@.scope(transaction@.client).chargeback(transaction@),
                ),
            ),
    {
        let account = match Self::account(&mut self.client_repository, transaction.client()) {
            Ok(account) => account,
            Err(error) => {
                return Err(error);
            },
        };
        let found = Self::open_dispute(
            &self.tx_repository,
            &self.dispute_tx_repository,
            &transaction,
        );
        let amount = match found {
            Ok(amount) => amount,
            Err(error) => {
                proof {
                    self.lemma_touched(old(self)@.accounts, transaction@.client);
                }
                return Err(error);
            },
        };
        match account.chargeback(&amount) {
            Ok(()) => {},
            Err(error) => {
                proof {
                    self.lemma_touched(old(self)@.accounts, transaction@.client);
                }
                return Err(error);
            },
        }
        self.dispute_tx_repository.delete_by_id(&transaction.tx_id());
        self.tx_repository.delete_by_id(&transaction.tx_id());
        Ok(())
    }

    /// Writing back the account that a lookup handed out, unchanged, leaves
    /// the directory as the lookup made it.
    proof fn lemma_touched(&self, before: Map<Client, AccountView>, client: Client)
        requires
            self@.accounts == before.insert(client, touch(before, client)[client]),
        ensures
            self@.accounts == touch(before, client),
    {
        assert(before.insert(client, touch(before, client)[client]) =~= touch(before, client));
    }
}

impl TransactionProcessor for BasicTransactionProcessor {
    type Ledger = BasicLedger;

    open spec fn ledger(&self) -> BasicLedger {
        self@
    }

    open spec fn step(ledger: BasicLedger, transaction: TransactionView) -> (
        BasicLedger,
        Result<(), ProcessError>,
    ) {
        ledger.step(transaction)
    }

    open spec fn balances(ledger: BasicLedger) -> Map<Client, AccountView> {
        ledger.accounts
    }

    /// Applies one transaction. The client's account is looked up first, and
    /// created if the client is new; a locked account turns the transaction
    /// down; otherwise the rule of the transaction's type decides.
    fn process(&mut self, transaction: Transaction) -> (result: Result<(), ProcessError>)
    {
        match transaction.kind() {
            TransactionType::Withdrawal => self.withdrawal(transaction),
            TransactionType::Deposit => self.deposit(transaction),
            TransactionType::Dispute => self.dispute(transaction),
            TransactionType::Resolve => self.resolve(transaction),
            TransactionType::Chargeback => self.charge_back(transaction),
        }
    }

    /// The accounts of all clients seen, in the order in which the directory
    /// walks them.
    fn into_iter(self) -> (accounts: Vec<BasicAccount>)
    {
        self.client_repository.get_all_account_into_iter()
    }
}

} // verus!

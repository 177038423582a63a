//! The processor that keeps a transaction index and a dispute index inside
//! each account.

use vstd::prelude::*;
use crate::account::basic::{AccountView, BasicAccount};
use crate::account::wrap::WrapAccount;
use crate::amount::Amount;
use crate::client::Client;
use crate::error::ProcessError;
use crate::processor::rules::Scope;
use crate::repository::basic_account_repository::{lists, views};
use crate::repository::wrap_account_repository::{
    balances,
    touch_scope,
    WrapAccountMemoryRepository,
};
use crate::transaction::{Transaction, TransactionView};
use crate::transaction_type::TransactionType;
use crate::TransactionProcessor;

verus! {

/// The mathematical content of a [`WrapTransactionProcessor`]: per client,
/// the account with the indices of its own transactions and disputes.
pub struct WrapLedger {
    pub accounts: Map<Client, Scope>,
}

impl WrapLedger {
    /// The ledger before any transaction.
    pub open spec fn empty() -> WrapLedger {
        WrapLedger { accounts: Map::empty() }
    }

    /// What the rules see for `client`: the client's account with its own
    /// indices, created if it is not there yet.
    pub open spec fn scope(self, client: Client) -> Scope {
        touch_scope(self.accounts, client)[client]
    }

    /// The ledger and the result after the rules have `ruled` on a
    /// transaction of `client`. The client's account exists afterwards
    /// either way; apart from that a transaction that is turned down changes
    /// nothing.
    pub open spec fn after(self, client: Client, ruled: Result<Scope, ProcessError>) -> (
        WrapLedger,
        Result<(), ProcessError>,
    ) {
        match ruled {
            Ok(scope) => (WrapLedger { accounts: self.accounts.insert(client, scope) }, Ok(())),
            Err(error) => (
                WrapLedger { accounts: touch_scope(self.accounts, client) },
                Err(error),
            ),
        }
    }

    /// The ledger after one transaction, and the transaction's result.
    pub open spec fn step(self, transaction: TransactionView) -> (
        WrapLedger,
        Result<(), ProcessError>,
    ) {
        self.after(transaction.client, self.scope(transaction.client).process(transaction))
    }

    /// The balances of every client, without the indices.
    pub open spec fn balances(self) -> Map<Client, AccountView> {
        balances(self.accounts)
    }

    /// The ledger after all of `transactions`, applied in order. Whether a
    /// transaction is applied or turned down, the next one follows.
    pub open spec fn replay(self, transactions: Seq<TransactionView>) -> WrapLedger
        decreases transactions.len(),
    {
        if transactions.len() == 0 {
            self
        } else {
            self.replay(transactions.drop_last()).step(transactions.last()).0
        }
    }

    /// The result of the transaction at `index` when `transactions` are
    /// applied in order.
    pub open spec fn outcome(self, transactions: Seq<TransactionView>, index: int) -> Result<
        (),
        ProcessError,
    > {
        self.replay(transactions.take(index)).step(transactions[index]).1
    }
}

/// The processor whose accounts each carry the transaction index and the
/// dispute index of their client.
pub struct WrapTransactionProcessor {
    client_repository: WrapAccountMemoryRepository,
}

impl View for WrapTransactionProcessor {
    type V = WrapLedger;

    closed spec fn view(&self) -> WrapLedger {
        WrapLedger { accounts: self.client_repository@ }
    }
}

impl Default for WrapTransactionProcessor {
    fn default() -> (processor: Self)
        ensures
            processor@ == WrapLedger::empty(),
    {
        Self::new()
    }
}

impl WrapTransactionProcessor {
    /// A processor that has seen no transaction.
    pub fn new() -> (processor: Self)
        ensures
            processor@ == WrapLedger::empty(),
    {
        WrapTransactionProcessor { client_repository: WrapAccountMemoryRepository::new() }
    }

    /// The directory of accounts, to be read or changed in place: what the
    /// caller leaves in it is the processor's directory afterwards.
    pub fn client_repository(&mut self) -> (repository: &mut WrapAccountMemoryRepository)
        ensures
            repository@ == old(self)@.accounts,
            final(self)@ == (WrapLedger { accounts: final(repository)@ }),
    {
        &mut self.client_repository
    }

    /// Looks the client's account up, creating it if need be, and turns the
    /// transaction down if the account is locked.
    fn account(repository: &mut WrapAccountMemoryRepository, client: Client) -> (result: Result<
        &mut WrapAccount,
        ProcessError,
    >)
        ensures
            match result {
                Ok(account) => {
                    &&& account@ == touch_scope(old(repository)@, client)[client]
                    &&& !account@.account.locked
                    &&& final(repository)@ == old(repository)@.insert(client, final(account)@)
                },
                Err(error) => {
                    &&& error == ProcessError::AccountLocked
                    &&& touch_scope(old(repository)@, client)[client].account.locked
                    &&& final(repository)@ == touch_scope(old(repository)@, client)
                },
            },
    {
        let account = repository.find_by_client(client);
        if account.locked() {
            proof {
                assert(old(repository)@.insert(
                    client,
                    touch_scope(old(repository)@, client)[client],
                ) =~= touch_scope(old(repository)@, client));
            }
            return Err(ProcessError::AccountLocked);
        }
        Ok(account)
    }

    /// The rule for a withdrawal: guard, amount, duplicate check, debit, then
    /// the withdrawal is recorded in the account's index.
    fn withdrawal(&mut self, transaction: Transaction) -> (result: Result<(), ProcessError>)
        ensures
            (final(self)@, result) == old(self)@.after(
                transaction@.client,
                old(self)@.scope(transaction@.client).guard(
                    old(self)@.scope(transaction@.client).withdrawal(transaction@),
                ),
            ),
    {
        let account = match Self::account(&mut self.client_repository, transaction.client()) {
            Ok(account) => account,
            Err(error) => {
                return Err(error);
            },
        };
        let amount = match transaction.amount() {
            Some(amount) => amount,
            None => {
                proof {
                    self.lemma_touched(old(self)@.accounts, transaction@.client);
                }
                return Err(ProcessError::AmountNotFound);
            },
        };
        if account.tx_repository().exist_by_tx_id(&transaction.tx_id()) {
            proof {
                self.lemma_touched(old(self)@.accounts, transaction@.client);
            }
            return Err(ProcessError::TransactionExists);
        }
        match account.withdrawal(&amount) {
            Ok(()) => {},
            Err(error) => {
                proof {
                    self.lemma_touched(old(self)@.accounts, transaction@.client);
                }
                return Err(error);
            },
        }
        account.mut_tx_repository().insert(transaction.tx_id(), transaction);
        Ok(())
    }

    /// The rule for a deposit: guard, amount, duplicate check, credit, then
    /// the deposit is recorded in the account's index.
    fn deposit(&mut self, transaction: Transaction) -> (result: Result<(), ProcessError>)
        ensures
            (final(self)@, result) == old(self)@.after(
                transaction@.client,
                old(self)@.scope(transaction@.client).guard(
                    old(self)@.scope(transaction@.client).deposit(transaction@),
                ),
            ),
    {
        let account = match Self::account(&mut self.client_repository, transaction.client()) {
            Ok(account) => account,
            Err(error) => {
                return Err(error);
            },
        };
        let amount = match transaction.amount() {
            Some(amount) => amount,
            None => {
                proof {
                    self.lemma_touched(old(self)@.accounts, transaction@.client);
                }
                return Err(ProcessError::AmountNotFound);
            },
        };
        if account.tx_repository().exist_by_tx_id(&transaction.tx_id()) {
            proof {
                self.lemma_touched(old(self)@.accounts, transaction@.client);
            }
            return Err(ProcessError::TransactionExists);
        }
        match account.deposit(&amount) {
            Ok(()) => {},
            Err(error) => {
                proof {
                    self.lemma_touched(old(self)@.accounts, transaction@.client);
                }
                return Err(error);
            },
        }
        account.mut_tx_repository().insert(transaction.tx_id(), transaction);
        Ok(())
    }

    /// The rule for a dispute: guard, then the transaction referred to must
    /// not be under dispute, must be in the account's index and belong to the client; its
    /// amount is held and the dispute is recorded.
    fn dispute(&mut self, transaction: Transaction) -> (result: Result<(), ProcessError>)
        ensures
            (final(self)@, result) == old(self)@.after(
                transaction@.client,
                old(self)@.scope(transaction@.client).guard(
                    old(self)@.scope(transaction@.client).dispute(transaction@),
                ),
            ),
    {
        let account = match Self::account(&mut self.client_repository, transaction.client()) {
            Ok(account) => account,
            Err(error) => {
                return Err(error);
            },
        };
        if account.dispute_tx_repository().exist_by_tx_id(&transaction.tx_id()) {
            proof {
                self.lemma_touched(old(self)@.accounts, transaction@.client);
            }
            return Err(ProcessError::TransactionUnderDispute);
        }
        let org_tx = match account.tx_repository().find_by_tx_id(&transaction.tx_id()) {
            Some(org_tx) => org_tx,
            None => {
                proof {
                    self.lemma_touched(old(self)@.accounts, transaction@.client);
                }
                return Err(ProcessError::OrgTransactionNotFound);
            },
        };
        if org_tx.client() != transaction.client() {
            proof {
                self.lemma_touched(old(self)@.accounts, transaction@.client);
            }
            return Err(ProcessError::MismatchClientId);
        }
        let disputed = match (org_tx.kind(), org_tx.amount()) {
            (TransactionType::Deposit, Some(amount)) => account.dispute_deposit(&amount),
            (TransactionType::Withdrawal, Some(amount)) => account.dispute_withdrawal(&amount),
            _ => Err(ProcessError::InvalidTransactionTypeOrAmount),
        };
        match disputed {
            Ok(()) => {},
            Err(error) => {
                proof {
                    self.lemma_touched(old(self)@.accounts, transaction@.client);
                }
                return Err(error);
            },
        }
        account.mut_dispute_tx_repository().insert(transaction.tx_id(), transaction);
        Ok(())
    }

    /// The amount under the open dispute that `transaction` refers to, or
    /// the error that keeps a resolve or chargeback from going ahead.
    fn open_dispute(account: &WrapAccount, transaction: &Transaction) -> (result: Result<
        Amount,
        ProcessError,
    >)
        ensures
            match account@.open_dispute(transaction@) {
                Ok(amount) => result matches Ok(found) && found@ == amount,
                Err(error) => result matches Err(found) && found == error,
            },
    {
        let dispute_tx = match account.dispute_tx_repository().find_by_tx_id(
            &transaction.tx_id(),
        ) {
            Some(dispute_tx) => dispute_tx,
            None => {
                return Err(ProcessError::DisputedTransactionNotFound);
            },
        };
        let org_tx = match account.tx_repository().find_by_tx_id(&dispute_tx.tx_id()) {
            Some(org_tx) => org_tx,
            None => {
                return Err(ProcessError::OrgTransactionNotFound);
            },
        };
        if org_tx.client() != transaction.client() {
            return Err(ProcessError::MismatchClientId);
        }
        match (org_tx.kind(), org_tx.amount()) {
            (TransactionType::Withdrawal | TransactionType::Deposit, Some(amount)) => Ok(amount),
            _ => Err(ProcessError::InvalidTransactionTypeOrAmount),
        }
    }

    /// The rule for a resolve: guard, open dispute, release of the held
    /// amount, then the identifier leaves both indices.
    fn resolve(&mut self, transaction: Transaction) -> (result: Result<(), ProcessError>)
        ensures
            (final(self)@, result) == old(self)@.after(
                transaction@.client,
                old(self)@.scope(transaction@.client).guard(
                    old(self)@.scope(transaction@.client).resolve(transaction@),
                ),
            ),
    {
        let account = match Self::account(&mut self.client_repository, transaction.client()) {
            Ok(account) => account,
            Err(error) => {
                return Err(error);
            },
        };
        let amount = match Self::open_dispute(account, &transaction) {
            Ok(amount) => amount,
            Err(error) => {
                proof {
                    self.lemma_touched(old(self)@.accounts, transaction@.client);
                }
                return Err(error);
            },
        };
        match account.resolve(&amount) {
            Ok(()) => {},
            Err(error) => {
                proof {
                    self.lemma_touched(old(self)@.accounts, transaction@.client);
                }
                return Err(error);
            },
        }
        account.mut_dispute_tx_repository().delete_by_id(&transaction.tx_id());
        account.mut_tx_repository().delete_by_id(&transaction.tx_id());
        Ok(())
    }

    /// The rule for a chargeback: guard, open dispute, withdrawal of the held
    /// amount with the lock, then the identifier leaves both indices.
    fn charge_back(&mut self, transaction: Transaction) -> (result: Result<(), ProcessError>)
        ensures
            (final(self)@, result) == old(self)@.after(
                transaction@.client,
                old(self)@.scope(transaction@.client).guard(
                    old(self)@.scope(transaction@.client).chargeback(transaction@),
                ),
            ),
    {
        let account = match Self::account(&mut self.client_repository, transaction.client()) {
            Ok(account) => account,
            Err(error) => {
                return Err(error);
            },
        };
        let amount = match Self::open_dispute(account, &transaction) {
            Ok(amount) => amount,
            Err(error) => {
                proof {
                    self.lemma_touched(old(self)@.accounts, transaction@.client);
                }
                return Err(error);
            },
        };
        match account.chargeback(&amount) {
            Ok(()) => {},
            Err(error) => {
                proof {
                    self.lemma_touched(old(self)@.accounts, transaction@.client);
                }
                return Err(error);
            },
        }
        account.mut_dispute_tx_repository().delete_by_id(&transaction.tx_id());
        account.mut_tx_repository().delete_by_id(&transaction.tx_id());
        Ok(())
    }

    /// Writing back the account that a lookup handed out, unchanged, leaves
    /// the directory as the lookup made it.
    proof fn lemma_touched(&self, before: Map<Client, Scope>, client: Client)
        requires
            self@.accounts == before.insert(client, touch_scope(before, client)[client]),
        ensures
            self@.accounts == touch_scope(before, client),
    {
        assert(before.insert(client, touch_scope(before, client)[client]) =~= touch_scope(
            before,
            client,
        ));
    }
}

impl TransactionProcessor for WrapTransactionProcessor {
    type Ledger = WrapLedger;

    open spec fn ledger(&self) -> WrapLedger {
        self@
    }

    open spec fn step(ledger: WrapLedger, transaction: TransactionView) -> (
        WrapLedger,
        Result<(), ProcessError>,
    ) {
        ledger.step(transaction)
    }

    open spec fn balances(ledger: WrapLedger) -> Map<Client, AccountView> {
        ledger.balances()
    }

    /// Applies one transaction. The client's account is looked up first, and
    /// created if the client is new; a locked account turns the transaction
    /// down; otherwise the rule of the transaction's type decides, on the
    /// account's own indices.
    fn process(&mut self, transaction: Transaction) -> (result: Result<(), ProcessError>)
    {
        match transaction.kind() {
            TransactionType::Withdrawal => self.withdrawal(transaction),
            TransactionType::Deposit => self.deposit(transaction),
            TransactionType::Dispute => self.dispute(transaction),
            TransactionType::Resolve => self.resolve(transaction),
            TransactionType::Chargeback => self.charge_back(transaction),
        }
    }

    /// The balances of all clients seen, in the order in which the directory
    /// walks them.
    fn into_iter(self) -> (accounts: Vec<BasicAccount>)
    {
        self.client_repository.get_all_account_into_iter()
    }
}

} // verus!

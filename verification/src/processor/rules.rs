//! The processing rules, stated once for both processors.
//!
//! A rule reads and changes one account together with one transaction index
//! and one dispute index: a [`Scope`]. The processors differ only in which
//! indices they hand to the rules.

use vstd::prelude::*;
use crate::account::basic::AccountView;
use crate::amount::AmountView;
use crate::error::ProcessError;
use crate::transaction::{TransactionView, TxId};
use crate::transaction_type::TransactionType;

verus! {

/// An account with the two indices that the rules consult for it.
pub struct Scope {
    pub account: AccountView,
    /// The deposits and withdrawals that can still be disputed.
    pub transactions: Map<TxId, TransactionView>,
    /// The disputes that are open.
    pub disputes: Map<TxId, TransactionView>,
}

/// The amount that a dispute, resolve or chargeback moves: that of the
/// transaction it refers to, which must be a deposit or a withdrawal that
/// carries one.
pub open spec fn disputed_amount(original: TransactionView) -> Option<AmountView> {
    match original.kind {
        TransactionType::Deposit | TransactionType::Withdrawal => original.amount,
        _ => None,
    }
}

/// The amount under the open dispute that `transaction` refers to, or the
/// error that keeps a resolve or chargeback from going ahead: the dispute
/// must be open, the transaction it is about must be in the transaction
/// index, belong to the same client and be a deposit or withdrawal with an
/// amount.
pub open spec fn open_dispute(
    transactions: Map<TxId, TransactionView>,
    disputes: Map<TxId, TransactionView>,
    transaction: TransactionView,
) -> Result<AmountView, ProcessError> {
    if !disputes.contains_key(transaction.tx_id) {
        Err(ProcessError::DisputedTransactionNotFound)
    } else {
        let dispute = disputes[transaction.tx_id];
        if !transactions.contains_key(dispute.tx_id) {
            Err(ProcessError::OrgTransactionNotFound)
        } else {
            let original = transactions[dispute.tx_id];
            if original.client != transaction.client {
                Err(ProcessError::MismatchClientId)
            } else {
                match disputed_amount(original) {
                    Some(amount) => Ok(amount),
                    None => Err(ProcessError::InvalidTransactionTypeOrAmount),
                }
            }
        }
    }
}

impl Scope {
    /// A deposit or withdrawal after `account` has taken its amount: the
    /// transaction enters the transaction index under its own identifier.
    pub open spec fn recorded(self, account: AccountView, transaction: TransactionView) -> Scope {
        Scope {
            account,
            transactions: self.transactions.insert(transaction.tx_id, transaction),
            disputes: self.disputes,
        }
    }

    /// A dispute after `account` has taken it: the dispute enters the dispute
    /// index under the identifier of the transaction it refers to.
    pub open spec fn disputed(self, account: AccountView, transaction: TransactionView) -> Scope {
        Scope {
            account,
            transactions: self.transactions,
            disputes: self.disputes.insert(transaction.tx_id, transaction),
        }
    }

    /// A resolve or chargeback after `account` has taken it: the identifier
    /// leaves both indices, so the transaction cannot be disputed again.
    pub open spec fn concluded(self, account: AccountView, tx_id: TxId) -> Scope {
        Scope {
            account,
            transactions: self.transactions.remove(tx_id),
            disputes: self.disputes.remove(tx_id),
        }
    }

    /// A deposit needs an amount and an identifier that is not in the
    /// transaction index yet; the account takes the amount and the deposit is
    /// recorded.
    pub open spec fn deposit(self, transaction: TransactionView) -> Result<Scope, ProcessError> {
        match transaction.amount {
            None => Err(ProcessError::AmountNotFound),
            Some(amount) => if self.transactions.contains_key(transaction.tx_id) {
                Err(ProcessError::TransactionExists)
            } else {
                match self.account.deposit(amount) {
                    Ok(account) => Ok(self.recorded(account, transaction)),
                    Err(error) => Err(error),
                }
            },
        }
    }

    /// A withdrawal needs an amount and an identifier that is not in the
    /// transaction index yet; the account gives the amount and the
    /// withdrawal is recorded.
    pub open spec fn withdrawal(self, transaction: TransactionView) -> Result<
        Scope,
        ProcessError,
    > {
        match transaction.amount {
            None => Err(ProcessError::AmountNotFound),
            Some(amount) => if self.transactions.contains_key(transaction.tx_id) {
                Err(ProcessError::TransactionExists)
            } else {
                match self.account.withdrawal(amount) {
                    Ok(account) => Ok(self.recorded(account, transaction)),
                    Err(error) => Err(error),
                }
            },
        }
    }

    /// A dispute needs a transaction that is in the transaction index, of the
    /// same client and not under dispute already. The amount is that of the
    /// transaction it refers to; what the account does with it depends on
    /// whether that was a deposit or a withdrawal.
    pub open spec fn dispute(self, transaction: TransactionView) -> Result<Scope, ProcessError> {
        if self.disputes.contains_key(transaction.tx_id) {
            Err(ProcessError::TransactionUnderDispute)
        } else if !self.transactions.contains_key(transaction.tx_id) {
            Err(ProcessError::OrgTransactionNotFound)
        } else {
            let original = self.transactions[transaction.tx_id];
            if original.client != transaction.client {
                Err(ProcessError::MismatchClientId)
            } else {
                match (original.kind, original.amount) {
                    (TransactionType::Deposit, Some(amount)) => match self.account.dispute_deposit(
                        amount,
                    ) {
                        Ok(account) => Ok(self.disputed(account, transaction)),
                        Err(error) => Err(error),
                    },
                    (
                        TransactionType::Withdrawal,
                        Some(amount),
                    ) => match self.account.dispute_withdrawal(amount) {
                        Ok(account) => Ok(self.disputed(account, transaction)),
                        Err(error) => Err(error),
                    },
                    _ => Err(ProcessError::InvalidTransactionTypeOrAmount),
                }
            }
        }
    }

    /// The amount under the open dispute that `transaction` refers to, or the
    /// error that keeps a resolve or chargeback from going ahead.
    pub open spec fn open_dispute(self, transaction: TransactionView) -> Result<
        AmountView,
        ProcessError,
    > {
        open_dispute(self.transactions, self.disputes, transaction)
    }

    /// A resolve needs an open dispute; the account releases the disputed
    /// amount and the transaction leaves both indices.
    pub open spec fn resolve(self, transaction: TransactionView) -> Result<Scope, ProcessError> {
        match self.open_dispute(transaction) {
            Err(error) => Err(error),
            Ok(amount) => match self.account.resolve(amount) {
                Ok(account) => Ok(self.concluded(account, transaction.tx_id)),
                Err(error) => Err(error),
            },
        }
    }

    /// A chargeback needs an open dispute; the account gives up the disputed
    /// amount and is locked, and the transaction leaves both indices.
    pub open spec fn chargeback(self, transaction: TransactionView) -> Result<
        Scope,
        ProcessError,
    > {
        match self.open_dispute(transaction) {
            Err(error) => Err(error),
            Ok(amount) => match self.account.chargeback(amount) {
                Ok(account) => Ok(self.concluded(account, transaction.tx_id)),
                Err(error) => Err(error),
            },
        }
    }

    /// What the rule of the transaction's type does to an account that is not
    /// locked.
    pub open spec fn rule(self, transaction: TransactionView) -> Result<Scope, ProcessError> {
        match transaction.kind {
            TransactionType::Deposit => self.deposit(transaction),
            TransactionType::Withdrawal => self.withdrawal(transaction),
            TransactionType::Dispute => self.dispute(transaction),
            TransactionType::Resolve => self.resolve(transaction),
            TransactionType::Chargeback => self.chargeback(transaction),
        }
    }

    /// The guard that stands before every rule: a locked account turns every
    /// transaction down, whatever the rule would have said.
    pub open spec fn guard(self, ruled: Result<Scope, ProcessError>) -> Result<
        Scope,
        ProcessError,
    > {
        if self.account.locked {
            Err(ProcessError::AccountLocked)
        } else {
            ruled
        }
    }

    /// What one transaction does to the account it names and to the indices.
    pub open spec fn process(self, transaction: TransactionView) -> Result<Scope, ProcessError> {
        self.guard(self.rule(transaction))
    }
}

/// The verdict of the rules on a transaction that they turn down with
/// `error`.
pub open spec fn refused(error: ProcessError) -> Result<Scope, ProcessError> {
    Err(error)
}

impl Scope {
    /// While nothing is held, a deposit or withdrawal that goes through
    /// leaves nothing held and the account balanced.
    pub proof fn lemma_deposit_withdrawal_balanced(self, transaction: TransactionView)
        requires
            self.account.held.is_zero(),
            transaction.kind == TransactionType::Deposit || transaction.kind
                == TransactionType::Withdrawal,
        ensures
            self.process(transaction) matches Ok(after) ==> after.account.held == self.account.held
                && after.account.balanced(),
    {
        if let Some(amount) = transaction.amount {
            self.account.lemma_deposit_withdrawal_balanced(amount);
        }
    }

    /// A deposit or withdrawal whose identifier is already in the transaction
    /// index is turned down as a duplicate.
    pub proof fn lemma_duplicate_turned_down(self, transaction: TransactionView)
        requires
            transaction.kind == TransactionType::Deposit || transaction.kind
                == TransactionType::Withdrawal,
            transaction.amount is Some,
            !self.account.locked,
            self.transactions.contains_key(transaction.tx_id),
        ensures
            self.process(transaction) == refused(
                ProcessError::TransactionExists,
            ),
    {
    }

    /// A deposit or withdrawal that went through is turned down as a
    /// duplicate when it comes again.
    pub proof fn lemma_repeated_turned_down(self, transaction: TransactionView)
        requires
            transaction.kind == TransactionType::Deposit || transaction.kind
                == TransactionType::Withdrawal,
            self.process(transaction) is Ok,
        ensures
            self.process(transaction)->Ok_0.process(transaction) == refused(
                ProcessError::TransactionExists,
            ),
    {
        let amount = transaction.amount->0;
        self.account.lemma_lock(amount);
    }

    /// A dispute on a deposit followed by its resolve gives the available and
    /// the held funds back their worth from before the dispute, provided the
    /// computations on the way did not have to round.
    pub proof fn lemma_dispute_resolve_restores(
        self,
        dispute: TransactionView,
        resolve: TransactionView,
    )
        requires
            dispute.kind == TransactionType::Dispute,
            resolve.kind == TransactionType::Resolve,
            resolve.tx_id == dispute.tx_id,
            self.process(dispute) is Ok,
            self.process(dispute)->Ok_0.process(resolve) is Ok,
            self.transactions[dispute.tx_id].kind == TransactionType::Deposit,
            self.account.moves_exactly(self.transactions[dispute.tx_id].amount->0),
        ensures
            ({
                let resolved = self.process(dispute)->Ok_0.process(resolve)->Ok_0;
                &&& resolved.account.available.units() == self.account.available.units()
                &&& resolved.account.held.units() == self.account.held.units()
                &&& resolved.account.locked == self.account.locked
            }),
    {
        let amount = self.transactions[dispute.tx_id].amount->0;
        self.account.lemma_dispute_resolve_restores(amount);
    }

    /// Once a dispute has been resolved or charged back, the transaction it
    /// was about has left both indices.
    pub proof fn lemma_concluded_leaves_indices(self, transaction: TransactionView)
        requires
            transaction.kind == TransactionType::Resolve || transaction.kind
                == TransactionType::Chargeback,
            self.process(transaction) is Ok,
        ensures
            !self.process(transaction)->Ok_0.transactions.contains_key(transaction.tx_id),
            !self.process(transaction)->Ok_0.disputes.contains_key(transaction.tx_id),
    {
    }

    /// A transaction that is in neither index cannot be disputed: on an
    /// account that is not locked the dispute is turned down because the
    /// original is not found.
    pub proof fn lemma_unknown_not_disputable(self, dispute: TransactionView)
        requires
            dispute.kind == TransactionType::Dispute,
            !self.account.locked,
            !self.transactions.contains_key(dispute.tx_id),
            !self.disputes.contains_key(dispute.tx_id),
        ensures
            self.process(dispute) == refused(
                ProcessError::OrgTransactionNotFound,
            ),
    {
    }

    /// Whatever transaction goes through, the total of the account is the
    /// checked sum of its available and its held funds afterwards.
    pub proof fn lemma_summed(self, transaction: TransactionView)
        requires
            self.process(transaction) is Ok,
        ensures
            self.process(transaction)->Ok_0.account.summed(),
    {
        match transaction.kind {
            TransactionType::Deposit | TransactionType::Withdrawal => {
                self.account.lemma_summed(transaction.amount->0);
            },
            TransactionType::Dispute => {
                self.account.lemma_summed(self.transactions[transaction.tx_id].amount->0);
            },
            _ => {
                self.account.lemma_summed(self.open_dispute(transaction)->Ok_0);
            },
        }
    }

    /// An identifier that is in neither index stays out of both unless a
    /// deposit or withdrawal brings it in.
    pub proof fn lemma_stays_out(self, transaction: TransactionView, id: TxId)
        requires
            !self.transactions.contains_key(id),
            !self.disputes.contains_key(id),
            transaction.tx_id == id ==> transaction.kind != TransactionType::Deposit
                && transaction.kind != TransactionType::Withdrawal,
            self.process(transaction) is Ok,
        ensures
            !self.process(transaction)->Ok_0.transactions.contains_key(id),
            !self.process(transaction)->Ok_0.disputes.contains_key(id),
    {
    }

    /// A chargeback that goes through locks the account; every other
    /// transaction that goes through leaves the lock open.
    pub proof fn lemma_lock(self, transaction: TransactionView)
        requires
            self.process(transaction) is Ok,
        ensures
            self.process(transaction)->Ok_0.account.locked == (transaction.kind
                == TransactionType::Chargeback),
            !self.account.locked,
    {
        match transaction.kind {
            TransactionType::Deposit | TransactionType::Withdrawal => {
                self.account.lemma_lock(transaction.amount->0);
            },
            TransactionType::Dispute => {
                self.account.lemma_lock(self.transactions[transaction.tx_id].amount->0);
            },
            _ => {
                self.account.lemma_lock(self.open_dispute(transaction)->Ok_0);
            },
        }
    }

    /// A locked account turns every transaction down, whatever its type.
    pub proof fn lemma_locked_turns_down(self, transaction: TransactionView)
        requires
            self.account.locked,
        ensures
            self.process(transaction) == refused(ProcessError::AccountLocked),
    {
    }

    /// No transaction changes which client an account belongs to.
    pub proof fn lemma_client_kept(self, transaction: TransactionView)
        requires
            self.process(transaction) is Ok,
        ensures
            self.process(transaction)->Ok_0.account.client == self.account.client,
    {
    }
}

} // verus!

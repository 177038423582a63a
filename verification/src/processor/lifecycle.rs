//! What holds of every run of the processors: balances stay balanced, a
//! duplicate is turned down, a resolved dispute gives the funds back, and a
//! chargeback locks for good.

use vstd::prelude::*;
use crate::account::basic::AccountView;
use crate::client::Client;
use crate::error::{turned_down, ProcessError};
use crate::processor::basic_processor::BasicLedger;
use crate::processor::wrap_processor::WrapLedger;
use crate::repository::basic_account_repository::touch;
use crate::repository::wrap_account_repository::touch_scope;
use crate::transaction::{TransactionView, TxId};
use crate::transaction_type::TransactionType;

verus! {

/// Whether the transaction is a deposit or a withdrawal.
pub open spec fn moves_funds(transaction: TransactionView) -> bool {
    transaction.kind == TransactionType::Deposit || transaction.kind
        == TransactionType::Withdrawal
}

/// Whether nothing is held on the account and its total is worth what is
/// available.
pub open spec fn nothing_held(account: AccountView) -> bool {
    account.held.is_zero() && account.balanced()
}

impl BasicLedger {
    /// The account of `client`, whether or not the client has been seen.
    pub open spec fn account(self, client: Client) -> AccountView {
        self.scope(client).account
    }

    /// Replaying one transaction more is taking one more step.
    pub proof fn lemma_replay_step(self, transactions: Seq<TransactionView>, index: int)
        requires
            0 <= index < transactions.len(),
        ensures
            self.replay(transactions.take(index + 1)) == self.replay(
                transactions.take(index),
            ).step(transactions[index]).0,
    {
        assert(transactions.take(index + 1).drop_last() =~= transactions.take(index));
    }

    /// A transaction leaves the accounts of all other clients as they are.
    pub proof fn lemma_others_untouched(self, transaction: TransactionView, client: Client)
        requires
            client != transaction.client,
        ensures
            self.step(transaction).0.accounts.contains_key(client) == self.accounts.contains_key(
                client,
            ),
            self.step(transaction).0.account(client) == self.account(client),
    {
    }

    /// A client that has been seen stays in the ledger, and the transaction's
    /// client is in the ledger afterwards whatever the result.
    pub proof fn lemma_clients_stay(self, transaction: TransactionView, client: Client)
        ensures
            self.step(transaction).0.accounts.contains_key(transaction.client),
            self.accounts.contains_key(client) ==> self.step(transaction).0.accounts.contains_key(
                client,
            ),
    {
    }

    /// A transaction that is turned down leaves every balance as it was.
    pub proof fn lemma_turned_down_changes_nothing(self, transaction: TransactionView, client: Client)
        requires
            self.step(transaction).1 is Err,
        ensures
            self.step(transaction).0.account(client) == self.account(client),
            self.step(transaction).0.transactions == self.transactions,
            self.step(transaction).0.disputes == self.disputes,
    {
    }

    /// As long as the transactions of `client` are deposits and withdrawals
    /// only, nothing is ever held on the client's account and its total is
    /// worth what is available, after every transaction of the run.
    pub proof fn lemma_deposits_withdrawals_balanced(
        self,
        transactions: Seq<TransactionView>,
        client: Client,
    )
        requires
            nothing_held(self.account(client)),
            forall|i: int|
                0 <= i < transactions.len() && transactions[i].client == client ==> moves_funds(
                    #[trigger] transactions[i],
                ),
        ensures
            forall|n: int|
                0 <= n <= transactions.len() ==> nothing_held(
                    #[trigger] self.replay(transactions.take(n)).account(client),
                ),
        decreases transactions.len(),
    {
        assert forall|n: int| 0 <= n <= transactions.len() implies nothing_held(
            #[trigger] self.replay(transactions.take(n)).account(client),
        ) by {
            if n == 0 {
                assert(transactions.take(0) =~= Seq::empty());
            } else {
                let shorter = transactions.take(n - 1);
                assert forall|i: int|
                    0 <= i < shorter.len() && shorter[i].client == client implies moves_funds(
                    #[trigger] shorter[i],
                ) by {
                    assert(shorter[i] == transactions[i]);
                }
                self.lemma_deposits_withdrawals_balanced(shorter, client);
                assert(shorter.take(n - 1) =~= shorter);
                let before = self.replay(shorter);
                assert(nothing_held(before.account(client)));
                self.lemma_replay_step(transactions, n - 1);
                let transaction = transactions[n - 1];
                if transaction.client == client {
                    before.scope(client).lemma_deposit_withdrawal_balanced(transaction);
                } else {
                    before.lemma_others_untouched(transaction, client);
                }
            }
        }
    }

    /// Throughout a run from a fresh ledger, the total of every account is
    /// the checked sum of its available and its held funds.
    pub proof fn lemma_totals_summed(transactions: Seq<TransactionView>, client: Client)
        ensures
            forall|n: int|
                0 <= n <= transactions.len() ==> (#[trigger] BasicLedger::empty().replay(
                    transactions.take(n),
                )).account(client).summed(),
        decreases transactions.len(),
    {
        assert forall|n: int| 0 <= n <= transactions.len() implies (
        #[trigger] BasicLedger::empty().replay(transactions.take(n))).account(client).summed() by {
            if n == 0 {
                assert(transactions.take(0) =~= Seq::empty());
                AccountView::lemma_new_balanced(client);
            } else {
                let shorter = transactions.take(n - 1);
                Self::lemma_totals_summed(shorter, client);
                assert(shorter.take(n - 1) =~= shorter);
                let before = BasicLedger::empty().replay(shorter);
                BasicLedger::empty().lemma_replay_step(transactions, n - 1);
                let transaction = transactions[n - 1];
                if transaction.client == client {
                    if before.step(transaction).1 is Ok {
                        before.scope(client).lemma_summed(transaction);
                    }
                } else {
                    before.lemma_others_untouched(transaction, client);
                }
            }
        }
    }

    /// Throughout a run from a fresh ledger in which the transactions of
    /// `client` are deposits and withdrawals only, nothing is held on the
    /// client's account and its total is worth what is available.
    pub proof fn lemma_fresh_run_balanced(transactions: Seq<TransactionView>, client: Client)
        requires
            forall|i: int|
                0 <= i < transactions.len() && transactions[i].client == client ==> moves_funds(
                    #[trigger] transactions[i],
                ),
        ensures
            forall|n: int|
                0 <= n <= transactions.len() ==> nothing_held(
                    #[trigger] BasicLedger::empty().replay(transactions.take(n)).account(client),
                ),
    {
        Self::lemma_empty_nothing_held(client);
        BasicLedger::empty().lemma_deposits_withdrawals_balanced(transactions, client);
    }

    /// A fresh ledger holds nothing for anyone.
    pub proof fn lemma_empty_nothing_held(client: Client)
        ensures
            nothing_held(BasicLedger::empty().account(client)),
    {
        AccountView::lemma_new_balanced(client);
    }

    /// A deposit or withdrawal whose identifier is in the transaction index
    /// that the rules consult for its client is turned down as a duplicate,
    /// and no balance changes.
    pub proof fn lemma_duplicate_turned_down(self, transaction: TransactionView)
        requires
            moves_funds(transaction),
            transaction.amount is Some,
            !self.account(transaction.client).locked,
            self.scope(transaction.client).transactions.contains_key(transaction.tx_id),
        ensures
            self.step(transaction).1 == turned_down(ProcessError::TransactionExists),
            forall|client: Client| #[trigger]
                self.step(transaction).0.account(client) == self.account(client),
    {
    }

    /// A deposit or withdrawal that went through is turned down as a
    /// duplicate when it comes again, and no balance changes.
    pub proof fn lemma_repeated_turned_down(self, transaction: TransactionView)
        requires
            moves_funds(transaction),
            self.step(transaction).1 is Ok,
        ensures
            self.step(transaction).0.step(transaction).1 == turned_down(
                ProcessError::TransactionExists,
            ),
            forall|client: Client| #[trigger]
                self.step(transaction).0.step(transaction).0.account(client) == self.step(
                    transaction,
                ).0.account(client),
    {
        self.scope(transaction.client).lemma_repeated_turned_down(transaction);
    }

    /// A dispute on a deposit followed by its resolve gives the client's
    /// available and held funds back their worth from before the dispute,
    /// provided the computations on the way did not have to round; and the
    /// transaction cannot be disputed again.
    pub proof fn lemma_dispute_resolve_restores(
        self,
        dispute: TransactionView,
        resolve: TransactionView,
        again: TransactionView,
    )
        requires
            dispute.kind == TransactionType::Dispute,
            resolve.kind == TransactionType::Resolve,
            again.kind == TransactionType::Dispute,
            resolve.tx_id == dispute.tx_id,
            again.tx_id == dispute.tx_id,
            resolve.client == dispute.client,
            again.client == dispute.client,
            self.step(dispute).1 is Ok,
            self.step(dispute).0.step(resolve).1 is Ok,
            self.scope(dispute.client).transactions[dispute.tx_id].kind
                == TransactionType::Deposit,
            self.account(dispute.client).moves_exactly(
                self.scope(dispute.client).transactions[dispute.tx_id].amount->0,
            ),
        ensures
            ({
                let resolved = self.step(dispute).0.step(resolve).0;
                &&& resolved.account(dispute.client).available.units() == self.account(
                    dispute.client,
                ).available.units()
                &&& resolved.account(dispute.client).held.units() == self.account(
                    dispute.client,
                ).held.units()
                &&& resolved.step(again).1 == turned_down(
                    ProcessError::OrgTransactionNotFound,
                )
            }),
    {
        let client = dispute.client;
        let disputed = self.step(dispute).0;
        let resolved = disputed.step(resolve).0;
        self.scope(client).lemma_dispute_resolve_restores(dispute, resolve);
        disputed.scope(client).lemma_concluded_leaves_indices(resolve);
        disputed.scope(client).lemma_lock(resolve);
        resolved.scope(client).lemma_unknown_not_disputable(again);
    }

    /// Once an identifier has left both indices, as it has after a resolve
    /// or chargeback, it stays out through whatever follows, unless a deposit
    /// or withdrawal of whichever client brings it in again: a dispute on it is
    /// never accepted again.
    pub proof fn lemma_never_disputable_again(
        self,
        transactions: Seq<TransactionView>,
        client: Client,
        id: TxId,
    )
        requires
            !self.scope(client).transactions.contains_key(id),
            !self.scope(client).disputes.contains_key(id),
            forall|i: int|
                0 <= i < transactions.len() && (#[trigger] transactions[i]).tx_id == id
                    && moves_funds(transactions[i]) ==> false,
        ensures
            forall|n: int|
                0 <= n <= transactions.len() ==> {
                    let later = #[trigger] self.replay(transactions.take(n));
                    &&& !later.scope(client).transactions.contains_key(id)
                    &&& !later.scope(client).disputes.contains_key(id)
                },
            forall|n: int|
                0 <= n < transactions.len() && transactions[n].kind == TransactionType::Dispute
                    && transactions[n].tx_id == id && transactions[n].client == client
                    ==> #[trigger] self.outcome(transactions, n) == turned_down(
                    if self.replay(transactions.take(n)).account(client).locked {
                        ProcessError::AccountLocked
                    } else {
                        ProcessError::OrgTransactionNotFound
                    },
                ),
        decreases transactions.len(),
    {
        assert forall|n: int| 0 <= n <= transactions.len() implies {
            let later = #[trigger] self.replay(transactions.take(n));
            &&& !later.scope(client).transactions.contains_key(id)
            &&& !later.scope(client).disputes.contains_key(id)
        } by {
            if n == 0 {
                assert(transactions.take(0) =~= Seq::empty());
            } else {
                let shorter = transactions.take(n - 1);
                assert forall|i: int|
                    0 <= i < shorter.len() && (#[trigger] shorter[i]).tx_id == id && moves_funds(
                        shorter[i],
                    ) implies false by {
                    assert(shorter[i] == transactions[i]);
                }
                self.lemma_never_disputable_again(shorter, client, id);
                assert(shorter.take(n - 1) =~= shorter);
                let before = self.replay(shorter);
                self.lemma_replay_step(transactions, n - 1);
                let transaction = transactions[n - 1];
                if before.step(transaction).1 is Ok {
                    before.scope(transaction.client).lemma_stays_out(transaction, id);
                }
            }
        }
        assert forall|n: int|
            0 <= n < transactions.len() && transactions[n].kind == TransactionType::Dispute
                && transactions[n].tx_id == id && transactions[n].client
                == client implies #[trigger] self.outcome(transactions, n) == turned_down(
            if self.replay(transactions.take(n)).account(client).locked {
                ProcessError::AccountLocked
            } else {
                ProcessError::OrgTransactionNotFound
            },
        ) by {
            let before = self.replay(transactions.take(n));
            assert(!before.scope(client).transactions.contains_key(id));
        }
    }

    /// A chargeback that goes through locks the client's account.
    pub proof fn lemma_chargeback_locks(self, chargeback: TransactionView)
        requires
            chargeback.kind == TransactionType::Chargeback,
            self.step(chargeback).1 is Ok,
        ensures
            self.step(chargeback).0.account(chargeback.client).locked,
    {
        self.scope(chargeback.client).lemma_lock(chargeback);
    }

    /// A locked account turns every transaction of its client down, whatever
    /// the type, and nothing changes.
    pub proof fn lemma_locked_turns_down(self, transaction: TransactionView)
        requires
            self.account(transaction.client).locked,
        ensures
            self.step(transaction) == (self, turned_down(ProcessError::AccountLocked)),
    {
        AccountView::lemma_new_balanced(transaction.client);
        assert(self.accounts.contains_key(transaction.client));
        assert(touch(self.accounts, transaction.client) == self.accounts);
    }

    /// Once locked, an account stays locked and unchanged through whatever
    /// follows, and every later transaction of its client is turned down
    /// with `AccountLocked`.
    pub proof fn lemma_lock_is_permanent(
        self,
        transactions: Seq<TransactionView>,
        client: Client,
    )
        requires
            self.account(client).locked,
        ensures
            forall|n: int|
                0 <= n <= transactions.len() ==> #[trigger] self.replay(
                    transactions.take(n),
                ).account(client) == self.account(client),
            forall|n: int|
                0 <= n < transactions.len() && transactions[n].client == client
                    ==> #[trigger] self.outcome(transactions, n) == turned_down(
                    ProcessError::AccountLocked,
                ),
        decreases transactions.len(),
    {
        assert forall|n: int| 0 <= n <= transactions.len() implies #[trigger] self.replay(
            transactions.take(n),
        ).account(client) == self.account(client) by {
            if n == 0 {
                assert(transactions.take(0) =~= Seq::empty());
            } else {
                let shorter = transactions.take(n - 1);
                self.lemma_lock_is_permanent(shorter, client);
                assert(shorter.take(n - 1) =~= shorter);
                let before = self.replay(shorter);
                self.lemma_replay_step(transactions, n - 1);
                let transaction = transactions[n - 1];
                if transaction.client == client {
                    before.lemma_locked_turns_down(transaction);
                } else {
                    before.lemma_others_untouched(transaction, client);
                }
            }
        }
        assert forall|n: int|
            0 <= n < transactions.len() && transactions[n].client == client implies #[trigger]
            self.outcome(transactions, n) == turned_down(
            ProcessError::AccountLocked,
        ) by {
            self.replay(transactions.take(n)).lemma_locked_turns_down(transactions[n]);
        }
    }
}

impl WrapLedger {
    /// The account of `client`, whether or not the client has been seen.
    pub open spec fn account(self, client: Client) -> AccountView {
        self.scope(client).account
    }

    /// Replaying one transaction more is taking one more step.
    pub proof fn lemma_replay_step(self, transactions: Seq<TransactionView>, index: int)
        requires
            0 <= index < transactions.len(),
        ensures
            self.replay(transactions.take(index + 1)) == self.replay(
                transactions.take(index),
            ).step(transactions[index]).0,
    {
        assert(transactions.take(index + 1).drop_last() =~= transactions.take(index));
    }

    /// A transaction leaves the accounts of all other clients as they are.
    pub proof fn lemma_others_untouched(self, transaction: TransactionView, client: Client)
        requires
            client != transaction.client,
        ensures
            self.step(transaction).0.accounts.contains_key(client) == self.accounts.contains_key(
                client,
            ),
            self.step(transaction).0.account(client) == self.account(client),
    {
    }

    /// A client that has been seen stays in the ledger, and the transaction's
    /// client is in the ledger afterwards whatever the result.
    pub proof fn lemma_clients_stay(self, transaction: TransactionView, client: Client)
        ensures
            self.step(transaction).0.accounts.contains_key(transaction.client),
            self.accounts.contains_key(client) ==> self.step(transaction).0.accounts.contains_key(
                client,
            ),
    {
    }

    /// A transaction that is turned down leaves every balance as it was.
    pub proof fn lemma_turned_down_changes_nothing(self, transaction: TransactionView, client: Client)
        requires
            self.step(transaction).1 is Err,
        ensures
            self.step(transaction).0.account(client) == self.account(client),
            self.step(transaction).0.scope(client) == self.scope(client),
    {
    }

    /// As long as the transactions of `client` are deposits and withdrawals
    /// only, nothing is ever held on the client's account and its total is
    /// worth what is available, after every transaction of the run.
    pub proof fn lemma_deposits_withdrawals_balanced(
        self,
        transactions: Seq<TransactionView>,
        client: Client,
    )
        requires
            nothing_held(self.account(client)),
            forall|i: int|
                0 <= i < transactions.len() && transactions[i].client == client ==> moves_funds(
                    #[trigger] transactions[i],
                ),
        ensures
            forall|n: int|
                0 <= n <= transactions.len() ==> nothing_held(
                    #[trigger] self.replay(transactions.take(n)).account(client),
                ),
        decreases transactions.len(),
    {
        assert forall|n: int| 0 <= n <= transactions.len() implies nothing_held(
            #[trigger] self.replay(transactions.take(n)).account(client),
        ) by {
            if n == 0 {
                assert(transactions.take(0) =~= Seq::empty());
            } else {
                let shorter = transactions.take(n - 1);
                assert forall|i: int|
                    0 <= i < shorter.len() && shorter[i].client == client implies moves_funds(
                    #[trigger] shorter[i],
                ) by {
                    assert(shorter[i] == transactions[i]);
                }
                self.lemma_deposits_withdrawals_balanced(shorter, client);
                assert(shorter.take(n - 1) =~= shorter);
                let before = self.replay(shorter);
                assert(nothing_held(before.account(client)));
                self.lemma_replay_step(transactions, n - 1);
                let transaction = transactions[n - 1];
                if transaction.client == client {
                    before.scope(client).lemma_deposit_withdrawal_balanced(transaction);
                } else {
                    before.lemma_others_untouched(transaction, client);
                }
            }
        }
    }

    /// Throughout a run from a fresh ledger, the total of every account is
    /// the checked sum of its available and its held funds.
    pub proof fn lemma_totals_summed(transactions: Seq<TransactionView>, client: Client)
        ensures
            forall|n: int|
                0 <= n <= transactions.len() ==> (#[trigger] WrapLedger::empty().replay(
                    transactions.take(n),
                )).account(client).summed(),
        decreases transactions.len(),
    {
        assert forall|n: int| 0 <= n <= transactions.len() implies (
        #[trigger] WrapLedger::empty().replay(transactions.take(n))).account(client).summed() by {
            if n == 0 {
                assert(transactions.take(0) =~= Seq::empty());
                AccountView::lemma_new_balanced(client);
            } else {
                let shorter = transactions.take(n - 1);
                Self::lemma_totals_summed(shorter, client);
                assert(shorter.take(n - 1) =~= shorter);
                let before = WrapLedger::empty().replay(shorter);
                WrapLedger::empty().lemma_replay_step(transactions, n - 1);
                let transaction = transactions[n - 1];
                if transaction.client == client {
                    if before.step(transaction).1 is Ok {
                        before.scope(client).lemma_summed(transaction);
                    }
                } else {
                    before.lemma_others_untouched(transaction, client);
                }
            }
        }
    }

    /// Throughout a run from a fresh ledger in which the transactions of
    /// `client` are deposits and withdrawals only, nothing is held on the
    /// client's account and its total is worth what is available.
    pub proof fn lemma_fresh_run_balanced(transactions: Seq<TransactionView>, client: Client)
        requires
            forall|i: int|
                0 <= i < transactions.len() && transactions[i].client == client ==> moves_funds(
                    #[trigger] transactions[i],
                ),
        ensures
            forall|n: int|
                0 <= n <= transactions.len() ==> nothing_held(
                    #[trigger] WrapLedger::empty().replay(transactions.take(n)).account(client),
                ),
    {
        Self::lemma_empty_nothing_held(client);
        WrapLedger::empty().lemma_deposits_withdrawals_balanced(transactions, client);
    }

    /// A fresh ledger holds nothing for anyone.
    pub proof fn lemma_empty_nothing_held(client: Client)
        ensures
            nothing_held(WrapLedger::empty().account(client)),
    {
        AccountView::lemma_new_balanced(client);
    }

    /// A deposit or withdrawal whose identifier is in the transaction index
    /// that the rules consult for its client is turned down as a duplicate,
    /// and no balance changes.
    pub proof fn lemma_duplicate_turned_down(self, transaction: TransactionView)
        requires
            moves_funds(transaction),
            transaction.amount is Some,
            !self.account(transaction.client).locked,
            self.scope(transaction.client).transactions.contains_key(transaction.tx_id),
        ensures
            self.step(transaction).1 == turned_down(ProcessError::TransactionExists),
            forall|client: Client| #[trigger]
                self.step(transaction).0.account(client) == self.account(client),
    {
    }

    /// A deposit or withdrawal that went through is turned down as a
    /// duplicate when it comes again, and no balance changes.
    pub proof fn lemma_repeated_turned_down(self, transaction: TransactionView)
        requires
            moves_funds(transaction),
            self.step(transaction).1 is Ok,
        ensures
            self.step(transaction).0.step(transaction).1 == turned_down(
                ProcessError::TransactionExists,
            ),
            forall|client: Client| #[trigger]
                self.step(transaction).0.step(transaction).0.account(client) == self.step(
                    transaction,
                ).0.account(client),
    {
        self.scope(transaction.client).lemma_repeated_turned_down(transaction);
    }

    /// A dispute on a deposit followed by its resolve gives the client's
    /// available and held funds back their worth from before the dispute,
    /// provided the computations on the way did not have to round; and the
    /// transaction cannot be disputed again.
    pub proof fn lemma_dispute_resolve_restores(
        self,
        dispute: TransactionView,
        resolve: TransactionView,
        again: TransactionView,
    )
        requires
            dispute.kind == TransactionType::Dispute,
            resolve.kind == TransactionType::Resolve,
            again.kind == TransactionType::Dispute,
            resolve.tx_id == dispute.tx_id,
            again.tx_id == dispute.tx_id,
            resolve.client == dispute.client,
            again.client == dispute.client,
            self.step(dispute).1 is Ok,
            self.step(dispute).0.step(resolve).1 is Ok,
            self.scope(dispute.client).transactions[dispute.tx_id].kind
                == TransactionType::Deposit,
            self.account(dispute.client).moves_exactly(
                self.scope(dispute.client).transactions[dispute.tx_id].amount->0,
            ),
        ensures
            ({
                let resolved = self.step(dispute).0.step(resolve).0;
                &&& resolved.account(dispute.client).available.units() == self.account(
                    dispute.client,
                ).available.units()
                &&& resolved.account(dispute.client).held.units() == self.account(
                    dispute.client,
                ).held.units()
                &&& resolved.step(again).1 == turned_down(
                    ProcessError::OrgTransactionNotFound,
                )
            }),
    {
        let client = dispute.client;
        let disputed = self.step(dispute).0;
        let resolved = disputed.step(resolve).0;
        self.scope(client).lemma_dispute_resolve_restores(dispute, resolve);
        disputed.scope(client).lemma_concluded_leaves_indices(resolve);
        disputed.scope(client).lemma_lock(resolve);
        resolved.scope(client).lemma_unknown_not_disputable(again);
    }

    /// Once an identifier has left both indices, as it has after a resolve
    /// or chargeback, it stays out through whatever follows, unless a deposit
    /// or withdrawal of the client brings it in again: a dispute on it is
    /// never accepted again.
    pub proof fn lemma_never_disputable_again(
        self,
        transactions: Seq<TransactionView>,
        client: Client,
        id: TxId,
    )
        requires
            !self.scope(client).transactions.contains_key(id),
            !self.scope(client).disputes.contains_key(id),
            forall|i: int|
                0 <= i < transactions.len() && (#[trigger] transactions[i]).tx_id == id
                    && moves_funds(transactions[i]) ==> transactions[i].client != client,
        ensures
            forall|n: int|
                0 <= n <= transactions.len() ==> {
                    let later = #[trigger] self.replay(transactions.take(n));
                    &&& !later.scope(client).transactions.contains_key(id)
                    &&& !later.scope(client).disputes.contains_key(id)
                },
            forall|n: int|
                0 <= n < transactions.len() && transactions[n].kind == TransactionType::Dispute
                    && transactions[n].tx_id == id && transactions[n].client == client
                    ==> #[trigger] self.outcome(transactions, n) == turned_down(
                    if self.replay(transactions.take(n)).account(client).locked {
                        ProcessError::AccountLocked
                    } else {
                        ProcessError::OrgTransactionNotFound
                    },
                ),
        decreases transactions.len(),
    {
        assert forall|n: int| 0 <= n <= transactions.len() implies {
            let later = #[trigger] self.replay(transactions.take(n));
            &&& !later.scope(client).transactions.contains_key(id)
            &&& !later.scope(client).disputes.contains_key(id)
        } by {
            if n == 0 {
                assert(transactions.take(0) =~= Seq::empty());
            } else {
                let shorter = transactions.take(n - 1);
                assert forall|i: int|
                    0 <= i < shorter.len() && (#[trigger] shorter[i]).tx_id == id && moves_funds(
                        shorter[i],
                    ) implies shorter[i].client != client by {
                    assert(shorter[i] == transactions[i]);
                }
                self.lemma_never_disputable_again(shorter, client, id);
                assert(shorter.take(n - 1) =~= shorter);
                let before = self.replay(shorter);
                self.lemma_replay_step(transactions, n - 1);
                let transaction = transactions[n - 1];
                if transaction.client == client {
                    if before.step(transaction).1 is Ok {
                        before.scope(client).lemma_stays_out(transaction, id);
                    }
                } else {
                    before.lemma_others_untouched(transaction, client);
                    assert(before.step(transaction).0.scope(client) == before.scope(client));
                }
            }
        }
        assert forall|n: int|
            0 <= n < transactions.len() && transactions[n].kind == TransactionType::Dispute
                && transactions[n].tx_id == id && transactions[n].client
                == client implies #[trigger] self.outcome(transactions, n) == turned_down(
            if self.replay(transactions.take(n)).account(client).locked {
                ProcessError::AccountLocked
            } else {
                ProcessError::OrgTransactionNotFound
            },
        ) by {
            let before = self.replay(transactions.take(n));
            assert(!before.scope(client).transactions.contains_key(id));
        }
    }

    /// A chargeback that goes through locks the client's account.
    pub proof fn lemma_chargeback_locks(self, chargeback: TransactionView)
        requires
            chargeback.kind == TransactionType::Chargeback,
            self.step(chargeback).1 is Ok,
        ensures
            self.step(chargeback).0.account(chargeback.client).locked,
    {
        self.scope(chargeback.client).lemma_lock(chargeback);
    }

    /// A locked account turns every transaction of its client down, whatever
    /// the type, and nothing changes.
    pub proof fn lemma_locked_turns_down(self, transaction: TransactionView)
        requires
            self.account(transaction.client).locked,
        ensures
            self.step(transaction) == (self, turned_down(ProcessError::AccountLocked)),
    {
        AccountView::lemma_new_balanced(transaction.client);
        assert(self.accounts.contains_key(transaction.client));
        assert(touch_scope(self.accounts, transaction.client) == self.accounts);
    }

    /// Once locked, an account stays locked and unchanged through whatever
    /// follows, and every later transaction of its client is turned down
    /// with `AccountLocked`.
    pub proof fn lemma_lock_is_permanent(
        self,
        transactions: Seq<TransactionView>,
        client: Client,
    )
        requires
            self.account(client).locked,
        ensures
            forall|n: int|
                0 <= n <= transactions.len() ==> #[trigger] self.replay(
                    transactions.take(n),
                ).account(client) == self.account(client),
            forall|n: int|
                0 <= n < transactions.len() && transactions[n].client == client
                    ==> #[trigger] self.outcome(transactions, n) == turned_down(
                    ProcessError::AccountLocked,
                ),
        decreases transactions.len(),
    {
        assert forall|n: int| 0 <= n <= transactions.len() implies #[trigger] self.replay(
            transactions.take(n),
        ).account(client) == self.account(client) by {
            if n == 0 {
                assert(transactions.take(0) =~= Seq::empty());
            } else {
                let shorter = transactions.take(n - 1);
                self.lemma_lock_is_permanent(shorter, client);
                assert(shorter.take(n - 1) =~= shorter);
                let before = self.replay(shorter);
                self.lemma_replay_step(transactions, n - 1);
                let transaction = transactions[n - 1];
                if transaction.client == client {
                    before.lemma_locked_turns_down(transaction);
                } else {
                    before.lemma_others_untouched(transaction, client);
                }
            }
        }
        assert forall|n: int|
            0 <= n < transactions.len() && transactions[n].client == client implies #[trigger]
            self.outcome(transactions, n) == turned_down(
            ProcessError::AccountLocked,
        ) by {
            self.replay(transactions.take(n)).lemma_locked_turns_down(transactions[n]);
        }
    }
}

} // verus!

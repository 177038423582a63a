//! Replaying a whole input through a processor.

use vstd::prelude::*;
use crate::account::basic::BasicAccount;
use crate::processor::basic_processor::{BasicLedger, BasicTransactionProcessor};
use crate::processor::equivalence::{lemma_processors_agree, one_client_per_id};
use crate::processor::wrap_processor::{WrapLedger, WrapTransactionProcessor};
use crate::repository::basic_account_repository::{lists, views};
use crate::transaction::{Transaction, TransactionView};
use crate::TransactionProcessor;

verus! {

/// The ledger after all of `transactions`, applied in order from `ledger`.
/// Whether a transaction is applied or turned down, the next one follows.
pub open spec fn replay<P: TransactionProcessor>(
    ledger: P::Ledger,
    transactions: Seq<TransactionView>,
) -> P::Ledger
    decreases transactions.len(),
{
    if transactions.len() == 0 {
        ledger
    } else {
        P::step(replay::<P>(ledger, transactions.drop_last()), transactions.last()).0
    }
}

/// The views of a sequence of transactions.
pub open spec fn transaction_views(transactions: Seq<Transaction>) -> Seq<TransactionView> {
    Seq::new(transactions.len(), |i: int| transactions[i]@)
}

/// Sends every transaction through the processor, in order, and hands out
/// the accounts that result. A transaction that the processor turns down is
/// passed over.
pub fn process<P: TransactionProcessor>(transactions: Vec<Transaction>, processor: P) -> (accounts:
    Vec<BasicAccount>)
    ensures
        lists(
            views(accounts@),
            P::balances(replay::<P>(processor.ledger(), transaction_views(transactions@))),
        ),
{
    let mut processor = processor;
    let ghost start = processor.ledger();
    let mut i: usize = 0;
    while i < transactions.len()
        invariant
            i <= transactions.len(),
            processor.ledger() == replay::<P>(start, transaction_views(transactions@).take(i as int)),
        decreases transactions.len() - i,
    {
        let ghost before = transaction_views(transactions@).take(i as int);
        let _ = processor.process(transactions[i]);
        i = i + 1;
        proof {
            let now = transaction_views(transactions@).take(i as int);
            assert(now.drop_last() =~= before);
            assert(now.last() == transactions[i - 1]@);
        }
    }
    proof {
        assert(transaction_views(transactions@).take(i as int) =~= transaction_views(
            transactions@,
        ));
    }
    processor.into_iter()
}

/// Replaying through the processor with shared indices is replaying its
/// ledger.
pub proof fn lemma_replay_basic(ledger: BasicLedger, transactions: Seq<TransactionView>)
    ensures
        replay::<BasicTransactionProcessor>(ledger, transactions) == ledger.replay(transactions),
    decreases transactions.len(),
{
    if transactions.len() > 0 {
        lemma_replay_basic(ledger, transactions.drop_last());
    }
}

/// Replaying through the processor with per-client indices is replaying its
/// ledger.
pub proof fn lemma_replay_wrap(ledger: WrapLedger, transactions: Seq<TransactionView>)
    ensures
        replay::<WrapTransactionProcessor>(ledger, transactions) == ledger.replay(transactions),
    decreases transactions.len(),
{
    if transactions.len() > 0 {
        lemma_replay_wrap(ledger, transactions.drop_last());
    }
}

/// Whichever of the two processors replays an input in which every
/// identifier belongs to one client, the balances that come out are the
/// same.
pub proof fn lemma_same_balances(transactions: Seq<TransactionView>)
    requires
        one_client_per_id(transactions),
    ensures
        <BasicTransactionProcessor as TransactionProcessor>::balances(
            replay::<BasicTransactionProcessor>(BasicLedger::empty(), transactions),
        ) == <WrapTransactionProcessor as TransactionProcessor>::balances(
            replay::<WrapTransactionProcessor>(WrapLedger::empty(), transactions),
        ),
{
    lemma_replay_basic(BasicLedger::empty(), transactions);
    lemma_replay_wrap(WrapLedger::empty(), transactions);
    lemma_processors_agree(transactions);
}

} // verus!

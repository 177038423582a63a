//! The two processors are one state machine: on an input in which no
//! transaction identifier is shared between clients they return the same
//! results and end with the same balances.

use vstd::prelude::*;
use crate::client::Client;
use crate::processor::basic_processor::BasicLedger;
use crate::processor::rules::Scope;
use crate::processor::wrap_processor::WrapLedger;
use crate::transaction::{TransactionView, TxId};

verus! {

/// Whether every identifier in the input is used by the transactions of one
/// client only.
pub open spec fn one_client_per_id(transactions: Seq<TransactionView>) -> bool {
    forall|i: int, j: int|
        0 <= i < transactions.len() && 0 <= j < transactions.len() && (
        #[trigger] transactions[i]).tx_id == (#[trigger] transactions[j]).tx_id
            ==> transactions[i].client == transactions[j].client
}

/// Whether a shared index is the per-client indices put together: each entry
/// of a client's index is in the shared index, and each entry of the shared
/// index is in the index of the client that `owner` names for it.
pub open spec fn put_together(
    shared: Map<TxId, TransactionView>,
    own: spec_fn(Client) -> Map<TxId, TransactionView>,
    clients: Set<Client>,
    owner: spec_fn(TxId) -> Client,
) -> bool {
    &&& forall|client: Client, id: TxId|
        clients.contains(client) && #[trigger] own(client).contains_key(id) ==> owner(id)
            == client && shared.contains_key(id) && shared[id] == own(client)[id]
    &&& forall|id: TxId| #[trigger]
        shared.contains_key(id) ==> clients.contains(owner(id)) && own(owner(id)).contains_key(
            id,
        )
}

/// Whether the ledger with shared indices and the ledger with per-client
/// indices hold the same: the same balances for the same clients, and the
/// same index entries, each in the index of the client it belongs to.
pub open spec fn agree(shared: BasicLedger, split: WrapLedger, owner: spec_fn(TxId) -> Client) -> bool {
    &&& shared.accounts.dom() == split.accounts.dom()
    &&& forall|client: Client| #[trigger]
        shared.accounts.contains_key(client) ==> shared.accounts[client]
            == split.accounts[client].account
    &&& put_together(
        shared.transactions,
        |client: Client| split.accounts[client].transactions,
        split.accounts.dom(),
        owner,
    )
    &&& put_together(
        shared.disputes,
        |client: Client| split.accounts[client].disputes,
        split.accounts.dom(),
        owner,
    )
    &&& forall|id: TxId| #[trigger]
        shared.disputes.contains_key(id) ==> shared.disputes[id].tx_id == id
}

/// Whether two scopes cannot be told apart by a transaction with the
/// identifier `id`: they hold the same account and the same entries, if any,
/// under `id`.
pub open spec fn alike_at(one: Scope, other: Scope, id: TxId) -> bool {
    &&& one.account == other.account
    &&& one.transactions.contains_key(id) == other.transactions.contains_key(id)
    &&& one.transactions.contains_key(id) ==> one.transactions[id] == other.transactions[id]
    &&& one.disputes.contains_key(id) == other.disputes.contains_key(id)
    &&& one.disputes.contains_key(id) ==> one.disputes[id] == other.disputes[id]
    &&& one.disputes.contains_key(id) ==> one.disputes[id].tx_id == id
}

/// Whether an index changed in the same way in both scopes, and only under
/// `transaction`'s identifier: nothing, an insertion of the transaction, or a
/// removal.
pub open spec fn changed_alike(
    one: Map<TxId, TransactionView>,
    one_after: Map<TxId, TransactionView>,
    other: Map<TxId, TransactionView>,
    other_after: Map<TxId, TransactionView>,
    transaction: TransactionView,
) -> bool {
    ||| one_after == one && other_after == other
    ||| one_after == one.insert(transaction.tx_id, transaction) && other_after == other.insert(
        transaction.tx_id,
        transaction,
    )
    ||| one_after == one.remove(transaction.tx_id) && other_after == other.remove(
        transaction.tx_id,
    )
}

/// The rules decide alike on scopes that are alike at the transaction's
/// identifier.
pub proof fn lemma_rules_agree(one: Scope, other: Scope, transaction: TransactionView)
    requires
        alike_at(one, other, transaction.tx_id),
    ensures
        match (one.process(transaction), other.process(transaction)) {
            (Ok(x), Ok(y)) => {
                &&& x.account == y.account
                &&& changed_alike(
                    one.transactions,
                    x.transactions,
                    other.transactions,
                    y.transactions,
                    transaction,
                )
                &&& changed_alike(one.disputes, x.disputes, other.disputes, y.disputes, transaction)
            },
            (Err(e), Err(f)) => e == f,
            _ => false,
        },
{
}

/// One transaction keeps the two ledgers in agreement and gets the same
/// result from both, provided it is a transaction of the client that its
/// identifier belongs to.
pub proof fn lemma_step_agrees(
    shared: BasicLedger,
    split: WrapLedger,
    owner: spec_fn(TxId) -> Client,
    transaction: TransactionView,
)
    requires
        agree(shared, split, owner),
        owner(transaction.tx_id) == transaction.client,
    ensures
        shared.step(transaction).1 == split.step(transaction).1,
        agree(shared.step(transaction).0, split.step(transaction).0, owner),
{
    let client = transaction.client;
    let id = transaction.tx_id;
    let one = shared.scope(client);
    let other = split.scope(client);
    let own_transactions = |c: Client| split.accounts[c].transactions;
    let own_disputes = |c: Client| split.accounts[c].disputes;
    assert(shared.accounts.contains_key(client) == split.accounts.contains_key(client));
    assert(alike_at(one, other, id)) by {
        if split.accounts.contains_key(client) {
            assert(own_transactions(client) == other.transactions);
            assert(own_disputes(client) == other.disputes);
        }
        if one.transactions.contains_key(id) {
            assert(own_transactions(owner(id)).contains_key(id));
        }
        if one.disputes.contains_key(id) {
            assert(own_disputes(owner(id)).contains_key(id));
        }
    }
    lemma_rules_agree(one, other, transaction);
    let shared_after = shared.step(transaction).0;
    let split_after = split.step(transaction).0;
    let after_transactions = |c: Client| split_after.accounts[c].transactions;
    let after_disputes = |c: Client| split_after.accounts[c].disputes;
    assert(shared_after.accounts.dom() =~= split_after.accounts.dom());
    assert forall|c: Client| #[trigger] shared_after.accounts.contains_key(c) implies
        shared_after.accounts[c] == split_after.accounts[c].account by {
        if c != client {
            assert(shared.accounts.contains_key(c));
        }
    }
    assert(put_together(
        shared_after.transactions,
        after_transactions,
        split_after.accounts.dom(),
        owner,
    )) by {
        assert forall|c: Client, k: TxId|
            split_after.accounts.dom().contains(c) && #[trigger] after_transactions(
                c,
            ).contains_key(k) implies owner(k) == c && shared_after.transactions.contains_key(k)
            && shared_after.transactions[k] == after_transactions(c)[k] by {
            if c == client {
                if k != id {
                    assert(other.transactions.contains_key(k));
                    assert(split.accounts.contains_key(client));
                    assert(own_transactions(client).contains_key(k));
                }
            } else {
                assert(own_transactions(c).contains_key(k));
            }
        }
        assert forall|k: TxId| #[trigger] shared_after.transactions.contains_key(k) implies
            split_after.accounts.dom().contains(owner(k)) && after_transactions(
            owner(k),
        ).contains_key(k) by {
            if k != id {
                assert(shared.transactions.contains_key(k));
                assert(own_transactions(owner(k)).contains_key(k));
            }
        }
    }
    assert(put_together(shared_after.disputes, after_disputes, split_after.accounts.dom(), owner))
        by {
        assert forall|c: Client, k: TxId|
            split_after.accounts.dom().contains(c) && #[trigger] after_disputes(c).contains_key(
                k,
            ) implies owner(k) == c && shared_after.disputes.contains_key(k)
            && shared_after.disputes[k] == after_disputes(c)[k] by {
            if c == client {
                if k != id {
                    assert(other.disputes.contains_key(k));
                    assert(split.accounts.contains_key(client));
                    assert(own_disputes(client).contains_key(k));
                }
            } else {
                assert(own_disputes(c).contains_key(k));
            }
        }
        assert forall|k: TxId| #[trigger] shared_after.disputes.contains_key(k) implies
            split_after.accounts.dom().contains(owner(k)) && after_disputes(owner(k)).contains_key(
            k,
        ) by {
            if k != id {
                assert(shared.disputes.contains_key(k));
                assert(own_disputes(owner(k)).contains_key(k));
            }
        }
    }
    assert forall|k: TxId| #[trigger] shared_after.disputes.contains_key(k) implies
        shared_after.disputes[k].tx_id == k by {
        if k != id {
            assert(shared.disputes.contains_key(k));
        }
    }
}

/// The client that the input gives an identifier to: that of some
/// transaction that carries it.
pub open spec fn owner_in(transactions: Seq<TransactionView>) -> spec_fn(TxId) -> Client {
    |id: TxId|
        {
            let i = choose|i: int| 0 <= i < transactions.len() && transactions[i].tx_id == id;
            transactions[i].client
        }
}

/// On an input in which every identifier belongs to one client, the
/// processor with shared indices and the processor with per-client indices
/// return the same result for every transaction and hold the same balances
/// for the same clients after every transaction, and so at the end.
pub proof fn lemma_processors_agree(transactions: Seq<TransactionView>)
    requires
        one_client_per_id(transactions),
    ensures
        forall|n: int|
            0 <= n <= transactions.len() ==> (#[trigger] BasicLedger::empty().replay(
                transactions.take(n),
            )).accounts == WrapLedger::empty().replay(transactions.take(n)).balances(),
        forall|n: int|
            0 <= n < transactions.len() ==> #[trigger] BasicLedger::empty().outcome(
                transactions,
                n,
            ) == WrapLedger::empty().outcome(transactions, n),
        BasicLedger::empty().replay(transactions).accounts == WrapLedger::empty().replay(
            transactions,
        ).balances(),
{
    let owner = owner_in(transactions);
    assert forall|n: int| 0 <= n <= transactions.len() implies (
    #[trigger] BasicLedger::empty().replay(transactions.take(n))).accounts
        == WrapLedger::empty().replay(transactions.take(n)).balances() by {
        lemma_prefixes_agree(transactions, n);
        let shared = BasicLedger::empty().replay(transactions.take(n));
        let split = WrapLedger::empty().replay(transactions.take(n));
        assert(shared.accounts =~= split.balances());
    }
    assert forall|n: int| 0 <= n < transactions.len() implies #[trigger]
        BasicLedger::empty().outcome(transactions, n) == WrapLedger::empty().outcome(
        transactions,
        n,
    ) by {
        lemma_prefixes_agree(transactions, n);
        lemma_owner(transactions, n);
        lemma_step_agrees(
            BasicLedger::empty().replay(transactions.take(n)),
            WrapLedger::empty().replay(transactions.take(n)),
            owner,
            transactions[n],
        );
    }
    assert(transactions.take(transactions.len() as int) =~= transactions);
}

/// In an input in which every identifier belongs to one client, each
/// transaction is one of the client that the input gives its identifier to.
proof fn lemma_owner(transactions: Seq<TransactionView>, n: int)
    requires
        one_client_per_id(transactions),
        0 <= n < transactions.len(),
    ensures
        owner_in(transactions)(transactions[n].tx_id) == transactions[n].client,
{
    let id = transactions[n].tx_id;
    let i = choose|i: int| 0 <= i < transactions.len() && transactions[i].tx_id == id;
    assert(transactions[i].tx_id == transactions[n].tx_id);
}

/// After any number of transactions of such an input the two ledgers agree.
proof fn lemma_prefixes_agree(transactions: Seq<TransactionView>, n: int)
    requires
        one_client_per_id(transactions),
        0 <= n <= transactions.len(),
    ensures
        agree(
            BasicLedger::empty().replay(transactions.take(n)),
            WrapLedger::empty().replay(transactions.take(n)),
            owner_in(transactions),
        ),
    decreases n,
{
    let owner = owner_in(transactions);
    if n == 0 {
        assert(transactions.take(0) =~= Seq::empty());
        assert(BasicLedger::empty().accounts.dom() =~= WrapLedger::empty().accounts.dom());
    } else {
        lemma_prefixes_agree(transactions, n - 1);
        lemma_owner(transactions, n - 1);
        BasicLedger::empty().lemma_replay_step(transactions, n - 1);
        WrapLedger::empty().lemma_replay_step(transactions, n - 1);
        lemma_step_agrees(
            BasicLedger::empty().replay(transactions.take(n - 1)),
            WrapLedger::empty().replay(transactions.take(n - 1)),
            owner,
            transactions[n - 1],
        );
    }
}

} // verus!

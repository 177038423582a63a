//! Transaction records.

use vstd::prelude::*;
use crate::amount::{Amount, AmountView, view_of};
use crate::client::Client;
use crate::transaction_type::TransactionType;

verus! {

/// A transaction identifier.
pub type TxId = u32;

/// The mathematical content of a [`Transaction`].
pub struct TransactionView {
    pub kind: TransactionType,
    pub client: Client,
    pub tx_id: TxId,
    pub amount: Option<AmountView>,
}

/// One record of the input stream. Deposits and withdrawals carry an amount
/// and an identifier of their own; disputes, resolves and chargebacks carry
/// the identifier of the transaction they refer to.
#[derive(Debug, Clone, Copy)]
pub struct Transaction {
    kind: TransactionType,
    client: Client,
    tx: TxId,
    amount: Option<Amount>,
}

impl View for Transaction {
    type V = TransactionView;

    closed spec fn view(&self) -> TransactionView {
        TransactionView {
            kind: self.kind,
            client: self.client,
            tx_id: self.tx,
            amount: view_of(self.amount),
        }
    }
}

impl Transaction {
    pub fn new(kind: TransactionType, client: Client, tx: TxId, amount: Option<Amount>) -> (result:
        Self)
        ensures
            result@ == (TransactionView { kind, client, tx_id: tx, amount: view_of(amount) }),
    {
        Transaction { kind, client, tx, amount }
    }

    pub fn kind(&self) -> (kind: &TransactionType)
        ensures
            *kind == self@.kind,
    {
        &self.kind
    }

    pub fn client(&self) -> (client: Client)
        ensures
            client == self@.client,
    {
        self.client
    }

    pub fn tx_id(&self) -> (tx_id: TxId)
        ensures
            tx_id == self@.tx_id,
    {
        self.tx
    }

    pub fn amount(&self) -> (amount: Option<Amount>)
        ensures
            view_of(amount) == self@.amount,
    {
        self.amount
    }
}

} // verus!

//! An index of transactions by their identifier.

use vstd::prelude::*;
use nohash_hasher::IntMap;
use crate::repository::int_map::{contains_key_u32, get_u32, insert_u32, remove_u32};
use crate::transaction::{Transaction, TransactionView, TxId};

verus! {

/// A keyed store of transaction records. It checks nothing: what may be
/// inserted, and under which key, is for its callers to decide.
pub struct TransactionMemoryRepository {
    inner: IntMap<TxId, Transaction>,
}

impl View for TransactionMemoryRepository {
    type V = Map<TxId, TransactionView>;

    closed spec fn view(&self) -> Map<TxId, TransactionView> {
        Map::new(|id: TxId| self.inner@.contains_key(id), |id: TxId| self.inner@[id]@)
    }
}

impl TransactionMemoryRepository {
    pub fn new() -> (repository: Self)
        ensures
            repository@ == (Map::<TxId, TransactionView>::empty()),
    {
        let repository = TransactionMemoryRepository { inner: IntMap::default() };
        assert(repository@ =~= Map::<TxId, TransactionView>::empty());
        repository
    }

    /// The record under `tx_id`, if there is one.
    pub fn find_by_tx_id(&self, tx_id: &TxId) -> (found: Option<&Transaction>)
        ensures
            match found {
                Some(transaction) => self@.contains_key(*tx_id) && transaction@ == self@[*tx_id],
                None => !self@.contains_key(*tx_id),
            },
    {
        get_u32(&self.inner, *tx_id)
    }

    /// Whether there is a record under `tx_id`.
    pub fn exist_by_tx_id(&self, tx_id: &TxId) -> (found: bool)
        ensures
            found == self@.contains_key(*tx_id),
    {
        contains_key_u32(&self.inner, *tx_id)
    }

    /// Puts the record under `tx_id`, in place of what was there.
    pub fn insert(&mut self, tx_id: TxId, transaction: Transaction)
        ensures
            final(self)@ == old(self)@.insert(tx_id, transaction@),
    {
        insert_u32(&mut self.inner, tx_id, transaction);
        assert(self@ =~= old(self)@.insert(tx_id, transaction@));
    }

    /// Removes the record under `tx_id`, if there is one.
    pub fn delete_by_id(&mut self, tx_id: &TxId)
        ensures
            final(self)@ == old(self)@.remove(*tx_id),
    {
        remove_u32(&mut self.inner, *tx_id);
        assert(self@ =~= old(self)@.remove(*tx_id));
    }
}

} // verus!

//! A dead-letter queue for transactions that were turned down.

use vstd::prelude::*;
use crate::error::ProcessError;
use crate::transaction::{Transaction, TransactionView};

verus! {

/// The transactions that were turned down, each with the reason, in the
/// order in which they were put in.
pub struct NaiveDlqMemoryRepository {
    inner: Vec<(Transaction, ProcessError)>,
}

impl View for NaiveDlqMemoryRepository {
    type V = Seq<(TransactionView, ProcessError)>;

    closed spec fn view(&self) -> Seq<(TransactionView, ProcessError)> {
        Seq::new(self.inner@.len(), |i: int| (self.inner@[i].0@, self.inner@[i].1))
    }
}

impl NaiveDlqMemoryRepository {
    pub fn new() -> (repository: Self)
        ensures
            repository@ == (Seq::<(TransactionView, ProcessError)>::empty()),
    {
        let repository = NaiveDlqMemoryRepository { inner: Vec::new() };
        assert(repository@ =~= Seq::<(TransactionView, ProcessError)>::empty());
        repository
    }

    /// Appends a transaction with the reason it was turned down for.
    pub fn insert(&mut self, transaction: Transaction, error: ProcessError)
        ensures
            final(self)@ == old(self)@.push((transaction@, error)),
    {
        self.inner.push((transaction, error));
        assert(self@ =~= old(self)@.push((transaction@, error)));
    }

    /// All entries, oldest first.
    pub fn get_all(&self) -> (entries: &Vec<(Transaction, ProcessError)>)
        ensures
            entries@.len() == self@.len(),
            forall|i: int|
                0 <= i < entries@.len() ==> (entries@[i].0@, entries@[i].1) == #[trigger] self@[i],
    {
        &self.inner
    }
}

pub type DlqRepository = NaiveDlqMemoryRepository;

} // verus!

//! The five kinds of transaction.

use vstd::prelude::*;

verus! {

#[derive(Debug, Clone, Copy, PartialEq, Eq, Structural)]
pub enum TransactionType {
    /// Ends a dispute by withdrawing the held funds and locking the account.
    Chargeback,
    /// Credits the account.
    Deposit,
    /// Claims that an earlier transaction was wrong; its funds are held.
    Dispute,
    /// Ends a dispute by releasing the held funds.
    Resolve,
    /// Debits the account.
    Withdrawal,
}

} // verus!

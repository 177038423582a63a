//! The ways in which a transaction can be turned down.

use vstd::prelude::*;

verus! {

/// Why a transaction was not applied. A transaction that is turned down
/// changes no balance and no index.
#[derive(Debug, Clone, Copy, PartialEq, Eq, Structural)]
pub enum ProcessError {
    /// A deposit or withdrawal carries no amount.
    AmountNotFound,
    /// A balance would leave the range of the decimal type.
    DecimalAmountOverflow,
    /// The amount has its sign bit set.
    NegativeAmount,
    /// The available funds do not cover the amount.
    NotSufficientAvailableFunds,
    /// The held funds do not cover the amount.
    NotSufficientHeldFunds,
    /// The account was locked by a chargeback.
    AccountLocked,
    /// The transaction identifier is already in the transaction index.
    TransactionExists,
    /// The transaction referred to is not in the transaction index.
    OrgTransactionNotFound,
    /// The transaction referred to is not under dispute.
    DisputedTransactionNotFound,
    /// The transaction referred to is already under dispute.
    TransactionUnderDispute,
    /// The transaction referred to is no deposit or withdrawal, or has no
    /// amount.
    InvalidTransactionTypeOrAmount,
    /// The transaction referred to belongs to another client.
    MismatchClientId,
    /// A lock could not be taken.
    MutexLockError,
    /// Anything else.
    UnknownOrUnexpectedError,
}

/// The result of a transaction that is turned down with `error`.
pub open spec fn turned_down(error: ProcessError) -> Result<(), ProcessError> {
    Err(error)
}

impl ProcessError {
    /// The name of the variant, which is how the error is shown.
    pub open spec fn name(self) -> Seq<char> {
        match self {
            ProcessError::AmountNotFound => "AmountNotFound"@,
            ProcessError::DecimalAmountOverflow => "DecimalAmountOverflow"@,
            ProcessError::NegativeAmount => "NegativeAmount"@,
            ProcessError::NotSufficientAvailableFunds => "NotSufficientAvailableFunds"@,
            ProcessError::NotSufficientHeldFunds => "NotSufficientHeldFunds"@,
            ProcessError::AccountLocked => "AccountLocked"@,
            ProcessError::TransactionExists => "TransactionExists"@,
            ProcessError::OrgTransactionNotFound => "OrgTransactionNotFound"@,
            ProcessError::DisputedTransactionNotFound => "DisputedTransactionNotFound"@,
            ProcessError::TransactionUnderDispute => "TransactionUnderDispute"@,
            ProcessError::InvalidTransactionTypeOrAmount => "InvalidTransactionTypeOrAmount"@,
            ProcessError::MismatchClientId => "MismatchClientId"@,
            ProcessError::MutexLockError => "MutexLockError"@,
            ProcessError::UnknownOrUnexpectedError => "UnknownOrUnexpectedError"@,
        }
    }

    /// The error as text: the name of its variant.
    pub fn to_string(&self) -> (text: String)
        ensures
            text@ == self.name(),
    {
        let name = match self {
            ProcessError::AmountNotFound => "AmountNotFound",
            ProcessError::DecimalAmountOverflow => "DecimalAmountOverflow",
            ProcessError::NegativeAmount => "NegativeAmount",
            ProcessError::NotSufficientAvailableFunds => "NotSufficientAvailableFunds",
            ProcessError::NotSufficientHeldFunds => "NotSufficientHeldFunds",
            ProcessError::AccountLocked => "AccountLocked",
            ProcessError::TransactionExists => "TransactionExists",
            ProcessError::OrgTransactionNotFound => "OrgTransactionNotFound",
            ProcessError::DisputedTransactionNotFound => "DisputedTransactionNotFound",
            ProcessError::TransactionUnderDispute => "TransactionUnderDispute",
            ProcessError::InvalidTransactionTypeOrAmount => "InvalidTransactionTypeOrAmount",
            ProcessError::MismatchClientId => "MismatchClientId",
            ProcessError::MutexLockError => "MutexLockError",
            ProcessError::UnknownOrUnexpectedError => "UnknownOrUnexpectedError",
        };
        name.to_owned()
    }
}

} // verus!

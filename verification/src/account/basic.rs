//! The balances of one client.

use vstd::prelude::*;
use crate::amount::{
    checked_difference,
    checked_sum,
    exact_difference,
    exact_sum,
    lemma_sum_with_zero_exact,
    lemma_zero_units,
    view_of,
    Amount,
    AmountView,
};
use crate::client::Client;
use crate::error::{turned_down, ProcessError};

verus! {

/// The mathematical content of a [`BasicAccount`].
pub struct AccountView {
    pub client: Client,
    pub available: AmountView,
    pub held: AmountView,
    pub total: AmountView,
    pub locked: bool,
}

/// The checked sum of two amounts of which either may already be missing.
pub open spec fn sum_of(a: Option<AmountView>, b: Option<AmountView>) -> Option<AmountView> {
    match (a, b) {
        (Some(x), Some(y)) => checked_sum(x, y),
        _ => None,
    }
}

impl AccountView {
    /// The account of a client that no transaction has touched yet.
    pub open spec fn new(client: Client) -> AccountView {
        AccountView {
            client,
            available: AmountView::zero(),
            held: AmountView::zero(),
            total: AmountView::zero(),
            locked: false,
        }
    }

    /// Takes over three new balances and the lock together, or none of them
    /// if one of the balances could not be computed.
    pub open spec fn settle(
        self,
        available: Option<AmountView>,
        held: Option<AmountView>,
        total: Option<AmountView>,
        locked: bool,
    ) -> Result<AccountView, ProcessError> {
        match (available, held, total) {
            (Some(a), Some(h), Some(t)) => Ok(
                AccountView { client: self.client, available: a, held: h, total: t, locked },
            ),
            _ => Err(ProcessError::DecimalAmountOverflow),
        }
    }

    /// Credits `amount`: available and total grow by it.
    pub open spec fn deposit(self, amount: AmountView) -> Result<AccountView, ProcessError> {
        if amount.negative {
            Err(ProcessError::NegativeAmount)
        } else {
            let available = checked_sum(self.available, amount);
            let held = Some(self.held);
            self.settle(available, held, sum_of(available, held), self.locked)
        }
    }

    /// Debits `amount`: available and total shrink by it.
    pub open spec fn withdrawal(self, amount: AmountView) -> Result<AccountView, ProcessError> {
        if amount.negative {
            Err(ProcessError::NegativeAmount)
        } else if self.available.units() < amount.units() {
            Err(ProcessError::NotSufficientAvailableFunds)
        } else {
            let available = checked_difference(self.available, amount);
            let held = Some(self.held);
            self.settle(available, held, sum_of(available, held), self.locked)
        }
    }

    /// Puts a deposit under dispute: `amount` moves from available to held.
    pub open spec fn dispute_deposit(self, amount: AmountView) -> Result<
        AccountView,
        ProcessError,
    > {
        if amount.negative {
            Err(ProcessError::NegativeAmount)
        } else if self.available.units() < amount.units() {
            Err(ProcessError::NotSufficientAvailableFunds)
        } else {
            let available = checked_difference(self.available, amount);
            let held = checked_sum(self.held, amount);
            self.settle(available, held, sum_of(available, held), self.locked)
        }
    }

    /// Puts a withdrawal under dispute: held and total grow by `amount`.
    pub open spec fn dispute_withdrawal(self, amount: AmountView) -> Result<
        AccountView,
        ProcessError,
    > {
        if amount.negative {
            Err(ProcessError::NegativeAmount)
        } else {
            let available = Some(self.available);
            let held = checked_sum(self.held, amount);
            self.settle(available, held, sum_of(available, held), self.locked)
        }
    }

    /// Ends a dispute in the client's favour: `amount` moves from held back to
    /// available.
    pub open spec fn resolve(self, amount: AmountView) -> Result<AccountView, ProcessError> {
        if amount.negative {
            Err(ProcessError::NegativeAmount)
        } else if self.held.units() < amount.units() {
            Err(ProcessError::NotSufficientHeldFunds)
        } else {
            let available = checked_sum(self.available, amount);
            let held = checked_difference(self.held, amount);
            self.settle(available, held, sum_of(available, held), self.locked)
        }
    }

    /// Ends a dispute by a chargeback: held and total shrink by `amount` and
    /// the account is locked.
    pub open spec fn chargeback(self, amount: AmountView) -> Result<AccountView, ProcessError> {
        if amount.negative {
            Err(ProcessError::NegativeAmount)
        } else if self.held.units() < amount.units() {
            Err(ProcessError::NotSufficientHeldFunds)
        } else {
            let available = Some(self.available);
            let held = checked_difference(self.held, amount);
            self.settle(available, held, sum_of(available, held), true)
        }
    }
}

impl AccountView {
    /// Whether the total is worth what the available and the held funds are
    /// worth together.
    pub open spec fn balanced(self) -> bool {
        self.total.units() == self.available.units() + self.held.units()
    }

    /// Whether the total is the checked sum of the available and the held
    /// funds, as every operation leaves it.
    pub open spec fn summed(self) -> bool {
        checked_sum(self.available, self.held) == Some(self.total)
    }

    /// Whether the four sums and differences that putting the deposit of
    /// `amount` under dispute and then resolving the dispute compute are all
    /// exact.
    pub open spec fn moves_exactly(self, amount: AmountView) -> bool {
        &&& exact_difference(self.available, amount)
        &&& exact_sum(self.held, amount)
        &&& self.dispute_deposit(amount) matches Ok(disputed) ==> {
            &&& exact_sum(disputed.available, amount)
            &&& exact_difference(disputed.held, amount)
        }
    }

    /// A new account holds nothing and is balanced.
    pub proof fn lemma_new_balanced(client: Client)
        ensures
            AccountView::new(client).balanced(),
            AccountView::new(client).summed(),
            AccountView::new(client).held.is_zero(),
            !AccountView::new(client).locked,
    {
        lemma_zero_units(AmountView::zero());
    }

    /// Every operation that goes through leaves the total as the checked sum
    /// of the available and the held funds.
    pub proof fn lemma_summed(self, amount: AmountView)
        ensures
            self.deposit(amount) matches Ok(after) ==> after.summed(),
            self.withdrawal(amount) matches Ok(after) ==> after.summed(),
            self.dispute_deposit(amount) matches Ok(after) ==> after.summed(),
            self.dispute_withdrawal(amount) matches Ok(after) ==> after.summed(),
            self.resolve(amount) matches Ok(after) ==> after.summed(),
            self.chargeback(amount) matches Ok(after) ==> after.summed(),
    {
    }

    /// An account whose total is the checked sum of the other two balances
    /// is balanced in value wherever that sum did not have to round.
    pub proof fn lemma_summed_balanced(self)
        requires
            self.summed(),
            exact_sum(self.available, self.held),
        ensures
            self.balanced(),
    {
    }

    /// A deposit that goes through without rounding raises the available
    /// funds and the total by the amount and leaves the rest as it was.
    pub proof fn lemma_deposit_effect(self, amount: AmountView)
        requires
            self.balanced(),
            self.deposit(amount) is Ok,
            exact_sum(self.available, amount),
            exact_sum(self.deposit(amount)->Ok_0.available, self.held),
        ensures
            ({
                let after = self.deposit(amount)->Ok_0;
                &&& after.available.units() == self.available.units() + amount.units()
                &&& after.total.units() == self.total.units() + amount.units()
                &&& after.held == self.held
                &&& after.locked == self.locked
                &&& after.client == self.client
                &&& after.balanced()
            }),
    {
    }

    /// A withdrawal that goes through without rounding lowers the available
    /// funds and the total by the amount and leaves the rest as it was.
    pub proof fn lemma_withdrawal_effect(self, amount: AmountView)
        requires
            self.balanced(),
            self.withdrawal(amount) is Ok,
            exact_difference(self.available, amount),
            exact_sum(self.withdrawal(amount)->Ok_0.available, self.held),
        ensures
            ({
                let after = self.withdrawal(amount)->Ok_0;
                &&& after.available.units() == self.available.units() - amount.units()
                &&& after.total.units() == self.total.units() - amount.units()
                &&& after.available.units() >= 0
                &&& after.held == self.held
                &&& after.locked == self.locked
                &&& after.client == self.client
                &&& after.balanced()
            }),
    {
    }

    /// A dispute on a deposit that goes through without rounding moves the
    /// amount from the available to the held funds and leaves the total at
    /// its worth.
    pub proof fn lemma_dispute_deposit_effect(self, amount: AmountView)
        requires
            self.balanced(),
            self.dispute_deposit(amount) is Ok,
            exact_difference(self.available, amount),
            exact_sum(self.held, amount),
            exact_sum(
                self.dispute_deposit(amount)->Ok_0.available,
                self.dispute_deposit(amount)->Ok_0.held,
            ),
        ensures
            ({
                let after = self.dispute_deposit(amount)->Ok_0;
                &&& after.available.units() == self.available.units() - amount.units()
                &&& after.held.units() == self.held.units() + amount.units()
                &&& after.total.units() == self.total.units()
                &&& after.available.units() >= 0
                &&& after.locked == self.locked
                &&& after.client == self.client
                &&& after.balanced()
            }),
    {
    }

    /// A dispute on a withdrawal that goes through without rounding raises
    /// the held funds and the total by the amount and leaves the available
    /// funds as they were.
    pub proof fn lemma_dispute_withdrawal_effect(self, amount: AmountView)
        requires
            self.balanced(),
            self.dispute_withdrawal(amount) is Ok,
            exact_sum(self.held, amount),
            exact_sum(self.available, self.dispute_withdrawal(amount)->Ok_0.held),
        ensures
            ({
                let after = self.dispute_withdrawal(amount)->Ok_0;
                &&& after.available == self.available
                &&& after.held.units() == self.held.units() + amount.units()
                &&& after.total.units() == self.total.units() + amount.units()
                &&& after.locked == self.locked
                &&& after.client == self.client
                &&& after.balanced()
            }),
    {
    }

    /// A resolve that goes through without rounding moves the amount from
    /// the held to the available funds and leaves the total at its worth.
    pub proof fn lemma_resolve_effect(self, amount: AmountView)
        requires
            self.balanced(),
            self.resolve(amount) is Ok,
            exact_sum(self.available, amount),
            exact_difference(self.held, amount),
            exact_sum(self.resolve(amount)->Ok_0.available, self.resolve(amount)->Ok_0.held),
        ensures
            ({
                let after = self.resolve(amount)->Ok_0;
                &&& after.available.units() == self.available.units() + amount.units()
                &&& after.held.units() == self.held.units() - amount.units()
                &&& after.total.units() == self.total.units()
                &&& after.held.units() >= 0
                &&& after.locked == self.locked
                &&& after.client == self.client
                &&& after.balanced()
            }),
    {
    }

    /// A chargeback that goes through without rounding lowers the held funds
    /// and the total by the amount, leaves the available funds as they were
    /// and locks the account.
    pub proof fn lemma_chargeback_effect(self, amount: AmountView)
        requires
            self.balanced(),
            self.chargeback(amount) is Ok,
            exact_difference(self.held, amount),
            exact_sum(self.available, self.chargeback(amount)->Ok_0.held),
        ensures
            ({
                let after = self.chargeback(amount)->Ok_0;
                &&& after.available == self.available
                &&& after.held.units() == self.held.units() - amount.units()
                &&& after.total.units() == self.total.units() - amount.units()
                &&& after.held.units() >= 0
                &&& after.locked
                &&& after.client == self.client
                &&& after.balanced()
            }),
    {
    }

    /// While nothing is held, deposits and withdrawals keep it so and leave
    /// the account balanced: the total is worth exactly what is available.
    pub proof fn lemma_deposit_withdrawal_balanced(self, amount: AmountView)
        requires
            self.held.is_zero(),
        ensures
            self.deposit(amount) matches Ok(after) ==> after.held == self.held && after.balanced(),
            self.withdrawal(amount) matches Ok(after) ==> after.held == self.held
                && after.balanced(),
    {
        lemma_zero_units(self.held);
        if let Ok(after) = self.deposit(amount) {
            lemma_sum_with_zero_exact(after.available, self.held);
        }
        if let Ok(after) = self.withdrawal(amount) {
            lemma_sum_with_zero_exact(after.available, self.held);
        }
    }

    /// Putting a deposit under dispute and resolving the dispute gives the
    /// available and the held funds back their worth from before the
    /// dispute, provided none of the four computations had to round.
    pub proof fn lemma_dispute_resolve_restores(self, amount: AmountView)
        requires
            self.moves_exactly(amount),
            self.dispute_deposit(amount) is Ok,
            self.dispute_deposit(amount)->Ok_0.resolve(amount) is Ok,
        ensures
            ({
                let resolved = self.dispute_deposit(amount)->Ok_0.resolve(amount)->Ok_0;
                &&& resolved.available.units() == self.available.units()
                &&& resolved.held.units() == self.held.units()
                &&& resolved.locked == self.locked
                &&& resolved.client == self.client
            }),
    {
    }

    /// Putting a withdrawal under dispute and resolving the dispute gives
    /// the held funds back their worth and hands the withdrawn amount back to
    /// the available funds, provided neither computation on the held funds
    /// nor the last sum had to round.
    pub proof fn lemma_dispute_withdrawal_resolve_refunds(self, amount: AmountView)
        requires
            exact_sum(self.held, amount),
            self.dispute_withdrawal(amount) is Ok,
            self.dispute_withdrawal(amount)->Ok_0.resolve(amount) is Ok,
            exact_sum(self.available, amount),
            exact_difference(self.dispute_withdrawal(amount)->Ok_0.held, amount),
        ensures
            ({
                let resolved = self.dispute_withdrawal(amount)->Ok_0.resolve(amount)->Ok_0;
                &&& resolved.available.units() == self.available.units() + amount.units()
                &&& resolved.held.units() == self.held.units()
            }),
    {
    }

    /// A chargeback that goes through locks the account; no other operation
    /// touches the lock.
    pub proof fn lemma_lock(self, amount: AmountView)
        ensures
            self.chargeback(amount) matches Ok(after) ==> after.locked,
            self.deposit(amount) matches Ok(after) ==> after.locked == self.locked,
            self.withdrawal(amount) matches Ok(after) ==> after.locked == self.locked,
            self.dispute_deposit(amount) matches Ok(after) ==> after.locked == self.locked,
            self.dispute_withdrawal(amount) matches Ok(after) ==> after.locked == self.locked,
            self.resolve(amount) matches Ok(after) ==> after.locked == self.locked,
    {
    }
}

/// How an operation that either replaces the account or fails shows in the
/// account and in the result: on success the account is the expected one, on
/// failure it is untouched and the error is the expected one.
pub open spec fn applied(
    before: AccountView,
    after: AccountView,
    result: Result<(), ProcessError>,
    expected: Result<AccountView, ProcessError>,
) -> bool {
    match expected {
        Ok(account) => result is Ok && after == account,
        Err(error) => result == turned_down(error) && after == before,
    }
}

/// The state of one client's single asset account.
#[derive(Debug, Clone, Copy)]
pub struct BasicAccount {
    client: Client,
    available: Amount,
    held: Amount,
    total: Amount,
    locked: bool,
}

impl View for BasicAccount {
    type V = AccountView;

    closed spec fn view(&self) -> AccountView {
        AccountView {
            client: self.client,
            available: self.available@,
            held: self.held@,
            total: self.total@,
            locked: self.locked,
        }
    }
}

impl Default for BasicAccount {
    /// The new account of client 0.
    fn default() -> (account: Self)
        ensures
            account@ == AccountView::new(0),
    {
        BasicAccount {
            client: 0,
            available: Amount::zero(),
            held: Amount::zero(),
            total: Amount::zero(),
            locked: false,
        }
    }
}

impl BasicAccount {
    /// The account of a client that no transaction has touched yet: zero
    /// balances, not locked.
    pub fn new(client: Client) -> (account: Self)
        ensures
            account@ == AccountView::new(client),
    {
        BasicAccount {
            client,
            available: Amount::zero(),
            held: Amount::zero(),
            total: Amount::zero(),
            locked: false,
        }
    }

    /// The funds free for withdrawal.
    pub fn available(&self) -> (available: &Amount)
        ensures
            available@ == self@.available,
    {
        &self.available
    }

    /// The funds held by open disputes.
    pub fn held(&self) -> (held: &Amount)
        ensures
            held@ == self@.held,
    {
        &self.held
    }

    /// Available and held funds together.
    pub fn total(&self) -> (total: &Amount)
        ensures
            total@ == self@.total,
    {
        &self.total
    }

    /// Whether a chargeback has locked the account.
    pub fn locked(&self) -> (locked: bool)
        ensures
            locked == self@.locked,
    {
        self.locked
    }

    /// The client that the account belongs to.
    pub fn client(&self) -> (client: &Client)
        ensures
            *client == self@.client,
    {
        &self.client
    }

    /// Commits the balances that an operation has computed, all or none: if
    /// one of them is missing nothing is written and the operation fails with
    /// `DecimalAmountOverflow`.
    pub fn settle(
        &mut self,
        available: Option<Amount>,
        held: Option<Amount>,
        total: Option<Amount>,
        locked: bool,
    ) -> (result: Result<(), ProcessError>)
        ensures
            applied(
                old(self)@,
                final(self)@,
                result,
                old(self)@.settle(view_of(available), view_of(held), view_of(total), locked),
            ),
    {
        match (available, held, total) {
            (Some(a), Some(h), Some(t)) => {
                self.available = a;
                self.held = h;
                self.total = t;
                self.locked = locked;
                Ok(())
            },
            _ => Err(ProcessError::DecimalAmountOverflow),
        }
    }

    /// Credits `amount`: available and total grow by it. An amount with the
    /// sign bit set is turned down; if a balance overflows nothing changes.
    pub fn deposit(&mut self, amount: &Amount) -> (result: Result<(), ProcessError>)
        ensures
            applied(old(self)@, final(self)@, result, old(self)@.deposit(amount@)),
    {
        if amount.is_sign_negative() {
            return Err(ProcessError::NegativeAmount);
        }
        let available = self.available.checked_add(amount);
        let held = Some(self.held);
        let total = sum_up(available, held);
        self.settle(available, held, total, self.locked)
    }

    /// Debits `amount`: available and total shrink by it. The amount must
    /// not exceed the available funds.
    pub fn withdrawal(&mut self, amount: &Amount) -> (result: Result<(), ProcessError>)
        ensures
            applied(old(self)@, final(self)@, result, old(self)@.withdrawal(amount@)),
    {
        if amount.is_sign_negative() {
            return Err(ProcessError::NegativeAmount);
        }
        if self.available.lt(amount) {
            return Err(ProcessError::NotSufficientAvailableFunds);
        }
        let available = self.available.checked_sub(amount);
        let held = Some(self.held);
        let total = sum_up(available, held);
        self.settle(available, held, total, self.locked)
    }

    /// Puts a deposit of `amount` under dispute: the amount moves from
    /// available to held. It must not exceed the available funds.
    pub fn dispute_deposit(&mut self, amount: &Amount) -> (result: Result<(), ProcessError>)
        ensures
            applied(old(self)@, final(self)@, result, old(self)@.dispute_deposit(amount@)),
    {
        if amount.is_sign_negative() {
            return Err(ProcessError::NegativeAmount);
        }
        if self.available.lt(amount) {
            return Err(ProcessError::NotSufficientAvailableFunds);
        }
        let available = self.available.checked_sub(amount);
        let held = self.held.checked_add(amount);
        let total = sum_up(available, held);
        self.settle(available, held, total, self.locked)
    }

    /// Puts a withdrawal of `amount` under dispute: held and total grow by
    /// the amount, which the withdrawal had taken out of the account.
    pub fn dispute_withdrawal(&mut self, amount: &Amount) -> (result: Result<(), ProcessError>)
        ensures
            applied(old(self)@, final(self)@, result, old(self)@.dispute_withdrawal(amount@)),
    {
        if amount.is_sign_negative() {
            return Err(ProcessError::NegativeAmount);
        }
        let available = Some(self.available);
        let held = self.held.checked_add(amount);
        let total = sum_up(available, held);
        self.settle(available, held, total, self.locked)
    }

    /// Ends a dispute over `amount` in the client's favour: the amount moves
    /// from held to available. It must not exceed the held funds.
    pub fn resolve(&mut self, amount: &Amount) -> (result: Result<(), ProcessError>)
        ensures
            applied(old(self)@, final(self)@, result, old(self)@.resolve(amount@)),
    {
        if amount.is_sign_negative() {
            return Err(ProcessError::NegativeAmount);
        }
        if self.held.lt(amount) {
            return Err(ProcessError::NotSufficientHeldFunds);
        }
        let available = self.available.checked_add(amount);
        let held = self.held.checked_sub(amount);
        let total = sum_up(available, held);
        self.settle(available, held, total, self.locked)
    }

    /// Ends a dispute over `amount` by a chargeback: held and total shrink by
    /// the amount and the account is locked. The amount must not exceed the
    /// held funds.
    pub fn chargeback(&mut self, amount: &Amount) -> (result: Result<(), ProcessError>)
        ensures
            applied(old(self)@, final(self)@, result, old(self)@.chargeback(amount@)),
    {
        if amount.is_sign_negative() {
            return Err(ProcessError::NegativeAmount);
        }
        if self.held.lt(amount) {
            return Err(ProcessError::NotSufficientHeldFunds);
        }
        let available = Some(self.available);
        let held = self.held.checked_sub(amount);
        let total = sum_up(available, held);
        self.settle(available, held, total, true)
    }
}

/// Adds two balances of which either may already have overflowed.
fn sum_up(a: Option<Amount>, b: Option<Amount>) -> (sum: Option<Amount>)
    ensures
        view_of(sum) == sum_of(view_of(a), view_of(b)),
{
    match (a, b) {
        (Some(x), Some(y)) => x.checked_add(&y),
        _ => None,
    }
}

} // verus!

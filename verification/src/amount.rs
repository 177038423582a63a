//! Fixed-point decimal amounts.
//!
//! An [`Amount`] holds the sign, the 96-bit mantissa and the scale of a
//! `rust_decimal::Decimal` as plain integers. Sums, differences and
//! comparisons are computed by `rust_decimal`.

use vstd::prelude::*;
use vstd::arithmetic::power::pow;
use rust_decimal::Decimal;

verus! {

/// The largest scale an amount can have: 28 fractional digits.
pub const MAX_SCALE: u32 = 28;

/// The mathematical content of an [`Amount`]: `mantissa / 10^scale`, negated
/// when `negative` is set. A zero mantissa may carry either sign.
pub struct AmountView {
    pub negative: bool,
    pub mantissa: nat,
    pub scale: nat,
}

impl AmountView {
    /// The mantissa with its sign.
    pub open spec fn signed(self) -> int {
        if self.negative {
            -(self.mantissa as int)
        } else {
            self.mantissa as int
        }
    }

    /// The value counted in units of `10^-28`, the finest step any amount can
    /// express. Amounts of equal value have equal units whatever their scale.
    pub open spec fn units(self) -> int {
        self.signed() * pow(10, (MAX_SCALE - self.scale) as nat)
    }

    /// Whether the amount is worth nothing: its mantissa is zero.
    pub open spec fn is_zero(self) -> bool {
        self.mantissa == 0
    }

    /// The same amount with the sign bit flipped.
    pub open spec fn negated(self) -> AmountView {
        AmountView { negative: !self.negative, ..self }
    }

    /// Zero with scale 0 and a clear sign bit: the balance of a new account.
    pub open spec fn zero() -> AmountView {
        AmountView { negative: false, mantissa: 0, scale: 0 }
    }
}

/// A decimal number `±mantissa / 10^scale` with a 96-bit mantissa, kept as
/// three 32-bit words, and a scale of at most [`MAX_SCALE`].
#[derive(Clone, Copy, Debug)]
pub struct Amount {
    negative: bool,
    scale: u32,
    hi: u32,
    mid: u32,
    lo: u32,
}

impl View for Amount {
    type V = AmountView;

    closed spec fn view(&self) -> AmountView {
        AmountView {
            negative: self.negative,
            mantissa: (self.lo as nat + self.mid as nat * 0x1_0000_0000 + self.hi as nat
                * 0x1_0000_0000_0000_0000) as nat,
            scale: self.scale as nat,
        }
    }
}

impl Amount {
    #[verifier::type_invariant]
    spec fn scale_in_range(self) -> bool {
        self.scale <= MAX_SCALE
    }

    /// Builds an amount from the three words of its mantissa, its sign and
    /// its scale. There is no amount with a scale above [`MAX_SCALE`].
    pub fn new(lo: u32, mid: u32, hi: u32, negative: bool, scale: u32) -> (result: Option<Amount>)
        ensures
            result is Some <==> scale <= MAX_SCALE,
            result matches Some(a) ==> a@ == (AmountView {
                negative,
                mantissa: (lo as nat + mid as nat * 0x1_0000_0000 + hi as nat
                    * 0x1_0000_0000_0000_0000) as nat,
                scale: scale as nat,
            }),
    {
        if scale <= MAX_SCALE {
            Some(Amount { negative, scale, hi, mid, lo })
        } else {
            None
        }
    }

    /// Zero with scale 0 and a clear sign bit.
    pub fn zero() -> (result: Amount)
        ensures
            result@ == AmountView::zero(),
    {
        Amount { negative: false, scale: 0, hi: 0, mid: 0, lo: 0 }
    }

    /// The low 32 bits of the mantissa.
    pub fn lo(&self) -> (word: u32)
        ensures
            word == self@.mantissa % 0x1_0000_0000,
    {
        self.lo
    }

    /// The middle 32 bits of the mantissa.
    pub fn mid(&self) -> (word: u32)
        ensures
            word == (self@.mantissa / 0x1_0000_0000) % 0x1_0000_0000,
    {
        self.mid
    }

    /// The high 32 bits of the mantissa.
    pub fn hi(&self) -> (word: u32)
        ensures
            word == self@.mantissa / 0x1_0000_0000_0000_0000,
    {
        self.hi
    }

    /// The number of fractional digits.
    pub fn scale(&self) -> (scale: u32)
        ensures
            scale == self@.scale,
            scale <= MAX_SCALE,
    {
        proof {
            use_type_invariant(self);
        }
        self.scale
    }

    /// Whether the sign bit is set. It may be set on a zero.
    pub fn is_sign_negative(&self) -> (negative: bool)
        ensures
            negative == self@.negative,
    {
        self.negative
    }

    /// Whether the mantissa is zero.
    pub fn is_zero(&self) -> (zero: bool)
        ensures
            zero == self@.is_zero(),
    {
        self.lo == 0 && self.mid == 0 && self.hi == 0
    }

    /// `self + other`, or `None` where the sum cannot be represented.
    pub fn checked_add(&self, other: &Amount) -> (sum: Option<Amount>)
        ensures
            view_of(sum) == checked_sum(self@, other@),
    {
        proof {
            use_type_invariant(self);
            use_type_invariant(other);
        }
        decimal_checked_add(*self, *other)
    }

    /// `self - other`, or `None` where the difference cannot be represented.
    pub fn checked_sub(&self, other: &Amount) -> (difference: Option<Amount>)
        ensures
            view_of(difference) == checked_difference(self@, other@),
    {
        proof {
            use_type_invariant(self);
            use_type_invariant(other);
        }
        decimal_checked_sub(*self, *other)
    }

    /// Whether `self` is less than `other` in value, whatever their scales.
    pub fn lt(&self, other: &Amount) -> (less: bool)
        ensures
            less == (self@.units() < other@.units()),
    {
        proof {
            use_type_invariant(self);
            use_type_invariant(other);
        }
        decimal_lt(*self, *other)
    }
}

/// The view of an optional amount.
pub open spec fn view_of(amount: Option<Amount>) -> Option<AmountView> {
    match amount {
        Some(a) => Some(a@),
        None => None,
    }
}

/// What `Decimal::checked_add` returns for two operands that are both
/// non-zero: `None` on overflow, else the sum, which the crate rounds to a
/// lower scale where it would not fit otherwise.
pub uninterp spec fn decimal_sum(a: AmountView, b: AmountView) -> Option<AmountView>;

/// What `Decimal::checked_sub` returns for two operands that are both
/// non-zero: `None` on overflow, else the difference, which the crate rounds
/// to a lower scale where it would not fit otherwise.
pub uninterp spec fn decimal_difference(a: AmountView, b: AmountView) -> Option<AmountView>;

/// The checked sum of two amounts. Adding a zero gives back the other operand
/// as it is, with its scale and sign.
pub open spec fn checked_sum(a: AmountView, b: AmountView) -> Option<AmountView> {
    if a.is_zero() {
        Some(b)
    } else if b.is_zero() {
        Some(a)
    } else {
        decimal_sum(a, b)
    }
}

/// The checked difference of two amounts. Taking a zero away gives back the
/// first operand as it is; taking a non-zero amount from a zero gives that
/// amount with its sign flipped.
pub open spec fn checked_difference(a: AmountView, b: AmountView) -> Option<AmountView> {
    if a.is_zero() {
        if b.is_zero() {
            Some(b)
        } else {
            Some(b.negated())
        }
    } else if b.is_zero() {
        Some(a)
    } else {
        decimal_difference(a, b)
    }
}

/// Whether the checked sum of `a` and `b` exists and is their sum in value:
/// nothing was rounded away to make it fit.
pub open spec fn exact_sum(a: AmountView, b: AmountView) -> bool {
    checked_sum(a, b) matches Some(sum) && sum.units() == a.units() + b.units()
}

/// Whether the checked difference of `a` and `b` exists and is their
/// difference in value: nothing was rounded away to make it fit.
pub open spec fn exact_difference(a: AmountView, b: AmountView) -> bool {
    checked_difference(a, b) matches Some(difference) && difference.units() == a.units()
        - b.units()
}

/// A zero is worth nothing, whatever its scale and sign.
pub proof fn lemma_zero_units(a: AmountView)
    requires
        a.is_zero(),
    ensures
        a.units() == 0,
{
    assert(a.signed() == 0);
    assert(0 * pow(10, (MAX_SCALE - a.scale) as nat) == 0) by (nonlinear_arith);
}

/// Adding a zero is exact.
pub proof fn lemma_sum_with_zero_exact(a: AmountView, b: AmountView)
    requires
        a.is_zero() || b.is_zero(),
    ensures
        exact_sum(a, b),
{
    if a.is_zero() {
        lemma_zero_units(a);
    } else {
        lemma_zero_units(b);
    }
}

/// Calls `rust_decimal::Decimal::checked_add` on the two amounts. The
/// contract claims what the first lines of the crate's addition show: a zero
/// operand hands the other operand back unchanged. For two non-zero operands
/// it claims only that the result is a function of the operands,
/// `decimal_sum`.
#[verifier::external_body]
fn decimal_checked_add(a: Amount, b: Amount) -> (sum: Option<Amount>)
    requires
        a@.scale <= MAX_SCALE,
        b@.scale <= MAX_SCALE,
    ensures
        view_of(sum) == (if a@.is_zero() {
            Some(b@)
        } else if b@.is_zero() {
            Some(a@)
        } else {
            decimal_sum(a@, b@)
        }),
{
    let mut x = Decimal::from_parts(a.lo, a.mid, a.hi, false, a.scale);
    x.set_sign_negative(a.negative);
    let mut y = Decimal::from_parts(b.lo, b.mid, b.hi, false, b.scale);
    y.set_sign_negative(b.negative);
    x.checked_add(y).map(|d| d.unpack()).map(
        |u| Amount { negative: u.negative, scale: u.scale, hi: u.hi, mid: u.mid, lo: u.lo },
    )
}

/// Calls `rust_decimal::Decimal::checked_sub` on the two amounts. The
/// contract claims what the first lines of the crate's subtraction show:
/// with a zero on the left the result is the right operand, its sign flipped
/// unless it is zero too; with a zero on the right only, it is the left
/// operand unchanged. For two non-zero operands it claims only that the
/// result is a function of the operands, `decimal_difference`.
#[verifier::external_body]
fn decimal_checked_sub(a: Amount, b: Amount) -> (difference: Option<Amount>)
    requires
        a@.scale <= MAX_SCALE,
        b@.scale <= MAX_SCALE,
    ensures
        view_of(difference) == (if a@.is_zero() {
            if b@.is_zero() {
                Some(b@)
            } else {
                Some(b@.negated())
            }
        } else if b@.is_zero() {
            Some(a@)
        } else {
            decimal_difference(a@, b@)
        }),
{
    let mut x = Decimal::from_parts(a.lo, a.mid, a.hi, false, a.scale);
    x.set_sign_negative(a.negative);
    let mut y = Decimal::from_parts(b.lo, b.mid, b.hi, false, b.scale);
    y.set_sign_negative(b.negative);
    x.checked_sub(y).map(|d| d.unpack()).map(
        |u| Amount { negative: u.negative, scale: u.scale, hi: u.hi, mid: u.mid, lo: u.lo },
    )
}

/// Compares two amounts with `<` on `rust_decimal::Decimal`. The crate
/// compares by value: two zeros are equal whatever their signs, a negative
/// amount is below a positive one, and amounts of one sign are compared after
/// bringing them to a common scale.
#[verifier::external_body]
fn decimal_lt(a: Amount, b: Amount) -> (less: bool)
    requires
        a@.scale <= MAX_SCALE,
        b@.scale <= MAX_SCALE,
    ensures
        less == (a@.units() < b@.units()),
{
    let mut x = Decimal::from_parts(a.lo, a.mid, a.hi, false, a.scale);
    x.set_sign_negative(a.negative);
    let mut y = Decimal::from_parts(b.lo, b.mid, b.hi, false, b.scale);
    y.set_sign_negative(b.negative);
    x < y
}

} // verus!

//! Monetary amounts.

use vstd::prelude::*;

use crate::decimal::{
    decimal_add, decimal_div, decimal_mul, decimal_round_dp, decimal_sub, decimal_text_2dp, int_model,
    one_model, sum_fits, zero_model, Decimal, DecimalModel,
};
use crate::text::concat;

verus! {

broadcast use vstd::string::group_string_axioms;

/// A monetary value with full decimal precision.
///
/// Rounding is applied only where asked for ([`Money::round_to_cents`]).
/// Negative values are allowed (debits, losses, outflows).
#[derive(Clone, Copy, Debug)]
pub struct Money(Decimal);

impl View for Money {
    type V = DecimalModel;

    closed spec fn view(&self) -> DecimalModel {
        self.0@
    }
}

/// `Some(m@)` for `Some(m)`.
pub open spec fn opt_money_view(o: Option<Money>) -> Option<DecimalModel> {
    match o {
        Some(m) => Some(m@),
        None => None,
    }
}

/// The amounts' views, in order.
pub open spec fn money_view(amounts: &[Money]) -> Seq<DecimalModel> {
    amounts@.map_values(|m: Money| m@)
}

/// The running total of `s` from the left, starting at zero, as
/// `rust_decimal` adds; `None` once an addition overflows.
pub open spec fn sum_models(s: Seq<DecimalModel>) -> Option<DecimalModel>
    decreases s.len(),
{
    if s.len() == 0 {
        Some(zero_model())
    } else {
        match sum_models(s.drop_last()) {
            Some(t) => decimal_add(t, s.last()),
            None => None,
        }
    }
}

/// The exact sum of the values of `s`, in units.
pub open spec fn sum_units(s: Seq<DecimalModel>) -> int
    decreases s.len(),
{
    if s.len() == 0 {
        0
    } else {
        sum_units(s.drop_last()) + s.last().units()
    }
}

impl Money {
    /// Zero.
    pub fn zero() -> (m: Money)
        ensures
            m@ == zero_model(),
    {
        Money(Decimal::zero())
    }

    /// One monetary unit.
    pub fn one() -> (m: Money)
        ensures
            m@ == one_model(),
    {
        Money(Decimal::one())
    }

    /// Wraps a decimal value.
    pub fn new(value: Decimal) -> (m: Money)
        ensures
            m@ == value@,
    {
        Money(value)
    }

    /// Wraps a decimal value.
    pub fn from_decimal(value: Decimal) -> (m: Money)
        ensures
            m@ == value@,
    {
        Money(value)
    }

    /// `cents / 100`.
    pub fn from_cents(cents: i64) -> (m: Money)
        ensures
            m@ == (DecimalModel { mantissa: cents as int, scale: 2 }),
    {
        Money(Decimal::new(cents, 2))
    }

    /// The whole amount `value`.
    pub fn from(value: i64) -> (m: Money)
        ensures
            m@ == int_model(value as int),
    {
        Money(Decimal::from_i64(value))
    }

    /// The decimal value.
    pub fn inner(&self) -> (d: Decimal)
        ensures
            d@ == self@,
    {
        self.0
    }

    /// The absolute value.
    pub fn abs(&self) -> (m: Money)
        ensures
            m@ == crate::decimal::abs_model(self@),
            m@.units() == if self@.units() < 0 { -self@.units() } else { self@.units() },
            m@.scale == self@.scale,
    {
        Money(self.0.abs())
    }

    /// Checked addition: `None` on overflow.
    pub fn checked_add(&self, other: Money) -> (r: Option<Money>)
        ensures
            opt_money_view(r) == decimal_add(self@, other@),
            sum_fits(self@, other@, self@.units() + other@.units()) ==> r is Some && r->0@.units()
                == self@.units() + other@.units(),
            r matches Some(x) ==> x@.scale <= crate::decimal::max_scale_of(self@, other@),
    {
        match self.0.checked_add(other.0) {
            Some(d) => Some(Money(d)),
            None => None,
        }
    }

    /// Checked subtraction: `None` on overflow.
    pub fn checked_sub(&self, other: Money) -> (r: Option<Money>)
        ensures
            opt_money_view(r) == decimal_sub(self@, other@),
            sum_fits(self@, other@, self@.units() - other@.units()) ==> r is Some && r->0@.units()
                == self@.units() - other@.units(),
            r matches Some(x) ==> x@.scale <= crate::decimal::max_scale_of(self@, other@),
    {
        match self.0.checked_sub(other.0) {
            Some(d) => Some(Money(d)),
            None => None,
        }
    }

    /// Checked multiplication: `None` on overflow.
    pub fn checked_mul(&self, other: Money) -> (r: Option<Money>)
        ensures
            opt_money_view(r) == decimal_mul(self@, other@),
    {
        match self.0.checked_mul(other.0) {
            Some(d) => Some(Money(d)),
            None => None,
        }
    }

    /// Checked division: `None` on division by zero or overflow.
    pub fn checked_div(&self, other: Money) -> (r: Option<Money>)
        ensures
            opt_money_view(r) == decimal_div(self@, other@),
            other@.mantissa == 0 ==> r is None,
    {
        match self.0.checked_div(other.0) {
            Some(d) => Some(Money(d)),
            None => None,
        }
    }

    /// Checked division by a decimal: `None` on division by zero or overflow.
    pub fn checked_div_decimal(&self, other: Decimal) -> (r: Option<Money>)
        ensures
            opt_money_view(r) == decimal_div(self@, other@),
            other@.mantissa == 0 ==> r is None,
    {
        match self.0.checked_div(other) {
            Some(d) => Some(Money(d)),
            None => None,
        }
    }

    /// Whether the amount is zero.
    pub fn is_zero(&self) -> (b: bool)
        ensures
            b == (self@.units() == 0),
    {
        self.0.is_zero()
    }

    /// Whether the amount is above zero.
    pub fn is_positive(&self) -> (b: bool)
        ensures
            b == (self@.units() > 0),
    {
        self.0.is_sign_positive() && !self.0.is_zero()
    }

    /// Whether the amount carries a negative sign.
    pub fn is_negative(&self) -> (b: bool)
        ensures
            b == (self@.units() < 0),
    {
        self.0.is_sign_negative()
    }

    /// Rounds to two decimal places, halves to even.
    pub fn round_to_cents(&self) -> (m: Money)
        ensures
            m@ == decimal_round_dp(self@, 2),
            self@.scale <= 2 ==> m@ == self@,
    {
        Money(self.0.round_dp(2))
    }

    /// The sum; the caller guarantees that it does not overflow, which
    /// [`Money::checked_add`] tests and reports as `None`.
    pub fn add(self, other: Money) -> (m: Money)
        requires
            decimal_add(self@, other@) is Some,
        ensures
            m@ == decimal_add(self@, other@)->0,
    {
        Money(self.0.checked_add(other.0).unwrap())
    }

    /// The difference; the caller guarantees that it does not overflow, which
    /// [`Money::checked_sub`] tests and reports as `None`.
    pub fn sub(self, other: Money) -> (m: Money)
        requires
            decimal_sub(self@, other@) is Some,
        ensures
            m@ == decimal_sub(self@, other@)->0,
    {
        Money(self.0.checked_sub(other.0).unwrap())
    }

    /// The product with a decimal factor; the caller guarantees that it does
    /// not overflow, which [`Money::checked_mul`] (with the factor as an
    /// amount) tests and reports as `None`.
    pub fn mul(self, factor: Decimal) -> (m: Money)
        requires
            decimal_mul(self@, factor@) is Some,
        ensures
            m@ == decimal_mul(self@, factor@)->0,
    {
        Money(self.0.checked_mul(factor).unwrap())
    }

    /// The quotient by a decimal; the caller guarantees a nonzero divisor and
    /// no overflow, which [`Money::checked_div_decimal`] tests and reports as
    /// `None`.
    pub fn div(self, divisor: Decimal) -> (m: Money)
        requires
            decimal_div(self@, divisor@) is Some,
        ensures
            m@ == decimal_div(self@, divisor@)->0,
    {
        Money(self.0.checked_div(divisor).unwrap())
    }

    /// The ratio of two amounts; the caller guarantees a nonzero divisor and
    /// no overflow, which [`Money::checked_div`] tests and reports as `None`.
    pub fn ratio(self, divisor: Money) -> (d: Decimal)
        requires
            decimal_div(self@, divisor@) is Some,
        ensures
            d@ == decimal_div(self@, divisor@)->0,
    {
        self.0.checked_div(divisor.0).unwrap()
    }

    /// The amount with its sign flipped.
    pub fn neg(self) -> (m: Money)
        ensures
            m@ == (DecimalModel { mantissa: -self@.mantissa, scale: self@.scale }),
            m@.units() == -self@.units(),
    {
        Money(self.0.neg())
    }

    /// `self < other` by value.
    pub fn lt(&self, other: &Money) -> (b: bool)
        ensures
            b == (self@.units() < other@.units()),
    {
        self.0.lt(&other.0)
    }

    /// `self <= other` by value.
    pub fn le(&self, other: &Money) -> (b: bool)
        ensures
            b == (self@.units() <= other@.units()),
    {
        self.0.le(&other.0)
    }

    /// `self > other` by value.
    pub fn gt(&self, other: &Money) -> (b: bool)
        ensures
            b == (self@.units() > other@.units()),
    {
        self.0.gt(&other.0)
    }

    /// `self >= other` by value.
    pub fn ge(&self, other: &Money) -> (b: bool)
        ensures
            b == (self@.units() >= other@.units()),
    {
        self.0.ge(&other.0)
    }

    /// Equality by value.
    pub fn eq_value(&self, other: &Money) -> (b: bool)
        ensures
            b == (self@.units() == other@.units()),
    {
        self.0.eq_value(&other.0)
    }

    /// The amount as text: a dollar sign and two decimal places, e.g. `$100.00`.
    pub fn to_display_string(&self) -> (t: String)
        ensures
            t@ == "$"@ + decimal_text_2dp(self@),
    {
        concat("$".to_string(), self.0.to_text_2dp().as_str())
    }

    /// The sum of `amounts` from the left; `None` once an addition overflows.
    pub fn checked_sum(amounts: &[Money]) -> (r: Option<Money>)
        ensures
            opt_money_view(r) == sum_models(amounts@.map_values(|m: Money| m@)),
    {
        let ghost views = amounts@.map_values(|m: Money| m@);
        let mut total = Money::zero();
        let mut i: usize = 0;
        while i < amounts.len()
            invariant
                0 <= i <= amounts.len(),
                views == amounts@.map_values(|m: Money| m@),
                sum_models(views.take(i as int)) == Some(total@),
            decreases amounts.len() - i,
        {
            assert(views.take(i as int + 1).drop_last() =~= views.take(i as int));
            match total.checked_add(amounts[i]) {
                Some(t) => {
                    total = t;
                },
                None => {
                    proof {
                        lemma_sum_models_none_extends(views, i as int + 1);
                    }
                    return None;
                },
            }
            i = i + 1;
        }
        assert(views.take(i as int) =~= views);
        Some(total)
    }

    /// The sum of `amounts`; the caller guarantees that no addition
    /// overflows, which [`Money::checked_sum`] tests and reports as `None`.
    pub fn sum(amounts: &[Money]) -> (m: Money)
        requires
            sum_models(amounts@.map_values(|m: Money| m@)) is Some,
        ensures
            m@ == sum_models(amounts@.map_values(|m: Money| m@))->0,
    {
        Money::checked_sum(amounts).unwrap()
    }
}

/// Once the running total of a prefix overflows, it stays overflowed.
pub proof fn lemma_sum_models_none_extends(s: Seq<DecimalModel>, k: int)
    requires
        0 <= k <= s.len(),
        sum_models(s.take(k)) is None,
    ensures
        sum_models(s) is None,
    decreases s.len() - k,
{
    if k < s.len() {
        assert(s.take(k + 1).drop_last() =~= s.take(k));
        lemma_sum_models_none_extends(s, k + 1);
    } else {
        assert(s.take(k) =~= s);
    }
}

} // verus!

verus! {

/// Addition of amounts commutes: when `a + b` fits, `a.checked_add(b)` and
/// `b.checked_add(a)` both succeed with the same value.
pub proof fn law_add_commutative(a: Money, b: Money, x: Option<Money>, y: Option<Money>)
    requires
        call_ensures(Money::checked_add, (&a, b), x),
        call_ensures(Money::checked_add, (&b, a), y),
        sum_fits(a@, b@, a@.units() + b@.units()),
    ensures
        x matches Some(p) && y matches Some(q) && p@.units() == q@.units() && p@.units() == a@.units() + b@.units(),
{
    assert(sum_fits(b@, a@, b@.units() + a@.units()));
}

/// Subtracting what was added gives back the first amount: when `a + b`
/// fits and `a` itself fits at the larger of the two scales,
/// `a.checked_add(b)` succeeds and subtracting `b` from its result gives `a`
/// by value.
pub proof fn law_add_then_sub(a: Money, b: Money, x: Option<Money>, y: Option<Money>)
    requires
        call_ensures(Money::checked_add, (&a, b), x),
        x matches Some(s) ==> call_ensures(Money::checked_sub, (&s, b), y),
        sum_fits(a@, b@, a@.units() + b@.units()),
        sum_fits(a@, b@, a@.units()),
        a@.wf(),
        b@.wf(),
    ensures
        x is Some,
        y matches Some(r) && r@.units() == a@.units(),
{
    let s = x->0;
    let m = crate::decimal::max_scale_of(a@, b@);
    assert(crate::decimal::max_scale_of(s@, b@) <= m);
    crate::decimal::lemma_sum_fits_at_scale(s@, b@, s@.units() - b@.units(), m);
}

} // verus!

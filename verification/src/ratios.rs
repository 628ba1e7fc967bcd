//! Financial ratios: liquidity, solvency, profitability, returns, yields,
//! rate conversions and statistics.

pub mod liquidity;
pub mod solvency;
pub mod profitability;
pub mod yields;
pub mod rates;
pub mod return_metrics;
pub mod statistics;

use vstd::prelude::*;

use crate::decimal::{decimal_div, Decimal, DecimalModel};
use crate::error::{div_zero_model, ok_or_div_zero, or_div_zero, result_view, CasifinError, ErrorModel};

verus! {

/// `numerator / denominator`, refused as a division by zero named
/// `operation` when the denominator is zero or the quotient cannot be held.
pub open spec fn ratio_model(numerator: DecimalModel, denominator: DecimalModel, operation: &str) -> Result<
    DecimalModel,
    ErrorModel,
> {
    if denominator.units() == 0 {
        Err(div_zero_model(operation))
    } else {
        or_div_zero(decimal_div(numerator, denominator), operation)
    }
}

/// `numerator / denominator`; see [`ratio_model`].  A quotient of a
/// non-negative numerator by a positive denominator is not negative; a
/// quotient that a decimal can hold exactly is that exact quotient, and
/// positive for a positive numerator and denominator.
pub fn ratio(numerator: Decimal, denominator: Decimal, operation: &'static str) -> (res: Result<
    Decimal,
    CasifinError,
>)
    ensures
        result_view(res) == ratio_model(numerator@, denominator@, operation),
        res matches Ok(r) ==> (numerator@.units() >= 0 && denominator@.units() > 0 ==> r@.units() >= 0),
        numerator@.units() > 0 && denominator@.units() > 0 && crate::decimal::quotient_is_exact(
            numerator@,
            denominator@,
        ) ==> (res matches Ok(r) && r@.units() > 0),
        crate::decimal::quotient_is_exact(numerator@, denominator@) ==> (res matches Ok(r) && r@.units()
            == crate::decimal::exact_quotient(numerator@, denominator@)),
{
    if denominator.is_zero() {
        return Err(CasifinError::div_zero(operation));
    }
    let r = ok_or_div_zero(numerator.checked_div(denominator), operation);
    proof {
        if numerator@.units() > 0 && denominator@.units() > 0 && crate::decimal::quotient_is_exact(
            numerator@,
            denominator@,
        ) {
            lemma_exact_quotient_positive(numerator@, denominator@);
        }
    }
    r
}

/// The exact quotient of two positive values is positive.
proof fn lemma_exact_quotient_positive(a: DecimalModel, b: DecimalModel)
    requires
        a.units() > 0,
        b.units() > 0,
        crate::decimal::quotient_is_exact(a, b),
    ensures
        crate::decimal::exact_quotient(a, b) > 0,
{
    let p = crate::decimal::pow10(crate::decimal::max_scale());
    crate::decimal::lemma_pow10_pos(crate::decimal::max_scale());
    let x = a.units() * p;
    assert(x > 0) by (nonlinear_arith)
        requires
            a.units() > 0,
            p > 0,
            x == a.units() * p,
    ;
    let q = x / b.units();
    assert(q * b.units() == x) by (nonlinear_arith)
        requires
            x % b.units() == 0,
            b.units() > 0,
            q == x / b.units(),
    ;
    assert(q > 0) by (nonlinear_arith)
        requires
            q * b.units() == x,
            x > 0,
            b.units() > 0,
    ;
}

} // verus!

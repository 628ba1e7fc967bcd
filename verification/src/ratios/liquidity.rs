//! Liquidity ratios.

use vstd::prelude::*;

use crate::decimal::{decimal_add, Decimal, DecimalModel};
use crate::error::{ok_or_overflow, or_overflow, result_view, then, CasifinError, ErrorModel};
use crate::money::Money;
use crate::ratios::{ratio, ratio_model};

verus! {

/// Current ratio: `current assets / current liabilities`.  A zero denominator is refused.
pub fn current_ratio(current_assets: Money, current_liabilities: Money) -> (res: Result<Decimal, CasifinError>)
    ensures
        result_view(res) == ratio_model(current_assets@, current_liabilities@, "current_ratio"),
        res matches Ok(r) ==> (current_assets@.units() >= 0 && current_liabilities@.units() > 0 ==> r@.units() >= 0),
        crate::decimal::quotient_is_exact(current_assets@, current_liabilities@) ==> (res matches Ok(r) && r@.units()
            == crate::decimal::exact_quotient(current_assets@, current_liabilities@)),
{
    ratio(current_assets.inner(), current_liabilities.inner(), "current_ratio")
}

/// `(a + b) + c`, each sum with its own overflow detail.
pub open spec fn sum3_model(
    a: DecimalModel,
    b: DecimalModel,
    c: DecimalModel,
    first: &str,
    second: &str,
) -> Result<DecimalModel, ErrorModel> {
    then(or_overflow(decimal_add(a, b), first), |ab: DecimalModel| or_overflow(decimal_add(ab, c), second))
}

fn sum3(a: Money, b: Money, c: Money, first: &str, second: &str) -> (res: Result<Decimal, CasifinError>)
    ensures
        result_view(res) == sum3_model(a@, b@, c@, first, second),
{
    let ab = ok_or_overflow(a.inner().checked_add(b.inner()), first)?;
    ok_or_overflow(ab.checked_add(c.inner()), second)
}

/// What [`quick_ratio`] returns.
pub open spec fn quick_ratio_model(
    cash: DecimalModel,
    marketable_securities: DecimalModel,
    receivables: DecimalModel,
    current_liabilities: DecimalModel,
) -> Result<DecimalModel, ErrorModel> {
    if current_liabilities.units() == 0 {
        Err(crate::error::div_zero_model("quick_ratio"))
    } else {
        then(
            sum3_model(
                cash,
                marketable_securities,
                receivables,
                "quick_ratio: cash + marketable_securities overflow",
                "quick_ratio: quick assets sum overflow",
            ),
            |quick: DecimalModel| ratio_model(quick, current_liabilities, "quick_ratio"),
        )
    }
}

/// Quick (acid-test) ratio:
/// `(cash + marketable securities + receivables) / current liabilities`.
/// Zero current liabilities are refused.
pub fn quick_ratio(
    cash: Money,
    marketable_securities: Money,
    receivables: Money,
    current_liabilities: Money,
) -> (res: Result<Decimal, CasifinError>)
    ensures
        result_view(res) == quick_ratio_model(cash@, marketable_securities@, receivables@, current_liabilities@),
{
    if current_liabilities.is_zero() {
        return Err(CasifinError::div_zero("quick_ratio"));
    }
    let quick = sum3(
        cash,
        marketable_securities,
        receivables,
        "quick_ratio: cash + marketable_securities overflow",
        "quick_ratio: quick assets sum overflow",
    )?;
    ratio(quick, current_liabilities.inner(), "quick_ratio")
}

/// Cash ratio: `cash / current liabilities`.  A zero denominator is refused.
pub fn cash_ratio(cash: Money, current_liabilities: Money) -> (res: Result<Decimal, CasifinError>)
    ensures
        result_view(res) == ratio_model(cash@, current_liabilities@, "cash_ratio"),
        res matches Ok(r) ==> (cash@.units() >= 0 && current_liabilities@.units() > 0 ==> r@.units() >= 0),
{
    ratio(cash.inner(), current_liabilities.inner(), "cash_ratio")
}

/// What [`defensive_interval`] returns.
pub open spec fn defensive_interval_model(
    cash: DecimalModel,
    marketable_securities: DecimalModel,
    receivables: DecimalModel,
    daily_cash_expenditures: DecimalModel,
) -> Result<DecimalModel, ErrorModel> {
    if daily_cash_expenditures.units() == 0 {
        Err(crate::error::div_zero_model("defensive_interval"))
    } else {
        then(
            sum3_model(
                cash,
                marketable_securities,
                receivables,
                "defensive_interval: liquid assets sum overflow",
                "defensive_interval: liquid assets sum overflow",
            ),
            |liquid: DecimalModel| ratio_model(liquid, daily_cash_expenditures, "defensive_interval"),
        )
    }
}

/// Defensive interval, in days:
/// `(cash + marketable securities + receivables) / daily cash expenditures`.
/// Zero expenditures are refused.
pub fn defensive_interval(
    cash: Money,
    marketable_securities: Money,
    receivables: Money,
    daily_cash_expenditures: Money,
) -> (res: Result<Decimal, CasifinError>)
    ensures
        result_view(res) == defensive_interval_model(
            cash@,
            marketable_securities@,
            receivables@,
            daily_cash_expenditures@,
        ),
{
    if daily_cash_expenditures.is_zero() {
        return Err(CasifinError::div_zero("defensive_interval"));
    }
    let liquid = sum3(
        cash,
        marketable_securities,
        receivables,
        "defensive_interval: liquid assets sum overflow",
        "defensive_interval: liquid assets sum overflow",
    )?;
    ratio(liquid, daily_cash_expenditures.inner(), "defensive_interval")
}

} // verus!

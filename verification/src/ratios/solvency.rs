//! Solvency and leverage ratios.

use vstd::prelude::*;

use crate::decimal::Decimal;
use crate::error::{result_view, CasifinError};
use crate::money::Money;
use crate::ratios::{ratio, ratio_model};

verus! {

/// Debt ratio: `total debt / total assets`.  A zero denominator is refused.
pub fn debt_ratio(total_debt: Money, total_assets: Money) -> (res: Result<Decimal, CasifinError>)
    ensures
        result_view(res) == ratio_model(total_debt@, total_assets@, "debt_ratio"),
        res matches Ok(r) ==> (total_debt@.units() >= 0 && total_assets@.units() > 0 ==> r@.units() >= 0),
{
    ratio(total_debt.inner(), total_assets.inner(), "debt_ratio")
}

/// Debt-to-equity ratio: `total debt / total equity`.  A zero denominator is refused.
pub fn debt_to_equity(total_debt: Money, total_equity: Money) -> (res: Result<Decimal, CasifinError>)
    ensures
        result_view(res) == ratio_model(total_debt@, total_equity@, "debt_to_equity"),
        res matches Ok(r) ==> (total_debt@.units() >= 0 && total_equity@.units() > 0 ==> r@.units() >= 0),
{
    ratio(total_debt.inner(), total_equity.inner(), "debt_to_equity")
}

/// Financial leverage: `total assets / total equity`.  A zero denominator is refused.
pub fn financial_leverage(total_assets: Money, total_equity: Money) -> (res: Result<Decimal, CasifinError>)
    ensures
        result_view(res) == ratio_model(total_assets@, total_equity@, "financial_leverage"),
        res matches Ok(r) ==> (total_assets@.units() >= 0 && total_equity@.units() > 0 ==> r@.units() >= 0),
{
    ratio(total_assets.inner(), total_equity.inner(), "financial_leverage")
}

/// Interest coverage: `EBIT / interest expense`.  A zero denominator is refused.
pub fn interest_coverage(ebit: Money, interest_expense: Money) -> (res: Result<Decimal, CasifinError>)
    ensures
        result_view(res) == ratio_model(ebit@, interest_expense@, "interest_coverage"),
        res matches Ok(r) ==> (ebit@.units() >= 0 && interest_expense@.units() > 0 ==> r@.units() >= 0),
{
    ratio(ebit.inner(), interest_expense.inner(), "interest_coverage")
}

} // verus!

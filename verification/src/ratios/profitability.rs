//! Profitability ratios.

use vstd::prelude::*;

use crate::decimal::{decimal_add, decimal_sub, Decimal, DecimalModel};
use crate::error::{ok_or_overflow, or_overflow, result_view, then, CasifinError, ErrorModel};
use crate::money::Money;
use crate::ratios::{ratio, ratio_model};

verus! {

/// Gross profit margin: `gross profit / revenue`.  A zero denominator is refused.
pub fn gross_profit_margin(gross_profit: Money, revenue: Money) -> (res: Result<Decimal, CasifinError>)
    ensures
        result_view(res) == ratio_model(gross_profit@, revenue@, "gross_profit_margin"),
        res matches Ok(r) ==> (gross_profit@.units() >= 0 && revenue@.units() > 0 ==> r@.units() >= 0),
{
    ratio(gross_profit.inner(), revenue.inner(), "gross_profit_margin")
}

/// Operating profit margin: `operating income / revenue`.  A zero denominator is refused.
pub fn operating_profit_margin(operating_income: Money, revenue: Money) -> (res: Result<Decimal, CasifinError>)
    ensures
        result_view(res) == ratio_model(operating_income@, revenue@, "operating_profit_margin"),
        res matches Ok(r) ==> (operating_income@.units() >= 0 && revenue@.units() > 0 ==> r@.units() >= 0),
{
    ratio(operating_income.inner(), revenue.inner(), "operating_profit_margin")
}

/// Net profit margin: `net income / revenue`.  A zero denominator is refused.
pub fn net_profit_margin(net_income: Money, revenue: Money) -> (res: Result<Decimal, CasifinError>)
    ensures
        result_view(res) == ratio_model(net_income@, revenue@, "net_profit_margin"),
        res matches Ok(r) ==> (net_income@.units() >= 0 && revenue@.units() > 0 ==> r@.units() >= 0),
{
    ratio(net_income.inner(), revenue.inner(), "net_profit_margin")
}

/// Return on assets: `net income / total assets`.  A zero denominator is refused.
pub fn return_on_assets(net_income: Money, total_assets: Money) -> (res: Result<Decimal, CasifinError>)
    ensures
        result_view(res) == ratio_model(net_income@, total_assets@, "return_on_assets"),
        res matches Ok(r) ==> (net_income@.units() >= 0 && total_assets@.units() > 0 ==> r@.units() >= 0),
{
    ratio(net_income.inner(), total_assets.inner(), "return_on_assets")
}

/// Return on equity: `net income / total equity`.  A zero denominator is refused.
pub fn return_on_equity(net_income: Money, total_equity: Money) -> (res: Result<Decimal, CasifinError>)
    ensures
        result_view(res) == ratio_model(net_income@, total_equity@, "return_on_equity"),
        res matches Ok(r) ==> (net_income@.units() >= 0 && total_equity@.units() > 0 ==> r@.units() >= 0),
{
    ratio(net_income.inner(), total_equity.inner(), "return_on_equity")
}

/// What [`basic_eps`] returns.
pub open spec fn basic_eps_model(
    net_income: DecimalModel,
    preferred_dividends: DecimalModel,
    shares_outstanding: DecimalModel,
) -> Result<DecimalModel, ErrorModel> {
    if shares_outstanding.units() == 0 {
        Err(crate::error::div_zero_model("basic_eps"))
    } else {
        then(
            or_overflow(decimal_sub(net_income, preferred_dividends), "basic_eps: numerator overflow"),
            |numerator: DecimalModel| ratio_model(numerator, shares_outstanding, "basic_eps"),
        )
    }
}

/// Basic earnings per share:
/// `(net income - preferred dividends) / shares outstanding`.
/// Zero shares are refused.
pub fn basic_eps(net_income: Money, preferred_dividends: Money, shares_outstanding: Decimal) -> (res: Result<
    Decimal,
    CasifinError,
>)
    ensures
        result_view(res) == basic_eps_model(net_income@, preferred_dividends@, shares_outstanding@),
{
    if shares_outstanding.is_zero() {
        return Err(CasifinError::div_zero("basic_eps"));
    }
    let numerator = ok_or_overflow(
        net_income.inner().checked_sub(preferred_dividends.inner()),
        "basic_eps: numerator overflow",
    )?;
    ratio(numerator, shares_outstanding, "basic_eps")
}

/// What [`diluted_eps`] returns.
pub open spec fn diluted_eps_model(
    net_income: DecimalModel,
    preferred_dividends: DecimalModel,
    weighted_shares: DecimalModel,
    potential_shares: DecimalModel,
) -> Result<DecimalModel, ErrorModel> {
    then(
        or_overflow(decimal_add(weighted_shares, potential_shares), "diluted_eps: share count overflow"),
        |total_shares: DecimalModel|
            if total_shares.units() == 0 {
                Err(crate::error::div_zero_model("diluted_eps"))
            } else {
                then(
                    or_overflow(decimal_sub(net_income, preferred_dividends), "diluted_eps: numerator overflow"),
                    |numerator: DecimalModel| ratio_model(numerator, total_shares, "diluted_eps"),
                )
            },
    )
}

/// Diluted earnings per share: `(net income - preferred dividends) /
/// (weighted shares + potential shares)`.  Zero total shares are refused.
pub fn diluted_eps(
    net_income: Money,
    preferred_dividends: Money,
    weighted_shares: Decimal,
    potential_shares: Decimal,
) -> (res: Result<Decimal, CasifinError>)
    ensures
        result_view(res) == diluted_eps_model(net_income@, preferred_dividends@, weighted_shares@, potential_shares@),
{
    let total_shares = ok_or_overflow(
        weighted_shares.checked_add(potential_shares),
        "diluted_eps: share count overflow",
    )?;
    if total_shares.is_zero() {
        return Err(CasifinError::div_zero("diluted_eps"));
    }
    let numerator = ok_or_overflow(
        net_income.inner().checked_sub(preferred_dividends.inner()),
        "diluted_eps: numerator overflow",
    )?;
    ratio(numerator, total_shares, "diluted_eps")
}

} // verus!

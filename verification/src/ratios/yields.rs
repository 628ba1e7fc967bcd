//! Yields of money-market instruments and bonds.

use vstd::prelude::*;

use crate::decimal::{decimal_add, decimal_div, decimal_mul, decimal_sub, int_model, Decimal, DecimalModel};
use crate::error::{
    div_zero_model, ok_or_div_zero, ok_or_overflow, or_div_zero, or_overflow, result_view, then, CasifinError,
    ErrorModel,
};
use crate::money::Money;

verus! {

/// `(face - price) / base * 360 / days`, with the errors named after `name`.
pub open spec fn discount_yield_model(
    face_value: DecimalModel,
    purchase_price: DecimalModel,
    base: DecimalModel,
    days_to_maturity: u32,
    discount_detail: &str,
    days_operation: &str,
    operation: &str,
    yield_detail: &str,
) -> Result<DecimalModel, ErrorModel> {
    if base.units() == 0 || days_to_maturity == 0 {
        Err(div_zero_model(operation))
    } else {
        then(
            or_overflow(decimal_sub(face_value, purchase_price), discount_detail),
            |discount: DecimalModel|
                then(
                    or_div_zero(decimal_div(int_model(360), int_model(days_to_maturity as int)), days_operation),
                    |days_factor: DecimalModel|
                        then(
                            or_div_zero(decimal_div(discount, base), operation),
                            |fraction: DecimalModel| or_overflow(decimal_mul(fraction, days_factor), yield_detail),
                        ),
                ),
        )
    }
}

fn discount_yield(
    face_value: Money,
    purchase_price: Money,
    base: Money,
    days_to_maturity: u32,
    discount_detail: &str,
    days_operation: &'static str,
    operation: &'static str,
    yield_detail: &str,
) -> (res: Result<Decimal, CasifinError>)
    ensures
        result_view(res) == discount_yield_model(
            face_value@,
            purchase_price@,
            base@,
            days_to_maturity,
            discount_detail,
            days_operation,
            operation,
            yield_detail,
        ),
{
    if base.is_zero() || days_to_maturity == 0 {
        return Err(CasifinError::div_zero(operation));
    }
    let discount = ok_or_overflow(face_value.inner().checked_sub(purchase_price.inner()), discount_detail)?;
    let days_factor = ok_or_div_zero(
        Decimal::from_u32(360).checked_div(Decimal::from_u32(days_to_maturity)),
        days_operation,
    )?;
    let fraction = ok_or_div_zero(discount.checked_div(base.inner()), operation)?;
    ok_or_overflow(fraction.checked_mul(days_factor), yield_detail)
}

/// Bank discount yield: `(face - price) / face * 360 / days`.  A zero face
/// value and zero days are refused.
pub fn bank_discount_yield(face_value: Money, purchase_price: Money, days_to_maturity: u32) -> (res: Result<
    Decimal,
    CasifinError,
>)
    ensures
        result_view(res) == discount_yield_model(
            face_value@,
            purchase_price@,
            face_value@,
            days_to_maturity,
            "bank_discount_yield: discount overflow",
            "bank_discount_yield days factor",
            "bank_discount_yield",
            "bank_discount_yield: yield overflow",
        ),
{
    discount_yield(
        face_value,
        purchase_price,
        face_value,
        days_to_maturity,
        "bank_discount_yield: discount overflow",
        "bank_discount_yield days factor",
        "bank_discount_yield",
        "bank_discount_yield: yield overflow",
    )
}

/// Money market yield: `(face - price) / price * 360 / days`.  A zero
/// price and zero days are refused.
pub fn money_market_yield(face_value: Money, purchase_price: Money, days_to_maturity: u32) -> (res: Result<
    Decimal,
    CasifinError,
>)
    ensures
        result_view(res) == discount_yield_model(
            face_value@,
            purchase_price@,
            purchase_price@,
            days_to_maturity,
            "money_market_yield: discount overflow",
            "money_market_yield days factor",
            "money_market_yield",
            "money_market_yield: yield overflow",
        ),
{
    discount_yield(
        face_value,
        purchase_price,
        purchase_price,
        days_to_maturity,
        "money_market_yield: discount overflow",
        "money_market_yield days factor",
        "money_market_yield",
        "money_market_yield: yield overflow",
    )
}

/// Bond equivalent yield: twice the semi-annual yield.
pub fn bond_equivalent_yield(semi_annual_yield: Decimal) -> (res: Result<Decimal, CasifinError>)
    ensures
        result_view(res) == or_overflow(
            decimal_mul(semi_annual_yield@, int_model(2)),
            "bond_equivalent_yield: overflow",
        ),
{
    ok_or_overflow(semi_annual_yield.checked_mul(Decimal::from_u32(2)), "bond_equivalent_yield: overflow")
}

/// What [`holding_period_yield`] returns.
pub open spec fn holding_period_yield_model(
    purchase_price: DecimalModel,
    sale_price: DecimalModel,
    coupon: DecimalModel,
) -> Result<DecimalModel, ErrorModel> {
    if purchase_price.units() == 0 {
        Err(div_zero_model("holding_period_yield"))
    } else {
        then(
            or_overflow(decimal_sub(sale_price, purchase_price), "holding_period_yield: gain overflow"),
            |price_gain: DecimalModel|
                then(
                    or_overflow(decimal_add(price_gain, coupon), "holding_period_yield: gain overflow"),
                    |gain: DecimalModel|
                        or_div_zero(decimal_div(gain, purchase_price), "holding_period_yield"),
                ),
        )
    }
}

/// Holding period yield: `(sale - purchase + coupon) / purchase`.  A zero
/// purchase price is refused.
pub fn holding_period_yield(purchase_price: Money, sale_price: Money, coupon: Money) -> (res: Result<
    Decimal,
    CasifinError,
>)
    ensures
        result_view(res) == holding_period_yield_model(purchase_price@, sale_price@, coupon@),
{
    if purchase_price.is_zero() {
        return Err(CasifinError::div_zero("holding_period_yield"));
    }
    let price_gain = ok_or_overflow(
        sale_price.inner().checked_sub(purchase_price.inner()),
        "holding_period_yield: gain overflow",
    )?;
    let gain = ok_or_overflow(price_gain.checked_add(coupon.inner()), "holding_period_yield: gain overflow")?;
    ok_or_div_zero(gain.checked_div(purchase_price.inner()), "holding_period_yield")
}

} // verus!

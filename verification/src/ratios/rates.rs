//! Conversions between stated, effective, continuous and holding-period rates.

use vstd::prelude::*;

use crate::decimal::{
    decimal_add, decimal_div, decimal_ln, decimal_mul, decimal_powd, decimal_sub, e_model, int_model, one_model,
    Decimal, DecimalModel,
};
use crate::error::{
    div_zero_model, ok_or_div_zero, ok_or_overflow, or_div_zero, or_overflow, result_view, then, CasifinError,
    ErrorModel,
};
use crate::rate::{Compounding, Rate};

verus! {

/// `power - 1`, or the overflow error `detail` when `power` is missing.
pub open spec fn less_one(power: Result<DecimalModel, ErrorModel>, detail: &str) -> Result<DecimalModel, ErrorModel> {
    then(power, |p: DecimalModel| or_overflow(decimal_sub(p, one_model()), detail))
}

/// What [`effective_annual_rate`] returns: a negative rate and a zero
/// frequency are refused; otherwise `(1 + r/n)^n - 1`, or `e^r - 1` under
/// continuous compounding.
pub open spec fn ear_model(stated_rate: DecimalModel, compounding: Compounding) -> Result<DecimalModel, ErrorModel> {
    if stated_rate.units() < 0 {
        Err(ErrorModel::InvalidRate(stated_rate))
    } else {
        match compounding {
            Compounding::Discrete(n) => if n == 0 {
                Err(ErrorModel::InvalidCompounding)
            } else {
                then(
                    or_div_zero(decimal_div(stated_rate, int_model(n as int)), "effective_annual_rate periodic"),
                    |periodic: DecimalModel|
                        then(
                            or_overflow(decimal_add(one_model(), periodic), "effective_annual_rate: base overflow"),
                            |base: DecimalModel|
                                less_one(
                                    or_overflow(
                                        decimal_powd(base, int_model(n as int)),
                                        "effective_annual_rate: power overflow",
                                    ),
                                    "effective_annual_rate: result overflow",
                                ),
                        ),
                )
            },
            Compounding::Continuous => less_one(
                or_overflow(decimal_powd(e_model(), stated_rate), "effective_annual_rate: continuous power overflow"),
                "effective_annual_rate: result overflow",
            ),
        }
    }
}

fn minus_one(power: Decimal, detail: &str) -> (res: Result<Decimal, CasifinError>)
    ensures
        result_view(res) == or_overflow(decimal_sub(power@, one_model()), detail),
{
    ok_or_overflow(power.checked_sub(Decimal::one()), detail)
}

/// The effective annual rate of a stated annual rate:
/// `EAR = (1 + r/n)^n - 1`, or `e^r - 1` under continuous compounding.
pub fn effective_annual_rate(stated_rate: Decimal, compounding: Compounding) -> (res: Result<Decimal, CasifinError>)
    ensures
        result_view(res) == ear_model(stated_rate@, compounding),
{
    if stated_rate.is_sign_negative() {
        return Err(CasifinError::InvalidRate(stated_rate));
    }
    match compounding {
        Compounding::Discrete(n) => {
            if n == 0 {
                return Err(CasifinError::InvalidCompounding);
            }
            let periodic = ok_or_div_zero(
                stated_rate.checked_div(Decimal::from_u32(n)),
                "effective_annual_rate periodic",
            )?;
            let base = ok_or_overflow(Decimal::one().checked_add(periodic), "effective_annual_rate: base overflow")?;
            let power = ok_or_overflow(
                base.checked_powd(Decimal::from_u32(n)),
                "effective_annual_rate: power overflow",
            )?;
            minus_one(power, "effective_annual_rate: result overflow")
        },
        Compounding::Continuous => {
            let power = ok_or_overflow(
                Decimal::e().checked_powd(stated_rate),
                "effective_annual_rate: continuous power overflow",
            )?;
            minus_one(power, "effective_annual_rate: result overflow")
        },
    }
}

/// `ln(1 + rate)`, refused as an invalid `rate` where the logarithm fails.
pub open spec fn ln_one_plus(rate: DecimalModel, base_detail: &str) -> Result<DecimalModel, ErrorModel> {
    then(
        or_overflow(decimal_add(one_model(), rate), base_detail),
        |base: DecimalModel|
            match decimal_ln(base) {
                Some(l) => Ok(l),
                None => Err(ErrorModel::InvalidRate(rate)),
            },
    )
}

fn ln_one_plus_exec(rate: Decimal, base_detail: &str) -> (res: Result<Decimal, CasifinError>)
    ensures
        result_view(res) == ln_one_plus(rate@, base_detail),
{
    let base = ok_or_overflow(Decimal::one().checked_add(rate), base_detail)?;
    match base.checked_ln() {
        Some(l) => Ok(l),
        None => Err(CasifinError::InvalidRate(rate)),
    }
}

/// What [`stated_from_effective`] returns: a zero frequency is refused;
/// otherwise `n ((1 + EAR)^(1/n) - 1)`, or `ln(1 + EAR)` under continuous
/// compounding.
pub open spec fn stated_model(effective_rate: DecimalModel, compounding: Compounding) -> Result<DecimalModel, ErrorModel> {
    match compounding {
        Compounding::Discrete(n) => if n == 0 {
            Err(ErrorModel::InvalidCompounding)
        } else {
            then(
                or_div_zero(decimal_div(one_model(), int_model(n as int)), "stated_from_effective exponent"),
                |exponent: DecimalModel|
                    then(
                        or_overflow(decimal_add(one_model(), effective_rate), "stated_from_effective: base overflow"),
                        |base: DecimalModel|
                            then(
                                less_one(
                                    or_overflow(decimal_powd(base, exponent), "stated_from_effective: root overflow"),
                                    "stated_from_effective: spread overflow",
                                ),
                                |spread: DecimalModel|
                                    or_overflow(
                                        decimal_mul(spread, int_model(n as int)),
                                        "stated_from_effective: result overflow",
                                    ),
                            ),
                    ),
            )
        },
        Compounding::Continuous => ln_one_plus(effective_rate, "stated_from_effective: base overflow"),
    }
}

/// The stated annual rate with the given compounding whose effective annual
/// rate is `effective_rate`: `n ((1 + EAR)^(1/n) - 1)`, or `ln(1 + EAR)`
/// under continuous compounding.
pub fn stated_from_effective(effective_rate: Decimal, compounding: Compounding) -> (res: Result<
    Decimal,
    CasifinError,
>)
    ensures
        result_view(res) == stated_model(effective_rate@, compounding),
{
    match compounding {
        Compounding::Discrete(n) => {
            if n == 0 {
                return Err(CasifinError::InvalidCompounding);
            }
            let exponent = ok_or_div_zero(
                Decimal::one().checked_div(Decimal::from_u32(n)),
                "stated_from_effective exponent",
            )?;
            let base = ok_or_overflow(
                Decimal::one().checked_add(effective_rate),
                "stated_from_effective: base overflow",
            )?;
            let root = ok_or_overflow(base.checked_powd(exponent), "stated_from_effective: root overflow")?;
            let spread = minus_one(root, "stated_from_effective: spread overflow")?;
            ok_or_overflow(spread.checked_mul(Decimal::from_u32(n)), "stated_from_effective: result overflow")
        },
        Compounding::Continuous => ln_one_plus_exec(effective_rate, "stated_from_effective: base overflow"),
    }
}

/// The rate `ln(1 + r)` of a continuously compounded rate `r`; a rate below
/// `-1` is refused.
pub fn continuous_to_nominal(continuous_rate: Decimal) -> (res: Result<Decimal, CasifinError>)
    ensures
        result_view(res) == if continuous_rate@.units() < int_model(-1).units() {
            Err(ErrorModel::InvalidRate(continuous_rate@))
        } else {
            ln_one_plus(continuous_rate@, "continuous_to_nominal: base overflow")
        },
{
    if continuous_rate.lt(&Decimal::negative_one()) {
        return Err(CasifinError::InvalidRate(continuous_rate));
    }
    ln_one_plus_exec(continuous_rate, "continuous_to_nominal: base overflow")
}

/// The rate `e^r - 1` of a nominal rate `r`; a negative rate is refused.
pub fn nominal_to_continuous(nominal_rate: Decimal) -> (res: Result<Decimal, CasifinError>)
    ensures
        result_view(res) == if nominal_rate@.units() < 0 {
            Err(ErrorModel::InvalidRate(nominal_rate@))
        } else {
            less_one(
                or_overflow(decimal_powd(e_model(), nominal_rate@), "nominal_to_continuous: power overflow"),
                "nominal_to_continuous: result overflow",
            )
        },
{
    if nominal_rate.is_sign_negative() {
        return Err(CasifinError::InvalidRate(nominal_rate));
    }
    let power = ok_or_overflow(Decimal::e().checked_powd(nominal_rate), "nominal_to_continuous: power overflow")?;
    minus_one(power, "nominal_to_continuous: result overflow")
}

/// What [`holding_period_to_effective`] returns.
pub open spec fn holding_period_to_effective_model(hpr: DecimalModel, periods_per_year: u32) -> Result<
    DecimalModel,
    ErrorModel,
> {
    if periods_per_year == 0 {
        Err(div_zero_model("holding_period_to_effective"))
    } else {
        then(
            or_overflow(decimal_add(one_model(), hpr), "holding_period_to_effective: base overflow"),
            |base: DecimalModel|
                then(
                    or_div_zero(
                        decimal_div(one_model(), int_model(periods_per_year as int)),
                        "holding_period_to_effective",
                    ),
                    |exponent: DecimalModel|
                        less_one(
                            or_overflow(decimal_powd(base, exponent), "holding_period_to_effective: power overflow"),
                            "holding_period_to_effective: result overflow",
                        ),
                ),
        )
    }
}

/// The per-period rate `(1 + HPR)^(1/n) - 1` of a holding period return
/// earned over `n` periods; zero periods are refused.
pub fn holding_period_to_effective(hpr: Decimal, periods_per_year: u32) -> (res: Result<Decimal, CasifinError>)
    ensures
        result_view(res) == holding_period_to_effective_model(hpr@, periods_per_year),
{
    if periods_per_year == 0 {
        return Err(CasifinError::div_zero("holding_period_to_effective"));
    }
    let base = ok_or_overflow(Decimal::one().checked_add(hpr), "holding_period_to_effective: base overflow")?;
    let exponent = ok_or_div_zero(
        Decimal::one().checked_div(Decimal::from_u32(periods_per_year)),
        "holding_period_to_effective",
    )?;
    let power = ok_or_overflow(base.checked_powd(exponent), "holding_period_to_effective: power overflow")?;
    minus_one(power, "holding_period_to_effective: result overflow")
}

/// The stated annual rate of [`equivalent_rate`]: the stated rate with
/// compounding `target_compounding` whose effective annual rate is that of `rate`.
pub open spec fn equivalent_stated_model(rate: Rate, target_compounding: Compounding) -> Result<
    DecimalModel,
    ErrorModel,
> {
    then(
        ear_model(rate.annual_rate@, rate.compounding),
        |effective: DecimalModel| stated_model(effective, target_compounding),
    )
}

/// The rate with compounding `target_compounding` that has the same
/// effective annual rate as `rate`, under `rate`'s day count convention.
/// A negative equivalent rate is refused.
pub fn equivalent_rate(rate: Rate, target_compounding: Compounding) -> (res: Result<Rate, CasifinError>)
    ensures
        match (res, equivalent_stated_model(rate, target_compounding)) {
            (Ok(r), Ok(stated)) => r.annual_rate@ == stated && r.compounding == target_compounding
                && r.convention == rate.convention,
            (Err(e), Ok(stated)) => stated.units() < 0 && e@ == ErrorModel::InvalidRate(stated),
            (Err(e), Err(f)) => e@ == f,
            (Ok(_), Err(_)) => false,
        },
{
    let effective = effective_annual_rate(rate.annual_rate, rate.compounding)?;
    let stated = stated_from_effective(effective, target_compounding)?;
    Rate::new(stated, target_compounding, rate.convention)
}

} // verus!

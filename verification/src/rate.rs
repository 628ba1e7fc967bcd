//! Interest rates with compounding and day count conventions.

use vstd::prelude::*;

use crate::decimal::{
    decimal_add, decimal_div, e_model, decimal_powd, decimal_powi, decimal_sub, int_model, one_model,
    Decimal, DecimalModel,
};
use crate::error::{
    or_div_zero, or_overflow, result_view, CasifinError, ErrorModel, ok_or_div_zero, ok_or_overflow,
};

verus! {

/// How often interest is compounded per year.
#[derive(Clone, Copy, Debug, PartialEq, Eq, Structural)]
pub enum Compounding {
    /// Compounded `n` times per year (e.g. 12 for monthly).
    Discrete(u32),
    /// Compounded continuously.
    Continuous,
}

impl Compounding {
    /// Monthly compounding (12 times per year).
    pub fn monthly() -> (c: Compounding)
        ensures
            c == Compounding::Discrete(12),
    {
        Compounding::Discrete(12)
    }

    /// Quarterly compounding (4 times per year).
    pub fn quarterly() -> (c: Compounding)
        ensures
            c == Compounding::Discrete(4),
    {
        Compounding::Discrete(4)
    }

    /// Semi-annual compounding (2 times per year).
    pub fn semi_annual() -> (c: Compounding)
        ensures
            c == Compounding::Discrete(2),
    {
        Compounding::Discrete(2)
    }

    /// Annual compounding (once per year).
    pub fn annual() -> (c: Compounding)
        ensures
            c == Compounding::Discrete(1),
    {
        Compounding::Discrete(1)
    }

    /// Daily compounding (365 times per year).
    pub fn daily() -> (c: Compounding)
        ensures
            c == Compounding::Discrete(365),
    {
        Compounding::Discrete(365)
    }
}

impl Default for Compounding {
    fn default() -> (c: Compounding)
        ensures
            c == Compounding::Discrete(12),
    {
        Compounding::Discrete(12)
    }
}

/// The day count convention for interest accrual.
#[derive(Clone, Copy, Debug, PartialEq, Eq, Structural)]
pub enum DayCount {
    /// Actual days / 365.
    Actual365,
    /// Actual days / 360.
    Actual360,
    /// 30-day months / 360-day year (US method).
    Thirty360,
    /// 30-day months / 360-day year (European method).
    ThirtyE360,
}

impl Default for DayCount {
    fn default() -> (d: DayCount)
        ensures
            d == DayCount::Actual365,
    {
        DayCount::Actual365
    }
}

/// The denominator a convention divides day counts by.
pub open spec fn denominator_model(d: DayCount) -> u32 {
    match d {
        DayCount::Actual365 => 365,
        _ => 360,
    }
}

impl DayCount {
    /// The denominator for this convention: 365 for Actual/365; 360 for
    /// Actual/360 and for the two 30-day-month conventions, whose year has
    /// 360 days.
    pub fn denominator(&self) -> (n: u32)
        ensures
            n == denominator_model(*self),
    {
        match self {
            DayCount::Actual365 => 365,
            DayCount::Actual360 | DayCount::Thirty360 | DayCount::ThirtyE360 => 360,
        }
    }

    /// The fraction of a year between two day numbers: `(end - start) / denominator`.
    pub fn year_fraction(&self, start: i64, end: i64) -> (f: Decimal)
        requires
            i64::MIN <= end - start <= i64::MAX,
        ensures
            Some(f@) == decimal_div(int_model(end - start), int_model(denominator_model(*self) as int)),
    {
        let days = end - start;
        let q = Decimal::from_i64(days).checked_div(Decimal::from_u32(self.denominator()));
        proof {
            let den = denominator_model(*self) as int;
            let p = crate::decimal::pow10(28);
            crate::decimal::lemma_pow10_pos(28);
            assert(den * p >= p) by (nonlinear_arith)
                requires
                    den >= 1,
                    p > 0,
            ;
        }
        q.unwrap()
    }
}

/// When payments fall within a period.
#[derive(Clone, Copy, Debug, PartialEq, Eq, Structural)]
pub enum PaymentDue {
    /// At the beginning of each period (annuity due).
    Beginning,
    /// At the end of each period (ordinary annuity).
    End,
}

/// An interest rate with its compounding and day count convention.
#[derive(Clone, Copy, Debug, PartialEq)]
pub struct Rate {
    /// The annual rate as a fraction (0.0425 for 4.25%).
    pub annual_rate: Decimal,
    /// The compounding frequency.
    pub compounding: Compounding,
    /// The day count convention.
    pub convention: DayCount,
}

/// What [`Rate::new`] returns.
pub open spec fn rate_new_model(annual_rate: Decimal, compounding: Compounding, convention: DayCount) -> Result<
    Rate,
    ErrorModel,
> {
    if annual_rate@.units() < 0 {
        Err(ErrorModel::InvalidRate(annual_rate@))
    } else if compounding == Compounding::Discrete(0) {
        Err(ErrorModel::InvalidCompounding)
    } else {
        Ok(Rate { annual_rate, compounding, convention })
    }
}

/// `annual_rate / periods`, as [`Rate::periodic_rate`] returns it.
pub open spec fn periodic_rate_model(annual_rate: DecimalModel, periods: u32) -> Result<
    DecimalModel,
    ErrorModel,
> {
    or_div_zero(decimal_div(annual_rate, int_model(periods as int)), "periodic_rate calculation")
}

/// The rate of one compounding period: the annual rate divided by the
/// frequency, or the annual rate itself under continuous compounding.
pub open spec fn compounding_period_rate_model(rate: Rate) -> Result<DecimalModel, ErrorModel> {
    match rate.compounding {
        Compounding::Discrete(n) => or_div_zero(
            decimal_div(rate.annual_rate@, int_model(n as int)),
            "periodic_rate",
        ),
        Compounding::Continuous => Ok(rate.annual_rate@),
    }
}

/// `power - 1`, the last step of an effective annual rate.
pub open spec fn minus_one_model(power: Option<DecimalModel>, detail: &str) -> Result<
    DecimalModel,
    ErrorModel,
> {
    match or_overflow(power, "effective_annual_rate power overflow") {
        Ok(p) => or_overflow(decimal_sub(p, one_model()), detail),
        Err(e) => Err(e),
    }
}

/// What [`Rate::effective_annual_rate`] returns: `(1 + r/n)^n - 1`, or
/// `e^r - 1` under continuous compounding.
pub open spec fn effective_annual_rate_model(rate: Rate) -> Result<DecimalModel, ErrorModel> {
    match rate.compounding {
        Compounding::Discrete(n) => match periodic_rate_model(rate.annual_rate@, n) {
            Ok(periodic) => match or_overflow(
                decimal_add(one_model(), periodic),
                "effective_annual_rate base overflow",
            ) {
                Ok(base) => minus_one_model(
                    decimal_powi(base, n as int),
                    "effective_annual_rate result overflow",
                ),
                Err(e) => Err(e),
            },
            Err(e) => Err(e),
        },
        Compounding::Continuous => minus_one_model(
            decimal_powd(e_model(), rate.annual_rate@),
            "effective_annual_rate result overflow",
        ),
    }
}

impl Rate {
    /// Creates a rate; a negative rate is refused with `InvalidRate`, a
    /// discrete frequency of zero with `InvalidCompounding`.
    pub fn new(annual_rate: Decimal, compounding: Compounding, convention: DayCount) -> (r: Result<
        Rate,
        CasifinError,
    >)
        ensures
            match (r, rate_new_model(annual_rate, compounding, convention)) {
                (Ok(x), Ok(y)) => x == y,
                (Err(e), Err(f)) => e@ == f,
                _ => false,
            },
    {
        if annual_rate.is_sign_negative() {
            return Err(CasifinError::InvalidRate(annual_rate));
        }
        if let Compounding::Discrete(n) = compounding {
            if n == 0 {
                return Err(CasifinError::InvalidCompounding);
            }
        }
        Ok(Rate { annual_rate, compounding, convention })
    }

    /// The same rate under another day count convention.
    pub fn with_convention(self, convention: DayCount) -> (r: Rate)
        ensures
            r == (Rate { convention, ..self }),
    {
        Rate { convention, ..self }
    }

    /// The annual rate divided by `periods_per_year`.
    pub fn periodic_rate(&self, periods_per_year: u32) -> (r: Result<Decimal, CasifinError>)
        ensures
            result_view(r) == periodic_rate_model(self.annual_rate@, periods_per_year),
    {
        ok_or_div_zero(
            self.annual_rate.checked_div(Decimal::from_u32(periods_per_year)),
            "periodic_rate calculation",
        )
    }

    /// The rate per payment period, for `payments_per_year` payments a year.
    pub fn rate_per_period(&self, payments_per_year: u32) -> (r: Result<Decimal, CasifinError>)
        ensures
            result_view(r) == periodic_rate_model(self.annual_rate@, payments_per_year),
    {
        self.periodic_rate(payments_per_year)
    }

    /// The rate of one compounding period.
    pub fn compounding_period_rate(&self) -> (r: Result<Decimal, CasifinError>)
        ensures
            result_view(r) == compounding_period_rate_model(*self),
    {
        match self.compounding {
            Compounding::Discrete(n) => ok_or_div_zero(
                self.annual_rate.checked_div(Decimal::from_u32(n)),
                "periodic_rate",
            ),
            Compounding::Continuous => Ok(self.annual_rate),
        }
    }

    /// The effective annual rate.
    pub fn effective_annual_rate(&self) -> (r: Result<Decimal, CasifinError>)
        ensures
            result_view(r) == effective_annual_rate_model(*self),
    {
        match self.compounding {
            Compounding::Discrete(n) => {
                let periodic = match self.periodic_rate(n) {
                    Ok(p) => p,
                    Err(e) => return Err(e),
                };
                let base = match ok_or_overflow(
                    Decimal::one().checked_add(periodic),
                    "effective_annual_rate base overflow",
                ) {
                    Ok(b) => b,
                    Err(e) => return Err(e),
                };
                let power = match ok_or_overflow(
                    base.checked_powi(n as i64),
                    "effective_annual_rate power overflow",
                ) {
                    Ok(p) => p,
                    Err(e) => return Err(e),
                };
                ok_or_overflow(power.checked_sub(Decimal::one()), "effective_annual_rate result overflow")
            },
            Compounding::Continuous => {
                let power = match ok_or_overflow(
                    Decimal::e().checked_powd(self.annual_rate),
                    "effective_annual_rate power overflow",
                ) {
                    Ok(p) => p,
                    Err(e) => return Err(e),
                };
                ok_or_overflow(power.checked_sub(Decimal::one()), "effective_annual_rate result overflow")
            },
        }
    }
}

} // verus!

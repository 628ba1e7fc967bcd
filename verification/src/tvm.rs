//! Time value of money: present and future value, payment, number of
//! periods, rate, perpetuities and uneven cash flows.

use vstd::prelude::*;

use crate::decimal::{
    decimal_add, decimal_div, decimal_ln, decimal_mul, decimal_powi, decimal_sub, int_model, one_model,
    zero_model, Decimal, DecimalModel,
};
use crate::error::{
    invalid_input_model, or_div_zero, or_overflow, result_view, then, CasifinError, ErrorModel, ok_or_div_zero,
    ok_or_overflow,
};
use crate::money::Money;
use crate::config::Config;
use crate::rate::{compounding_period_rate_model, PaymentDue, Rate};

verus! {

/// The numeric flag of a payment timing: 0 at the end, 1 at the beginning.
pub open spec fn due_flag_model(due: PaymentDue) -> DecimalModel {
    match due {
        PaymentDue::End => zero_model(),
        PaymentDue::Beginning => one_model(),
    }
}

fn due_flag(due: PaymentDue) -> (d: Decimal)
    ensures
        d@ == due_flag_model(due),
{
    match due {
        PaymentDue::End => Decimal::zero(),
        PaymentDue::Beginning => Decimal::one(),
    }
}

/// `-x`, computed as `x * -1`.
pub open spec fn negated(x: DecimalModel) -> Result<DecimalModel, ErrorModel> {
    or_overflow(decimal_mul(x, int_model(-1)), "negation overflow")
}

/// What [`pv`] returns.
///
/// At a zero rate: `-(fv + pmt * nper)`.  Otherwise
/// `pmt * (1 - (1+r)^-n) / r * m + fv * (1+r)^-n`, where `m` is 1 for
/// payments at the end and `1+r` for payments at the beginning; every
/// operation is a `rust_decimal` operation and each failure has its own error.
pub open spec fn pv_model(rate: Rate, nper: u32, pmt: DecimalModel, fv: DecimalModel, due: PaymentDue) -> Result<
    DecimalModel,
    ErrorModel,
> {
    if nper == 0 {
        Err(ErrorModel::InvalidPeriod(0))
    } else {
        then(
            compounding_period_rate_model(rate),
            |r: DecimalModel|
                if r.units() == 0 {
                    then(
                        or_overflow(decimal_mul(pmt, int_model(nper as int)), "pv: payment total overflow"),
                        |total_pmt: DecimalModel|
                            then(
                                or_overflow(decimal_add(fv, total_pmt), "pv: zero-rate overflow"),
                                |pv_zero: DecimalModel| negated(pv_zero),
                            ),
                    )
                } else {
                    then(
                        or_overflow(decimal_add(one_model(), r), "pv: base overflow"),
                        |base: DecimalModel|
                            then(
                                or_overflow(
                                    decimal_powi(base, -(nper as int)),
                                    "pv: power calculation overflow",
                                ),
                                |neg_power: DecimalModel|
                                    then(
                                        or_overflow(
                                            decimal_sub(one_model(), neg_power),
                                            "pv: subtraction overflow",
                                        ),
                                        |one_minus: DecimalModel|
                                            then(
                                                or_div_zero(
                                                    decimal_div(one_minus, r),
                                                    "pv annuity factor",
                                                ),
                                                |annuity_factor: DecimalModel|
                                                    pv_tail(
                                                        pmt,
                                                        fv,
                                                        annuity_factor,
                                                        match due {
                                                            PaymentDue::End => one_model(),
                                                            PaymentDue::Beginning => base,
                                                        },
                                                        neg_power,
                                                    ),
                                            ),
                                    ),
                            ),
                    )
                },
        )
    }
}

/// `pmt * annuity_factor * due_mult + fv * neg_power`, the last steps of [`pv_model`].
pub open spec fn pv_tail(
    pmt: DecimalModel,
    fv: DecimalModel,
    annuity_factor: DecimalModel,
    due_mult: DecimalModel,
    neg_power: DecimalModel,
) -> Result<DecimalModel, ErrorModel> {
    then(
        or_overflow(
            match decimal_mul(pmt, annuity_factor) {
                Some(v) => decimal_mul(v, due_mult),
                None => None,
            },
            "pv: payment term overflow",
        ),
        |pv_pmt: DecimalModel|
            then(
                or_overflow(decimal_mul(fv, neg_power), "pv: fv discount overflow"),
                |fv_discounted: DecimalModel|
                    or_overflow(decimal_add(pv_pmt, fv_discounted), "pv: result overflow"),
            ),
    )
}

/// `-x` as a money amount, computed as `x * -1`.
fn negate(x: Decimal) -> (r: Result<Decimal, CasifinError>)
    ensures
        result_view(r) == negated(x@),
        r matches Ok(v) && (x@.mantissa == 0 ==> v@ == zero_model()) && (x@.mantissa != 0 ==> v@ == (DecimalModel {
            mantissa: -x@.mantissa,
            scale: x@.scale,
        })),
{
    proof {
        use_type_invariant(&x);
    }
    ok_or_overflow(x.checked_mul(Decimal::negative_one()), "negation overflow")
}

/// The rate of one compounding period is zero.
pub open spec fn zero_period_rate(rate: Rate) -> bool {
    compounding_period_rate_model(rate) matches Ok(r) && r.units() == 0
}

/// `pmt * nper` and `other` add up exactly: the product's mantissa fits in
/// 96 bits and the sum fits at the larger of the two scales.
pub open spec fn zero_rate_exact(other: DecimalModel, pmt: DecimalModel, nper: u32) -> bool {
    &&& -crate::decimal::max_mantissa() <= pmt.mantissa * nper <= crate::decimal::max_mantissa()
    &&& crate::decimal::sum_fits(
        other,
        DecimalModel { mantissa: pmt.mantissa * nper, scale: pmt.scale },
        other.units() + pmt.units() * nper,
    )
}

/// `-(other + pmt * nper)`, the value of an annuity at a zero rate; exact
/// when [`zero_rate_exact`] holds.
fn zero_rate_value(other: Money, pmt: Money, nper: u32, total_detail: &str, sum_detail: &str) -> (res: Result<
    Decimal,
    CasifinError,
>)
    ensures
        result_view(res) == then(
            or_overflow(decimal_mul(pmt@, int_model(nper as int)), total_detail),
            |total_pmt: DecimalModel|
                then(or_overflow(decimal_add(other@, total_pmt), sum_detail), |sum: DecimalModel| negated(sum)),
        ),
        zero_rate_exact(other@, pmt@, nper) ==> (res matches Ok(v) && v@.units() == -(other@.units() + pmt@.units()
            * nper) && v@.scale <= crate::decimal::max_scale_of(other@, pmt@)),
{
    let p = pmt.inner();
    let o = other.inner();
    proof {
        use_type_invariant(&p);
        use_type_invariant(&o);
        crate::decimal::lemma_units_sign(p@);
    }
    let total = ok_or_overflow(p.checked_mul(Decimal::from_u32(nper)), total_detail)?;
    proof {
        if zero_rate_exact(other@, pmt@, nper) {
            let q = crate::decimal::pow10((crate::decimal::max_scale() - p@.scale) as nat);
            assert(p@.units() == p@.mantissa * q);
            assert((p@.mantissa * nper) * q == (p@.mantissa * q) * nper) by (nonlinear_arith);
            if p@.mantissa == 0 || nper == 0 {
                assert(p@.mantissa * nper == 0) by (nonlinear_arith)
                    requires
                        p@.mantissa == 0 || nper == 0,
                ;
                crate::decimal::lemma_units_sign(total@);
                crate::decimal::lemma_sum_fits_at_scale(
                    o@,
                    total@,
                    o@.units() + p@.units() * nper,
                    crate::decimal::max_scale_of(o@, DecimalModel { mantissa: p@.mantissa * nper, scale: p@.scale }),
                );
            }
            assert(total@.units() == p@.units() * nper);
            assert(total@.scale <= p@.scale);
        }
    }
    let sum = ok_or_overflow(o.checked_add(total), sum_detail)?;
    proof {
        use_type_invariant(&sum);
        crate::decimal::lemma_units_sign(sum@);
        crate::decimal::lemma_units_neg(sum@);
        assert(sum@.mantissa * -1 == -sum@.mantissa);
    }
    let v = ok_or_overflow(sum.checked_mul(Decimal::negative_one()), "negation overflow");
    proof {
        if v is Ok {
            crate::decimal::lemma_units_sign(v->Ok_0@);
        }
    }
    v
}

/// The present value of an annuity.
///
/// At a zero rate: `PV = -(FV + PMT * nper)`; otherwise
/// `PV = PMT * (1 - (1+r)^-n) / r + FV * (1+r)^-n`, with the payment term
/// multiplied by `1 + r` for payments at the beginning of each period.
/// `r` is the rate of one compounding period.
pub fn pv(rate: Rate, nper: u32, pmt: Money, fv: Money, due: PaymentDue) -> (res: Result<
    Money,
    CasifinError,
>)
    ensures
        result_view(res) == pv_model(rate, nper, pmt@, fv@, due),
        nper > 0 && zero_period_rate(rate) && zero_rate_exact(
            fv@,
            pmt@,
            nper,
        ) ==> (res matches Ok(v) && v@.units() == -(fv@.units() + pmt@.units() * nper) && v@.scale
            <= crate::decimal::max_scale_of(fv@, pmt@)),
{
    if nper == 0 {
        return Err(CasifinError::InvalidPeriod(0));
    }
    let r = rate.compounding_period_rate()?;
    let one = Decimal::one();
    if r.is_zero() {
        let v = zero_rate_value(fv, pmt, nper, "pv: payment total overflow", "pv: zero-rate overflow")?;
        return Ok(Money::from_decimal(v));
    }
    let base = ok_or_overflow(one.checked_add(r), "pv: base overflow")?;
    let neg_power = ok_or_overflow(
        base.checked_powi(-(nper as i64)),
        "pv: power calculation overflow",
    )?;
    let one_minus_neg_power = ok_or_overflow(one.checked_sub(neg_power), "pv: subtraction overflow")?;
    let annuity_factor = ok_or_div_zero(one_minus_neg_power.checked_div(r), "pv annuity factor")?;
    let due_mult = match due {
        PaymentDue::End => Decimal::one(),
        PaymentDue::Beginning => base,
    };
    let pv_pmt = ok_or_overflow(
        match pmt.inner().checked_mul(annuity_factor) {
            Some(v) => v.checked_mul(due_mult),
            None => None,
        },
        "pv: payment term overflow",
    )?;
    let fv_discounted = ok_or_overflow(fv.inner().checked_mul(neg_power), "pv: fv discount overflow")?;
    let result = ok_or_overflow(pv_pmt.checked_add(fv_discounted), "pv: result overflow")?;
    Ok(Money::from_decimal(result))
}

/// What [`fv`] returns.
///
/// At a zero rate: `-(pv + pmt * nper)`.  Otherwise
/// `pmt * ((1+r)^n - 1) / r * m + pv * (1+r)^n`, where `m` is 1 for
/// payments at the end and `1+r` for payments at the beginning.
pub open spec fn fv_model(rate: Rate, nper: u32, pmt: DecimalModel, pv: DecimalModel, due: PaymentDue) -> Result<
    DecimalModel,
    ErrorModel,
> {
    if nper == 0 {
        Err(ErrorModel::InvalidPeriod(0))
    } else {
        then(
            compounding_period_rate_model(rate),
            |r: DecimalModel|
                if r.units() == 0 {
                    then(
                        or_overflow(decimal_mul(pmt, int_model(nper as int)), "fv: payment total overflow"),
                        |total_pmt: DecimalModel|
                            then(
                                or_overflow(decimal_add(pv, total_pmt), "fv: zero-rate overflow"),
                                |fv_zero: DecimalModel| negated(fv_zero),
                            ),
                    )
                } else {
                    then(
                        or_overflow(decimal_add(one_model(), r), "fv: base overflow"),
                        |base: DecimalModel|
                            then(
                                or_overflow(decimal_powi(base, nper as int), "fv: power calculation overflow"),
                                |power: DecimalModel|
                                    then(
                                        or_overflow(decimal_sub(power, one_model()), "fv: subtraction overflow"),
                                        |power_minus_one: DecimalModel|
                                            then(
                                                or_div_zero(decimal_div(power_minus_one, r), "fv factor"),
                                                |fv_factor: DecimalModel|
                                                    fv_tail(
                                                        pmt,
                                                        pv,
                                                        fv_factor,
                                                        match due {
                                                            PaymentDue::End => one_model(),
                                                            PaymentDue::Beginning => base,
                                                        },
                                                        power,
                                                    ),
                                            ),
                                    ),
                            ),
                    )
                },
        )
    }
}

/// `pmt * fv_factor * due_mult + pv * power`, the last steps of [`fv_model`].
pub open spec fn fv_tail(
    pmt: DecimalModel,
    pv: DecimalModel,
    fv_factor: DecimalModel,
    due_mult: DecimalModel,
    power: DecimalModel,
) -> Result<DecimalModel, ErrorModel> {
    then(
        or_overflow(
            match decimal_mul(pmt, fv_factor) {
                Some(v) => decimal_mul(v, due_mult),
                None => None,
            },
            "fv: payment term overflow",
        ),
        |fv_pmt: DecimalModel|
            then(
                or_overflow(decimal_mul(pv, power), "fv: pv growth overflow"),
                |fv_pv: DecimalModel| or_overflow(decimal_add(fv_pmt, fv_pv), "fv: result overflow"),
            ),
    )
}

/// The future value of an annuity.
///
/// At a zero rate: `FV = -(PV + PMT * nper)`; otherwise
/// `FV = PMT * ((1+r)^n - 1) / r + PV * (1+r)^n`, with the payment term
/// multiplied by `1 + r` for payments at the beginning of each period.
/// The future value of the payments alone at a non-zero periodic rate `r`,
/// for payments at the end of each period: `pmt * ((1+r)^n - 1) / r`, with
/// `1 + r` beside it.
pub open spec fn fv_payment_term(rate: Rate, nper: u32, pmt: DecimalModel) -> Option<(DecimalModel, DecimalModel)> {
    match compounding_period_rate_model(rate) {
        Ok(r) => if r.units() == 0 {
            None
        } else {
            match decimal_add(one_model(), r) {
                Some(base) => match decimal_powi(base, nper as int) {
                    Some(power) => match decimal_sub(power, one_model()) {
                        Some(power_minus_one) => match decimal_div(power_minus_one, r) {
                            Some(factor) => match decimal_mul(pmt, factor) {
                                Some(term) => Some((term, base)),
                                None => None,
                            },
                            None => None,
                        },
                        None => None,
                    },
                    None => None,
                },
                None => None,
            }
        },
        Err(_) => None,
    }
}

pub fn fv(rate: Rate, nper: u32, pmt: Money, pv: Money, due: PaymentDue) -> (res: Result<
    Money,
    CasifinError,
>)
    ensures
        result_view(res) == fv_model(rate, nper, pmt@, pv@, due),
        pv@.mantissa == 0 && !zero_period_rate(rate) ==> (res matches Ok(v) ==> (fv_payment_term(
            rate,
            nper,
            pmt@,
        ) matches Some(tb) && (due == PaymentDue::End ==> v@.units() == tb.0.units()) && (due
            == PaymentDue::Beginning ==> (decimal_mul(tb.0, tb.1) matches Some(m) && v@.units() == m.units())))),
        nper > 0 && zero_period_rate(rate) && zero_rate_exact(
            pv@,
            pmt@,
            nper,
        ) ==> (res matches Ok(v) && v@.units() == -(pv@.units() + pmt@.units() * nper) && v@.scale
            <= crate::decimal::max_scale_of(pv@, pmt@)),
{
    if nper == 0 {
        return Err(CasifinError::InvalidPeriod(0));
    }
    let r = rate.compounding_period_rate()?;
    let one = Decimal::one();
    if r.is_zero() {
        let v = zero_rate_value(pv, pmt, nper, "fv: payment total overflow", "fv: zero-rate overflow")?;
        return Ok(Money::from_decimal(v));
    }
    let base = ok_or_overflow(one.checked_add(r), "fv: base overflow")?;
    let power = ok_or_overflow(base.checked_powi(nper as i64), "fv: power calculation overflow")?;
    let power_minus_one = ok_or_overflow(power.checked_sub(one), "fv: subtraction overflow")?;
    let fv_factor = ok_or_div_zero(power_minus_one.checked_div(r), "fv factor")?;
    let due_mult = match due {
        PaymentDue::End => Decimal::one(),
        PaymentDue::Beginning => base,
    };
    let term = ok_or_overflow(pmt.inner().checked_mul(fv_factor), "fv: payment term overflow")?;
    let fv_pmt = ok_or_overflow(term.checked_mul(due_mult), "fv: payment term overflow")?;
    proof {
        use_type_invariant(&term);
        assert(fv_payment_term(rate, nper, pmt@) == Some((term@, base@)));
        crate::decimal::lemma_units_sign(term@);
        crate::decimal::lemma_units_sign(fv_pmt@);
        if due == PaymentDue::End {
            assert(fv_pmt@.units() == term@.units());
        }
    }
    let fv_pv = ok_or_overflow(pv.inner().checked_mul(power), "fv: pv growth overflow")?;
    proof {
        use_type_invariant(&fv_pmt);
        if pv@.mantissa == 0 {
            let s = fv_pmt@.scale;
            let q = crate::decimal::pow10((crate::decimal::max_scale() - s) as nat);
            crate::decimal::lemma_pow10_pos((crate::decimal::max_scale() - s) as nat);
            let mm = crate::decimal::max_mantissa();
            assert(-mm * q <= fv_pmt@.mantissa * q <= mm * q) by (nonlinear_arith)
                requires
                    -mm <= fv_pmt@.mantissa <= mm,
                    q > 0,
            ;
            assert(crate::decimal::sum_fits(fv_pmt@, fv_pv@, fv_pmt@.units() + fv_pv@.units()));
        }
    }
    let result = ok_or_overflow(fv_pmt.checked_add(fv_pv), "fv: result overflow")?;
    proof {
        if pv@.mantissa == 0 {
            crate::decimal::lemma_units_sign(zero_model());
            assert(fv_pv@ == zero_model());
            assert(result@.units() == fv_pmt@.units());
        }
    }
    Ok(Money::from_decimal(result))
}

/// What [`pmt`] returns.
///
/// At a zero rate: `-(pv + fv) / nper`.  Otherwise
/// `-(pv*r + fv*r / ((1+r)^n - 1)) / (1 - 1/(1+r)^n)`, divided once more by
/// `1 + r` for payments at the beginning.
pub open spec fn pmt_model(rate: Rate, nper: u32, pv: DecimalModel, fv: DecimalModel, due: PaymentDue) -> Result<
    DecimalModel,
    ErrorModel,
> {
    if nper == 0 {
        Err(ErrorModel::InvalidPeriod(0))
    } else {
        then(
            compounding_period_rate_model(rate),
            |r: DecimalModel|
                if r.units() == 0 {
                    then(
                        or_overflow(decimal_add(pv, fv), "pmt: zero-rate overflow"),
                        |total: DecimalModel|
                            then(
                                or_div_zero(decimal_div(total, int_model(nper as int)), "pmt zero rate"),
                                |pmt_zero: DecimalModel| negated(pmt_zero),
                            ),
                    )
                } else {
                    then(
                        or_overflow(decimal_add(one_model(), r), "pmt: base overflow"),
                        |base: DecimalModel|
                            then(
                                or_overflow(decimal_powi(base, nper as int), "pmt: power calculation overflow"),
                                |power: DecimalModel| pmt_tail(r, nper, pv, fv, due, base, power),
                            ),
                    )
                },
        )
    }
}

/// The steps of [`pmt_model`] once `1 + r` and `(1+r)^n` are known.
pub open spec fn pmt_tail(
    r: DecimalModel,
    nper: u32,
    pv: DecimalModel,
    fv: DecimalModel,
    due: PaymentDue,
    base: DecimalModel,
    power: DecimalModel,
) -> Result<DecimalModel, ErrorModel> {
    then(
        or_div_zero(decimal_div(one_model(), power), "pmt neg_power"),
        |neg_power: DecimalModel|
            then(
                or_overflow(decimal_sub(one_model(), neg_power), "pmt: denominator overflow"),
                |denominator: DecimalModel|
                    then(
                        or_overflow(decimal_sub(power, one_model()), "pmt: power_minus_one overflow"),
                        |power_minus_one: DecimalModel|
                            then(
                                or_overflow(decimal_mul(fv, r), "pmt: fv_rate overflow"),
                                |fv_rate: DecimalModel|
                                    then(
                                        or_div_zero(decimal_div(fv_rate, power_minus_one), "pmt fv_term"),
                                        |fv_term: DecimalModel|
                                            then(
                                                or_overflow(decimal_mul(pv, r), "pmt: pv_rate overflow"),
                                                |pv_rate: DecimalModel|
                                                    then(
                                                        or_overflow(
                                                            decimal_add(pv_rate, fv_term),
                                                            "pmt: numerator overflow",
                                                        ),
                                                        |numerator: DecimalModel|
                                                            then(
                                                                or_div_zero(
                                                                    decimal_div(numerator, denominator),
                                                                    "pmt denominator",
                                                                ),
                                                                |pmt_ordinary: DecimalModel|
                                                                    then(
                                                                        match due {
                                                                            PaymentDue::End => Ok(pmt_ordinary),
                                                                            PaymentDue::Beginning => or_div_zero(
                                                                                decimal_div(pmt_ordinary, base),
                                                                                "pmt annuity-due",
                                                                            ),
                                                                        },
                                                                        |pmt_value: DecimalModel| negated(pmt_value),
                                                                    ),
                                                            ),
                                                    ),
                                            ),
                                    ),
                            ),
                    ),
            ),
    )
}

/// The payment due at the beginning of each period is the payment due at
/// the end divided by `1 + r` (as `rust_decimal` divides), given that the
/// end-of-period payment is `e`: zero when `e` is zero, refused when `1 + r`
/// is zero, and the same payment at a zero rate.
pub open spec fn annuity_due_relation(
    rate: Rate,
    nper: u32,
    pv: DecimalModel,
    fv: DecimalModel,
    begin: Result<DecimalModel, ErrorModel>,
) -> bool {
    match (compounding_period_rate_model(rate), pmt_model(rate, nper, pv, fv, PaymentDue::End)) {
        (Ok(r), Ok(e)) => if r.units() == 0 {
            begin == Ok::<DecimalModel, ErrorModel>(e)
        } else {
            decimal_add(one_model(), r) matches Some(base) && if base.mantissa == 0 {
                begin is Err
            } else if e.mantissa == 0 {
                begin matches Ok(p) && p.units() == 0
            } else {
                match decimal_div(e, base) {
                    Some(q) => begin matches Ok(p) && p.units() == q.units(),
                    None => begin is Err,
                }
            }
        },
        _ => true,
    }
}

/// The payment of an annuity.
///
/// At a zero rate: `PMT = -(PV + FV) / nper`; otherwise
/// `PMT = -(PV*r + FV*r/((1+r)^n - 1)) / (1 - (1+r)^-n)`, divided by `1 + r`
/// for payments at the beginning of each period, so that the payment due at
/// the beginning is the one due at the end divided by `1 + r`.
pub fn pmt(rate: Rate, nper: u32, pv: Money, fv: Money, due: PaymentDue) -> (res: Result<
    Money,
    CasifinError,
>)
    ensures
        result_view(res) == pmt_model(rate, nper, pv@, fv@, due),
        due == PaymentDue::Beginning ==> annuity_due_relation(rate, nper, pv@, fv@, result_view(res)),
{
    if nper == 0 {
        return Err(CasifinError::InvalidPeriod(0));
    }
    let r = rate.compounding_period_rate()?;
    let one = Decimal::one();
    if r.is_zero() {
        let total = ok_or_overflow(pv.inner().checked_add(fv.inner()), "pmt: zero-rate overflow")?;
        let pmt_zero = ok_or_div_zero(total.checked_div(Decimal::from_u32(nper)), "pmt zero rate")?;
        return Ok(Money::from_decimal(negate(pmt_zero)?));
    }
    let base = ok_or_overflow(one.checked_add(r), "pmt: base overflow")?;
    let power = ok_or_overflow(base.checked_powi(nper as i64), "pmt: power calculation overflow")?;
    let neg_power = ok_or_div_zero(one.checked_div(power), "pmt neg_power")?;
    let denominator = ok_or_overflow(one.checked_sub(neg_power), "pmt: denominator overflow")?;
    let power_minus_one = ok_or_overflow(power.checked_sub(one), "pmt: power_minus_one overflow")?;
    let fv_rate = ok_or_overflow(fv.inner().checked_mul(r), "pmt: fv_rate overflow")?;
    let fv_term = ok_or_div_zero(fv_rate.checked_div(power_minus_one), "pmt fv_term")?;
    let pv_rate = ok_or_overflow(pv.inner().checked_mul(r), "pmt: pv_rate overflow")?;
    let numerator = ok_or_overflow(pv_rate.checked_add(fv_term), "pmt: numerator overflow")?;
    let pmt_ordinary = ok_or_div_zero(numerator.checked_div(denominator), "pmt denominator")?;
    let ghost mut end_view = pmt_ordinary@;
    let pmt_value = match due {
        PaymentDue::End => pmt_ordinary,
        PaymentDue::Beginning => {
            let quotient = pmt_ordinary.checked_div(base);
            // The payment that would be due at the end of each period, which
            // the annuity-due relation speaks of.
            let end_payment = negate(pmt_ordinary);
            proof {
                end_view = end_payment->Ok_0@;
                assert(pmt_model(rate, nper, pv@, fv@, PaymentDue::End) == Ok::<DecimalModel, ErrorModel>(end_view));
            }
            ok_or_div_zero(quotient, "pmt annuity-due")?
        },
    };
    let payment = negate(pmt_value)?;
    proof {
        crate::decimal::lemma_units_sign(payment@);
        if due == PaymentDue::Beginning {
            assert(pmt_model(rate, nper, pv@, fv@, PaymentDue::End) == Ok::<DecimalModel, ErrorModel>(end_view));
            assert(base@.mantissa != 0);
            if end_view.mantissa == 0 {
                assert(pmt_ordinary@.mantissa == 0);
                assert(pmt_value@ == zero_model());
                assert(payment@.units() == 0);
            } else {
                assert(end_view == (DecimalModel { mantissa: -pmt_ordinary@.mantissa, scale: pmt_ordinary@.scale }));
                assert(decimal_div(end_view, base@) == Some(
                    DecimalModel { mantissa: -pmt_value@.mantissa, scale: pmt_value@.scale },
                ));
                crate::decimal::lemma_units_sign(pmt_value@);
                crate::decimal::lemma_units_sign(
                    DecimalModel { mantissa: -pmt_value@.mantissa, scale: pmt_value@.scale },
                );
            }
        }
    }
    Ok(Money::from_decimal(payment))
}

/// What [`pv_perpetuity`] returns: `pmt / r`, refused at a zero rate.
pub open spec fn pv_perpetuity_model(rate: Rate, pmt: DecimalModel) -> Result<DecimalModel, ErrorModel> {
    then(
        compounding_period_rate_model(rate),
        |r: DecimalModel|
            if r.units() == 0 {
                Err(ErrorModel::InvalidRate(r))
            } else {
                or_div_zero(decimal_div(pmt, r), "pv_perpetuity")
            },
    )
}

/// The present value of a perpetuity: `PV = PMT / r`.
pub fn pv_perpetuity(rate: Rate, pmt: Money) -> (res: Result<Money, CasifinError>)
    ensures
        result_view(res) == pv_perpetuity_model(rate, pmt@),
{
    let r = rate.compounding_period_rate()?;
    if r.is_zero() {
        return Err(CasifinError::InvalidRate(r));
    }
    match pmt.checked_div_decimal(r) {
        Some(m) => Ok(m),
        None => Err(CasifinError::div_zero("pv_perpetuity")),
    }
}

/// What [`nper`] returns.
///
/// A zero payment is refused.  At a zero rate: `-(pv + fv) / pmt`.
/// Otherwise `ln((pmt*(1+r*d) - fv*r) / (pmt*(1+r*d) + pv*r)) / ln(1+r)`
/// with `d` the timing flag, refused when the ratio is not positive.
pub open spec fn nper_model(rate: Rate, pmt: DecimalModel, pv: DecimalModel, fv: DecimalModel, due: PaymentDue) -> Result<
    DecimalModel,
    ErrorModel,
> {
    if pmt.units() == 0 {
        Err(ErrorModel::InvalidAmount(pmt))
    } else {
        then(
            compounding_period_rate_model(rate),
            |r: DecimalModel|
                if r.units() == 0 {
                    then(
                        or_overflow(decimal_add(pv, fv), "nper: zero-rate overflow"),
                        |total: DecimalModel|
                            then(
                                or_div_zero(decimal_div(total, pmt), "nper zero rate"),
                                |periods: DecimalModel|
                                    or_overflow(decimal_mul(periods, int_model(-1)), "nper: negation overflow"),
                            ),
                    )
                } else {
                    then(
                        or_overflow(decimal_mul(r, due_flag_model(due)), "nper: due flag overflow"),
                        |r_due: DecimalModel|
                            then(
                                or_overflow(decimal_add(one_model(), r_due), "nper: due_mult overflow"),
                                |due_mult: DecimalModel|
                                    then(
                                        or_overflow(decimal_mul(pmt, due_mult), "nper: pmt_due overflow"),
                                        |pmt_due: DecimalModel| nper_tail(r, pmt_due, pv, fv),
                                    ),
                            ),
                    )
                },
        )
    }
}

/// The steps of [`nper_model`] once `pmt * (1 + r*d)` is known.
pub open spec fn nper_tail(r: DecimalModel, pmt_due: DecimalModel, pv: DecimalModel, fv: DecimalModel) -> Result<
    DecimalModel,
    ErrorModel,
> {
    then(
        or_overflow(decimal_mul(fv, r), "nper: fv_r overflow"),
        |fv_r: DecimalModel|
            then(
                or_overflow(decimal_mul(pv, r), "nper: pv_r overflow"),
                |pv_r: DecimalModel|
                    then(
                        or_overflow(decimal_sub(pmt_due, fv_r), "nper: numerator overflow"),
                        |numerator: DecimalModel|
                            then(
                                or_overflow(decimal_add(pmt_due, pv_r), "nper: denominator overflow"),
                                |denominator: DecimalModel|
                                    then(
                                        or_div_zero(decimal_div(numerator, denominator), "nper ratio"),
                                        |ratio: DecimalModel|
                                            if ratio.units() <= 0 {
                                                Err(
                                                    invalid_input_model(
                                                        "nper: ratio must be positive; loan cannot be paid off",
                                                    ),
                                                )
                                            } else {
                                                nper_logs(r, ratio)
                                            },
                                    ),
                            ),
                    ),
            ),
    )
}

/// `ln(ratio) / ln(1 + r)`, the last steps of [`nper_model`].
pub open spec fn nper_logs(r: DecimalModel, ratio: DecimalModel) -> Result<DecimalModel, ErrorModel> {
    then(
        or_overflow(decimal_ln(ratio), "nper: logarithm failed"),
        |ln_ratio: DecimalModel|
            then(
                or_overflow(decimal_add(one_model(), r), "nper: base overflow"),
                |base: DecimalModel|
                    then(
                        or_overflow(decimal_ln(base), "nper: logarithm failed"),
                        |ln_base: DecimalModel|
                            if ln_base.units() == 0 {
                                Err(ErrorModel::DivisionByZero { operation: "nper ln_base"@ })
                            } else {
                                or_div_zero(decimal_div(ln_ratio, ln_base), "nper ln division")
                            },
                    ),
            ),
    )
}

/// The number of periods needed to pay off or reach a value.
///
/// At a zero rate: `nper = -(PV + FV) / PMT`; otherwise
/// `nper = ln((PMT*(1+r*due) - FV*r) / (PMT*(1+r*due) + PV*r)) / ln(1+r)`.
pub fn nper(rate: Rate, pmt: Money, pv: Money, fv: Money, due: PaymentDue) -> (res: Result<
    Decimal,
    CasifinError,
>)
    ensures
        result_view(res) == nper_model(rate, pmt@, pv@, fv@, due),
{
    if pmt.is_zero() {
        return Err(CasifinError::InvalidAmount(pmt));
    }
    let r = rate.compounding_period_rate()?;
    let one = Decimal::one();
    if r.is_zero() {
        let total = ok_or_overflow(pv.inner().checked_add(fv.inner()), "nper: zero-rate overflow")?;
        let periods = ok_or_div_zero(total.checked_div(pmt.inner()), "nper zero rate")?;
        return ok_or_overflow(periods.checked_mul(Decimal::negative_one()), "nper: negation overflow");
    }
    let r_due = ok_or_overflow(r.checked_mul(due_flag(due)), "nper: due flag overflow")?;
    let due_mult = ok_or_overflow(one.checked_add(r_due), "nper: due_mult overflow")?;
    let pmt_due = ok_or_overflow(pmt.inner().checked_mul(due_mult), "nper: pmt_due overflow")?;
    let fv_r = ok_or_overflow(fv.inner().checked_mul(r), "nper: fv_r overflow")?;
    let pv_r = ok_or_overflow(pv.inner().checked_mul(r), "nper: pv_r overflow")?;
    let numerator = ok_or_overflow(pmt_due.checked_sub(fv_r), "nper: numerator overflow")?;
    let denominator = ok_or_overflow(pmt_due.checked_add(pv_r), "nper: denominator overflow")?;
    let ratio = ok_or_div_zero(numerator.checked_div(denominator), "nper ratio")?;
    if ratio.le(&Decimal::zero()) {
        return Err(CasifinError::invalid_input("nper: ratio must be positive; loan cannot be paid off"));
    }
    let ln_ratio = ok_or_overflow(ratio.checked_ln(), "nper: logarithm failed")?;
    let base = ok_or_overflow(one.checked_add(r), "nper: base overflow")?;
    let ln_base = ok_or_overflow(base.checked_ln(), "nper: logarithm failed")?;
    if ln_base.is_zero() {
        return Err(CasifinError::div_zero("nper ln_base"));
    }
    ok_or_div_zero(ln_ratio.checked_div(ln_base), "nper ln division")
}

/// The future value of the flows before index `k`, each compounded to the
/// end of the whole series: `sum over t < k of CF_t * (1+r)^(n-t)`.
pub open spec fn fv_uneven_prefix(r: DecimalModel, flows: Seq<DecimalModel>, k: nat) -> Result<
    DecimalModel,
    ErrorModel,
>
    decreases k,
{
    if k == 0 {
        Ok(zero_model())
    } else {
        then(
            fv_uneven_prefix(r, flows, (k - 1) as nat),
            |total: DecimalModel|
                then(
                    or_overflow(decimal_add(one_model(), r), "fv_uneven_cashflows: base overflow"),
                    |base: DecimalModel|
                        then(
                            or_overflow(
                                decimal_powi(base, flows.len() - (k - 1)),
                                "fv_uneven_cashflows: power overflow",
                            ),
                            |factor: DecimalModel|
                                then(
                                    or_overflow(
                                        decimal_mul(flows[k - 1], factor),
                                        "fv_uneven_cashflows: contribution overflow",
                                    ),
                                    |contribution: DecimalModel|
                                        or_overflow(
                                            decimal_add(total, contribution),
                                            "fv_uneven_cashflows: total overflow",
                                        ),
                                ),
                        ),
                ),
        )
    }
}

/// Once a prefix fails, every longer prefix fails with the same error.
proof fn lemma_fv_uneven_error_stays(r: DecimalModel, flows: Seq<DecimalModel>, k: nat, m: nat)
    requires
        k <= m,
        fv_uneven_prefix(r, flows, k) is Err,
    ensures
        fv_uneven_prefix(r, flows, m) == fv_uneven_prefix(r, flows, k),
    decreases m - k,
{
    if k < m {
        lemma_fv_uneven_error_stays(r, flows, k, (m - 1) as nat);
    }
}

/// One step of [`fv_uneven_cashflows`]: `total + flow * (1 + r)^periods`.
fn fv_uneven_step(one: Decimal, r: Decimal, total: Decimal, flow: Money, periods: usize) -> (res: Result<
    Decimal,
    CasifinError,
>)
    requires
        one@ == one_model(),
        periods <= i64::MAX,
    ensures
        result_view(res) == then(
            or_overflow(decimal_add(one_model(), r@), "fv_uneven_cashflows: base overflow"),
            |base: DecimalModel|
                then(
                    or_overflow(decimal_powi(base, periods as int), "fv_uneven_cashflows: power overflow"),
                    |factor: DecimalModel|
                        then(
                            or_overflow(decimal_mul(flow@, factor), "fv_uneven_cashflows: contribution overflow"),
                            |contribution: DecimalModel|
                                or_overflow(decimal_add(total@, contribution), "fv_uneven_cashflows: total overflow"),
                        ),
                ),
        ),
{
    let base = ok_or_overflow(one.checked_add(r), "fv_uneven_cashflows: base overflow")?;
    let factor = ok_or_overflow(base.checked_powi(periods as i64), "fv_uneven_cashflows: power overflow")?;
    let contribution = ok_or_overflow(
        flow.inner().checked_mul(factor),
        "fv_uneven_cashflows: contribution overflow",
    )?;
    ok_or_overflow(total.checked_add(contribution), "fv_uneven_cashflows: total overflow")
}

/// What [`fv_uneven_cashflows`] returns.
pub open spec fn fv_uneven_model(rate: Rate, flows: Seq<DecimalModel>) -> Result<DecimalModel, ErrorModel> {
    if flows.len() == 0 {
        Err(invalid_input_model("fv_uneven_cashflows: flows must not be empty"))
    } else {
        then(
            compounding_period_rate_model(rate),
            |r: DecimalModel| fv_uneven_prefix(r, flows, flows.len()),
        )
    }
}

/// The future value of uneven cash flows: `FV = sum of CF_t * (1 + r)^(n - t)`
/// for flows indexed `t = 0 .. n-1`.
pub fn fv_uneven_cashflows(rate: Rate, flows: &[Money]) -> (res: Result<Money, CasifinError>)
    requires
        flows.len() <= i64::MAX,
    ensures
        result_view(res) == fv_uneven_model(rate, flows@.map_values(|m: Money| m@)),
{
    let ghost views = flows@.map_values(|m: Money| m@);
    if flows.len() == 0 {
        return Err(CasifinError::invalid_input("fv_uneven_cashflows: flows must not be empty"));
    }
    let r = rate.compounding_period_rate()?;
    let n = flows.len();
    let one = Decimal::one();
    let mut total = Decimal::zero();
    let mut t: usize = 0;
    while t < n
        invariant
            n == flows.len(),
            n <= i64::MAX,
            0 <= t <= n,
            views == flows@.map_values(|m: Money| m@),
            one@ == one_model(),
            compounding_period_rate_model(rate) == Ok::<DecimalModel, ErrorModel>(r@),
            fv_uneven_prefix(r@, views, t as nat) == Ok::<DecimalModel, ErrorModel>(total@),
        decreases n - t,
    {
        let periods_remaining = n - t;
        let step = fv_uneven_step(one, r, total, flows[t], periods_remaining);
        proof {
            assert(views[t as int] == flows@[t as int]@);
            assert(fv_uneven_prefix(r@, views, (t + 1) as nat) == then(
                Ok::<DecimalModel, ErrorModel>(total@),
                |total: DecimalModel|
                    then(
                        or_overflow(decimal_add(one_model(), r@), "fv_uneven_cashflows: base overflow"),
                        |base: DecimalModel|
                            then(
                                or_overflow(
                                    decimal_powi(base, views.len() - t),
                                    "fv_uneven_cashflows: power overflow",
                                ),
                                |factor: DecimalModel|
                                    then(
                                        or_overflow(
                                            decimal_mul(views[t as int], factor),
                                            "fv_uneven_cashflows: contribution overflow",
                                        ),
                                        |contribution: DecimalModel|
                                            or_overflow(
                                                decimal_add(total, contribution),
                                                "fv_uneven_cashflows: total overflow",
                                            ),
                                    ),
                            ),
                    ),
            ));
        }
        match step {
            Ok(x) => {
                total = x;
            },
            Err(e) => {
                proof {
                    lemma_fv_uneven_error_stays(r@, views, (t + 1) as nat, n as nat);
                }
                return Err(e);
            },
        }
        t = t + 1;
    }
    Ok(Money::from_decimal(total))
}

/// `|x| < eps`.
pub open spec fn below(x: DecimalModel, eps: DecimalModel) -> bool {
    -eps.units() < x.units() < eps.units()
}

pub(crate) fn is_below(x: Decimal, eps: Decimal) -> (b: bool)
    ensures
        b == below(x@, eps@),
{
    x.abs().lt(&eps)
}

/// The annuity factor `A = ((1+r)^n - 1) / r` and its derivative in `r`,
/// `(n (1+r)^(n-1) - A) / r`; at `r = 0` the limits `n` and `n (n-1) / 2`.
pub open spec fn annuity_factor_model(nper: u32, r: DecimalModel, power: DecimalModel, power_prev: DecimalModel) -> Result<
    (DecimalModel, DecimalModel),
    ErrorModel,
> {
    let n = int_model(nper as int);
    if r.units() == 0 {
        then(
            or_overflow(decimal_sub(n, one_model()), "rate: n-1 overflow"),
            |n_minus_one: DecimalModel|
                then(
                    or_overflow(decimal_mul(n, n_minus_one), "rate: annuity derivative overflow"),
                    |product: DecimalModel|
                        then(
                            or_overflow(decimal_div(product, int_model(2)), "rate: annuity derivative overflow"),
                            |da: DecimalModel| Ok((n, da)),
                        ),
                ),
        )
    } else {
        then(
            or_overflow(decimal_sub(power, one_model()), "rate: power_minus_one overflow"),
            |power_minus_one: DecimalModel|
                then(
                    or_div_zero(decimal_div(power_minus_one, r), "rate annuity factor"),
                    |a: DecimalModel|
                        then(
                            or_div_zero(
                                match decimal_mul(n, power_prev) {
                                    Some(v) => match decimal_sub(v, a) {
                                        Some(w) => decimal_div(w, r),
                                        None => None,
                                    },
                                    None => None,
                                },
                                "rate annuity derivative",
                            ),
                            |da: DecimalModel| Ok((a, da)),
                        ),
                ),
        )
    }
}

/// The TVM equation `f(r) = PV (1+r)^n + PMT A (1 + r d) + FV` and its
/// derivative `f'(r) = PV n (1+r)^(n-1) + PMT (A' (1 + r d) + A d)`, where
/// `A` is the annuity factor and `d` the timing flag.
pub open spec fn rate_equation_model(
    nper: u32,
    pmt: DecimalModel,
    pv: DecimalModel,
    fv: DecimalModel,
    r: DecimalModel,
    due_flag: DecimalModel,
) -> Result<(DecimalModel, DecimalModel), ErrorModel> {
    then(
        or_overflow(decimal_add(one_model(), r), "rate: base overflow"),
        |base: DecimalModel|
            then(
                or_overflow(decimal_powi(base, nper as int), "rate: power overflow"),
                |power: DecimalModel|
                    then(
                        if nper == 1 {
                            Ok(one_model())
                        } else {
                            or_overflow(decimal_powi(base, nper - 1), "rate: power_prev overflow")
                        },
                        |power_prev: DecimalModel|
                            then(
                                annuity_factor_model(nper, r, power, power_prev),
                                |ad: (DecimalModel, DecimalModel)|
                                    then(
                                        or_overflow(decimal_mul(r, due_flag), "rate: due flag overflow"),
                                        |r_due: DecimalModel|
                                            then(
                                                or_overflow(decimal_add(one_model(), r_due), "rate: due_factor overflow"),
                                                |due_factor: DecimalModel|
                                                    rate_equation_tail(
                                                        nper,
                                                        pmt,
                                                        pv,
                                                        fv,
                                                        due_flag,
                                                        power,
                                                        power_prev,
                                                        ad.0,
                                                        ad.1,
                                                        due_factor,
                                                    ),
                                            ),
                                    ),
                            ),
                    ),
            ),
    )
}

/// The sums and products of [`rate_equation_model`] once its factors are known.
pub open spec fn rate_equation_tail(
    nper: u32,
    pmt: DecimalModel,
    pv: DecimalModel,
    fv: DecimalModel,
    due_flag: DecimalModel,
    power: DecimalModel,
    power_prev: DecimalModel,
    a: DecimalModel,
    da: DecimalModel,
    due_factor: DecimalModel,
) -> Result<(DecimalModel, DecimalModel), ErrorModel> {
    then(
        or_overflow(decimal_mul(pv, power), "rate: pv_term overflow"),
        |pv_term: DecimalModel|
            then(
                or_overflow(
                    match decimal_mul(pmt, a) {
                        Some(v) => decimal_mul(v, due_factor),
                        None => None,
                    },
                    "rate: pmt_term overflow",
                ),
                |pmt_term: DecimalModel|
                    then(
                        or_overflow(
                            match decimal_add(pv_term, pmt_term) {
                                Some(v) => decimal_add(v, fv),
                                None => None,
                            },
                            "rate: f overflow",
                        ),
                        |f: DecimalModel|
                            then(
                                rate_derivative_model(nper, pmt, pv, due_flag, power_prev, a, da, due_factor),
                                |f_prime: DecimalModel| Ok((f, f_prime)),
                            ),
                    ),
            ),
    )
}

/// `PV n (1+r)^(n-1) + PMT (A' (1 + r d) + A d)`.
pub open spec fn rate_derivative_model(
    nper: u32,
    pmt: DecimalModel,
    pv: DecimalModel,
    due_flag: DecimalModel,
    power_prev: DecimalModel,
    a: DecimalModel,
    da: DecimalModel,
    due_factor: DecimalModel,
) -> Result<DecimalModel, ErrorModel> {
    then(
        or_overflow(
            match decimal_mul(pv, int_model(nper as int)) {
                Some(v) => decimal_mul(v, power_prev),
                None => None,
            },
            "rate: pv_derivative overflow",
        ),
        |pv_derivative: DecimalModel|
            then(
                or_overflow(decimal_mul(da, due_factor), "rate: pmt_derivative_a overflow"),
                |part_a: DecimalModel|
                    then(
                        or_overflow(decimal_mul(a, due_flag), "rate: pmt_derivative_b overflow"),
                        |part_b: DecimalModel|
                            then(
                                or_overflow(decimal_add(part_a, part_b), "rate: pmt_derivative overflow"),
                                |pmt_derivative: DecimalModel|
                                    then(
                                        or_overflow(
                                            decimal_mul(pmt, pmt_derivative),
                                            "rate: pmt_derivative_total overflow",
                                        ),
                                        |total: DecimalModel|
                                            or_overflow(
                                                decimal_add(pv_derivative, total),
                                                "rate: f_prime overflow",
                                            ),
                                    ),
                            ),
                    ),
            ),
    )
}

/// Evaluates the TVM equation and its derivative at rate `r`.
fn rate_equation_and_derivative(nper: u32, pmt: Money, pv: Money, fv: Money, r: Decimal, due_flag: Decimal) -> (res: Result<
    (Decimal, Decimal),
    CasifinError,
>)
    requires
        nper >= 1,
    ensures
        match (res, rate_equation_model(nper, pmt@, pv@, fv@, r@, due_flag@)) {
            (Ok(x), Ok(y)) => x.0@ == y.0 && x.1@ == y.1,
            (Err(e), Err(f)) => e@ == f,
            _ => false,
        },
{
    let one = Decimal::one();
    let n = Decimal::from_u32(nper);
    let base = ok_or_overflow(one.checked_add(r), "rate: base overflow")?;
    let power = ok_or_overflow(base.checked_powi(nper as i64), "rate: power overflow")?;
    let power_prev = if nper == 1 {
        one
    } else {
        ok_or_overflow(base.checked_powi((nper - 1) as i64), "rate: power_prev overflow")?
    };
    let (annuity_factor, annuity_derivative) = if r.is_zero() {
        let n_minus_one = ok_or_overflow(n.checked_sub(one), "rate: n-1 overflow")?;
        let product = ok_or_overflow(n.checked_mul(n_minus_one), "rate: annuity derivative overflow")?;
        let da = ok_or_overflow(
            product.checked_div(Decimal::from_u32(2)),
            "rate: annuity derivative overflow",
        )?;
        (n, da)
    } else {
        let power_minus_one = ok_or_overflow(power.checked_sub(one), "rate: power_minus_one overflow")?;
        let a = ok_or_div_zero(power_minus_one.checked_div(r), "rate annuity factor")?;
        let da = ok_or_div_zero(
            match n.checked_mul(power_prev) {
                Some(v) => match v.checked_sub(a) {
                    Some(w) => w.checked_div(r),
                    None => None,
                },
                None => None,
            },
            "rate annuity derivative",
        )?;
        (a, da)
    };
    let r_due = ok_or_overflow(r.checked_mul(due_flag), "rate: due flag overflow")?;
    let due_factor = ok_or_overflow(one.checked_add(r_due), "rate: due_factor overflow")?;
    let pv_term = ok_or_overflow(pv.inner().checked_mul(power), "rate: pv_term overflow")?;
    let pmt_term = ok_or_overflow(
        match pmt.inner().checked_mul(annuity_factor) {
            Some(v) => v.checked_mul(due_factor),
            None => None,
        },
        "rate: pmt_term overflow",
    )?;
    let f = ok_or_overflow(
        match pv_term.checked_add(pmt_term) {
            Some(v) => v.checked_add(fv.inner()),
            None => None,
        },
        "rate: f overflow",
    )?;
    let pv_derivative = ok_or_overflow(
        match pv.inner().checked_mul(n) {
            Some(v) => v.checked_mul(power_prev),
            None => None,
        },
        "rate: pv_derivative overflow",
    )?;
    let part_a = ok_or_overflow(
        annuity_derivative.checked_mul(due_factor),
        "rate: pmt_derivative_a overflow",
    )?;
    let part_b = ok_or_overflow(annuity_factor.checked_mul(due_flag), "rate: pmt_derivative_b overflow")?;
    let pmt_derivative = ok_or_overflow(part_a.checked_add(part_b), "rate: pmt_derivative overflow")?;
    let total = ok_or_overflow(
        pmt.inner().checked_mul(pmt_derivative),
        "rate: pmt_derivative_total overflow",
    )?;
    let f_prime = ok_or_overflow(pv_derivative.checked_add(total), "rate: f_prime overflow")?;
    Ok((f, f_prime))
}

/// The TVM equation at rate `r`, or zero where a step overflows.
pub open spec fn tvm_equation_model(
    nper: u32,
    pmt: DecimalModel,
    pv: DecimalModel,
    fv: DecimalModel,
    r: DecimalModel,
    due_flag: DecimalModel,
) -> DecimalModel {
    match decimal_add(one_model(), r) {
        None => zero_model(),
        Some(base) => match decimal_powi(base, nper as int) {
            None => zero_model(),
            Some(power) => match (if r.units() == 0 {
                Some(int_model(nper as int))
            } else {
                match decimal_sub(power, one_model()) {
                    Some(v) => decimal_div(v, r),
                    None => None,
                }
            }) {
                None => zero_model(),
                Some(annuity_factor) => match decimal_add(
                    one_model(),
                    match decimal_mul(r, due_flag) {
                        Some(x) => x,
                        None => zero_model(),
                    },
                ) {
                    None => zero_model(),
                    Some(due_factor) => match decimal_mul(pv, power) {
                        None => zero_model(),
                        Some(v) => match decimal_mul(pmt, annuity_factor) {
                            None => zero_model(),
                            Some(w0) => match decimal_mul(w0, due_factor) {
                                None => zero_model(),
                                Some(w) => match decimal_add(v, w) {
                                    None => zero_model(),
                                    Some(vw) => match decimal_add(vw, fv) {
                                        None => zero_model(),
                                        Some(result) => result,
                                    },
                                },
                            },
                        },
                    },
                },
            },
        },
    }
}

/// Evaluates `f(r) = PV (1+r)^n + PMT ((1+r)^n - 1)/r (1 + r d) + FV`;
/// zero where a step overflows.
fn tvm_equation(nper: u32, pmt: Money, pv: Money, fv: Money, r: Decimal, due_flag: Decimal) -> (res: Decimal)
    ensures
        res@ == tvm_equation_model(nper, pmt@, pv@, fv@, r@, due_flag@),
{
    let one = Decimal::one();
    let base = match one.checked_add(r) {
        Some(b) => b,
        None => return Decimal::zero(),
    };
    let power = match base.checked_powi(nper as i64) {
        Some(p) => p,
        None => return Decimal::zero(),
    };
    let annuity_factor = if r.is_zero() {
        Decimal::from_u32(nper)
    } else {
        match power.checked_sub(one) {
            Some(v) => match v.checked_div(r) {
                Some(af) => af,
                None => return Decimal::zero(),
            },
            None => return Decimal::zero(),
        }
    };
    let r_due = match r.checked_mul(due_flag) {
        Some(x) => x,
        None => Decimal::zero(),
    };
    let due_factor = match one.checked_add(r_due) {
        Some(df) => df,
        None => return Decimal::zero(),
    };
    let v = match pv.inner().checked_mul(power) {
        Some(v) => v,
        None => return Decimal::zero(),
    };
    let w0 = match pmt.inner().checked_mul(annuity_factor) {
        Some(w) => w,
        None => return Decimal::zero(),
    };
    let w = match w0.checked_mul(due_factor) {
        Some(w) => w,
        None => return Decimal::zero(),
    };
    let vw = match v.checked_add(w) {
        Some(x) => x,
        None => return Decimal::zero(),
    };
    match vw.checked_add(fv.inner()) {
        Some(result) => result,
        None => Decimal::zero(),
    }
}

/// The error a solver returns when it runs out of iterations.
pub open spec fn no_convergence_model(config: Config) -> ErrorModel {
    ErrorModel::IrrConvergenceFailure { max_iter: config.max_iterations, eps: config.eps@ }
}

/// `(a + b) / 2`.
pub open spec fn midpoint_model(a: DecimalModel, b: DecimalModel, detail: &str) -> Result<
    DecimalModel,
    ErrorModel,
> {
    then(
        or_overflow(decimal_add(a, b), detail),
        |sum: DecimalModel| or_overflow(decimal_div(sum, int_model(2)), detail),
    )
}

pub(crate) fn midpoint(a: Decimal, b: Decimal, detail: &str) -> (res: Result<Decimal, CasifinError>)
    ensures
        result_view(res) == midpoint_model(a@, b@, detail),
{
    let sum = ok_or_overflow(a.checked_add(b), detail)?;
    ok_or_overflow(sum.checked_div(Decimal::from_u32(2)), detail)
}

/// Bisection on `[low, high]` with current midpoint `mid`, for at most
/// `remaining` more rounds: stop when `|f(mid)| < eps` or when the midpoint
/// moves by less than `eps`; keep the half where `f(low) f(mid) < 0`.
pub open spec fn rate_bisection_model(
    nper: u32,
    pmt: DecimalModel,
    pv: DecimalModel,
    fv: DecimalModel,
    due_flag: DecimalModel,
    config: Config,
    low: DecimalModel,
    high: DecimalModel,
    mid: DecimalModel,
    remaining: nat,
) -> Result<DecimalModel, ErrorModel>
    decreases remaining,
{
    if remaining == 0 {
        Err(no_convergence_model(config))
    } else {
        let f_mid = tvm_equation_model(nper, pmt, pv, fv, mid, due_flag);
        if below(f_mid, config.eps@) {
            Ok(mid)
        } else {
            let f_low = tvm_equation_model(nper, pmt, pv, fv, low, due_flag);
            then(
                or_overflow(decimal_mul(f_low, f_mid), "rate: bisection overflow"),
                |product: DecimalModel|
                    {
                        let new_low = if product.units() < 0 {
                            low
                        } else {
                            mid
                        };
                        let new_high = if product.units() < 0 {
                            mid
                        } else {
                            high
                        };
                        then(
                            midpoint_model(new_low, new_high, "rate: bisection overflow"),
                            |new_mid: DecimalModel|
                                then(
                                    or_overflow(decimal_sub(new_mid, mid), "rate: bisection overflow"),
                                    |moved: DecimalModel|
                                        if below(moved, config.eps@) {
                                            Ok(new_mid)
                                        } else {
                                            rate_bisection_model(
                                                nper,
                                                pmt,
                                                pv,
                                                fv,
                                                due_flag,
                                                config,
                                                new_low,
                                                new_high,
                                                new_mid,
                                                (remaining - 1) as nat,
                                            )
                                        },
                                ),
                        )
                    },
            )
        }
    }
}

/// The start of the rate bisection: `[-0.9999, 1]` and its midpoint.
pub open spec fn rate_bisection_start(
    nper: u32,
    pmt: DecimalModel,
    pv: DecimalModel,
    fv: DecimalModel,
    due_flag: DecimalModel,
    config: Config,
) -> Result<DecimalModel, ErrorModel> {
    let low = DecimalModel { mantissa: -9999, scale: 4 };
    then(
        midpoint_model(low, one_model(), "rate: bisection overflow"),
        |mid: DecimalModel|
            rate_bisection_model(
                nper,
                pmt,
                pv,
                fv,
                due_flag,
                config,
                low,
                one_model(),
                mid,
                config.max_iterations as nat,
            ),
    )
}

/// Bisection solver for the rate, used when Newton-Raphson meets a flat derivative.
fn rate_bisection(nper: u32, pmt: Money, pv: Money, fv: Money, due_flag: Decimal, config: Config) -> (res: Result<
    Decimal,
    CasifinError,
>)
    ensures
        result_view(res) == rate_bisection_start(nper, pmt@, pv@, fv@, due_flag@, config),
{
    let mut low = Decimal::new(-9999, 4);
    let mut high = Decimal::one();
    let mut mid = midpoint(low, high, "rate: bisection overflow")?;
    let mut i: u32 = 0;
    while i < config.max_iterations
        invariant
            i <= config.max_iterations,
            rate_bisection_start(nper, pmt@, pv@, fv@, due_flag@, config) == rate_bisection_model(
                nper,
                pmt@,
                pv@,
                fv@,
                due_flag@,
                config,
                low@,
                high@,
                mid@,
                (config.max_iterations - i) as nat,
            ),
        decreases config.max_iterations - i,
    {
        let f_mid = tvm_equation(nper, pmt, pv, fv, mid, due_flag);
        if is_below(f_mid, config.eps) {
            return Ok(mid);
        }
        let f_low = tvm_equation(nper, pmt, pv, fv, low, due_flag);
        let product = ok_or_overflow(f_low.checked_mul(f_mid), "rate: bisection overflow")?;
        if product.is_sign_negative() {
            high = mid;
        } else {
            low = mid;
        }
        let new_mid = midpoint(low, high, "rate: bisection overflow")?;
        let moved = ok_or_overflow(new_mid.checked_sub(mid), "rate: bisection overflow")?;
        if is_below(moved, config.eps) {
            return Ok(new_mid);
        }
        mid = new_mid;
        i = i + 1;
    }
    Err(CasifinError::IrrConvergenceFailure { max_iter: config.max_iterations, eps: config.eps })
}

} // verus!

verus! {

/// Newton-Raphson on the TVM equation from rate `r`, for at most `remaining`
/// more rounds: stop when `|f(r)| < eps`; switch to bisection when
/// `|f'(r)| < eps`; otherwise step to `r - f(r)/f'(r)` and stop when the step
/// is below `eps`.
pub open spec fn rate_newton_model(
    nper: u32,
    pmt: DecimalModel,
    pv: DecimalModel,
    fv: DecimalModel,
    due_flag: DecimalModel,
    config: Config,
    r: DecimalModel,
    remaining: nat,
) -> Result<DecimalModel, ErrorModel>
    decreases remaining,
{
    if remaining == 0 {
        Err(no_convergence_model(config))
    } else {
        then(
            rate_equation_model(nper, pmt, pv, fv, r, due_flag),
            |ff: (DecimalModel, DecimalModel)|
                if below(ff.0, config.eps@) {
                    Ok(r)
                } else if below(ff.1, config.eps@) {
                    rate_bisection_start(nper, pmt, pv, fv, due_flag, config)
                } else {
                    then(
                        or_div_zero(decimal_div(ff.0, ff.1), "rate newton step"),
                        |step: DecimalModel|
                            then(
                                or_overflow(decimal_sub(r, step), "rate: newton overflow"),
                                |new_rate: DecimalModel|
                                    then(
                                        or_overflow(decimal_sub(new_rate, r), "rate: newton overflow"),
                                        |moved: DecimalModel|
                                            if below(moved, config.eps@) {
                                                Ok(new_rate)
                                            } else {
                                                rate_newton_model(
                                                    nper,
                                                    pmt,
                                                    pv,
                                                    fv,
                                                    due_flag,
                                                    config,
                                                    new_rate,
                                                    (remaining - 1) as nat,
                                                )
                                            },
                                    ),
                            ),
                    )
                },
        )
    }
}

/// What [`rate`] returns: zero periods are refused; otherwise Newton-Raphson
/// from `guess`, or from the configured guess when none is given.
pub open spec fn rate_model(
    nper: u32,
    pmt: DecimalModel,
    pv: DecimalModel,
    fv: DecimalModel,
    due: PaymentDue,
    guess: Option<DecimalModel>,
    config: Config,
) -> Result<DecimalModel, ErrorModel> {
    if nper == 0 {
        Err(ErrorModel::InvalidPeriod(0))
    } else {
        rate_newton_model(
            nper,
            pmt,
            pv,
            fv,
            due_flag_model(due),
            config,
            match guess {
                Some(g) => g,
                None => config.guess@,
            },
            config.max_iterations as nat,
        )
    }
}

/// The periodic interest rate that solves the TVM equation
/// `PV (1+r)^n + PMT ((1+r)^n - 1)/r (1 + r d) + FV = 0`, by Newton-Raphson
/// with a bisection fallback where the derivative is flat.
pub fn rate(
    nper: u32,
    pmt: Money,
    pv: Money,
    fv: Money,
    due: PaymentDue,
    guess: Option<Decimal>,
    config: Config,
) -> (res: Result<Decimal, CasifinError>)
    ensures
        result_view(res) == rate_model(nper, pmt@, pv@, fv@, due, crate::decimal::opt_view(guess), config),
{
    if nper == 0 {
        return Err(CasifinError::InvalidPeriod(0));
    }
    let df = due_flag(due);
    let mut rate_val = match guess {
        Some(g) => g,
        None => config.guess,
    };
    let mut i: u32 = 0;
    while i < config.max_iterations
        invariant
            nper >= 1,
            i <= config.max_iterations,
            df@ == due_flag_model(due),
            rate_model(nper, pmt@, pv@, fv@, due, crate::decimal::opt_view(guess), config)
                == rate_newton_model(
                nper,
                pmt@,
                pv@,
                fv@,
                df@,
                config,
                rate_val@,
                (config.max_iterations - i) as nat,
            ),
        decreases config.max_iterations - i,
    {
        let (f, f_prime) = rate_equation_and_derivative(nper, pmt, pv, fv, rate_val, df)?;
        if is_below(f, config.eps) {
            return Ok(rate_val);
        }
        if is_below(f_prime, config.eps) {
            return rate_bisection(nper, pmt, pv, fv, df, config);
        }
        let step = ok_or_div_zero(f.checked_div(f_prime), "rate newton step")?;
        let new_rate = ok_or_overflow(rate_val.checked_sub(step), "rate: newton overflow")?;
        let moved = ok_or_overflow(new_rate.checked_sub(rate_val), "rate: newton overflow")?;
        if is_below(moved, config.eps) {
            return Ok(new_rate);
        }
        rate_val = new_rate;
        i = i + 1;
    }
    Err(CasifinError::IrrConvergenceFailure { max_iter: config.max_iterations, eps: config.eps })
}


/// At a zero periodic rate, [`pv`] undoes [`fv`]: the present value of the
/// future value of `start` is `start` again, by value.  It holds when
/// `pmt * nper` and `start + pmt * nper` are exact and `start` itself fits
/// at the larger scale of `start` and `pmt`.
pub proof fn law_zero_rate_pv_undoes_fv(
    rate: Rate,
    nper: u32,
    pmt: Money,
    start: Money,
    due: PaymentDue,
    x: Result<Money, CasifinError>,
    y: Result<Money, CasifinError>,
)
    requires
        call_ensures(fv, (rate, nper, pmt, start, due), x),
        x matches Ok(f) ==> call_ensures(pv, (rate, nper, pmt, f, due), y),
        nper > 0,
        zero_period_rate(rate),
        zero_rate_exact(start@, pmt@, nper),
        crate::decimal::sum_fits(start@, pmt@, start@.units()),
        start@.wf(),
        pmt@.wf(),
    ensures
        x is Ok,
        y matches Ok(p) && p@.units() == start@.units(),
{
    let f = x->Ok_0;
    let m = crate::decimal::max_scale_of(start@, pmt@);
    let t = DecimalModel { mantissa: pmt@.mantissa * nper, scale: pmt@.scale };
    assert(f@.units() + pmt@.units() * nper == -start@.units());
    let q = crate::decimal::pow10((crate::decimal::max_scale() - m) as nat);
    let mm = crate::decimal::max_mantissa();
    assert((-mm) * q == -(mm * q)) by (nonlinear_arith);
    crate::decimal::lemma_sum_fits_at_scale(f@, t, -start@.units(), m);
}


/// The TVM equation that the rate bisection evaluates agrees with the one
/// of the Newton step: wherever [`rate_equation_model`] gives `(f, f')`,
/// [`tvm_equation_model`] gives the same `f`.
pub proof fn law_tvm_equation_agrees_with_newton(
    nper: u32,
    pmt: DecimalModel,
    pv: DecimalModel,
    fv: DecimalModel,
    r: DecimalModel,
    due_flag: DecimalModel,
)
    requires
        rate_equation_model(nper, pmt, pv, fv, r, due_flag) is Ok,
    ensures
        tvm_equation_model(nper, pmt, pv, fv, r, due_flag) == rate_equation_model(nper, pmt, pv, fv, r, due_flag)->Ok_0.0,
{
    let base = decimal_add(one_model(), r)->Some_0;
    let power = decimal_powi(base, nper as int)->Some_0;
    let power_prev = if nper == 1 {
        one_model()
    } else {
        decimal_powi(base, nper - 1)->Some_0
    };
    let ad = annuity_factor_model(nper, r, power, power_prev)->Ok_0;
    let r_due = decimal_mul(r, due_flag)->Some_0;
    let due_factor = decimal_add(one_model(), r_due)->Some_0;
    assert(rate_equation_model(nper, pmt, pv, fv, r, due_flag) == rate_equation_tail(
        nper,
        pmt,
        pv,
        fv,
        due_flag,
        power,
        power_prev,
        ad.0,
        ad.1,
        due_factor,
    ));
}


/// The future value of an annuity due is that of the ordinary annuity one
/// period later: with no present value and a non-zero periodic rate `r`,
/// the future value of payments at the beginning of each period is the
/// future value of the same payments at the end, `pmt * ((1+r)^n - 1) / r`,
/// multiplied by `1 + r` (as `rust_decimal` multiplies).
pub proof fn law_fv_annuity_due_grows_one_more_period(
    rate: Rate,
    nper: u32,
    pmt: Money,
    pv: Money,
    at_end: Result<Money, CasifinError>,
    at_beginning: Result<Money, CasifinError>,
)
    requires
        call_ensures(fv, (rate, nper, pmt, pv, PaymentDue::End), at_end),
        call_ensures(fv, (rate, nper, pmt, pv, PaymentDue::Beginning), at_beginning),
        pv@.mantissa == 0,
        !zero_period_rate(rate),
    ensures
        at_end matches Ok(e) ==> (at_beginning matches Ok(b) ==> (fv_payment_term(rate, nper, pmt@) matches Some(
            tb,
        ) && e@.units() == tb.0.units() && (decimal_mul(tb.0, tb.1) matches Some(m) && b@.units() == m.units()))),
{
}


/// A guess that already solves the TVM equation is the rate returned: when
/// `PV (1+g)^n + PMT ((1+g)^n - 1)/g (1 + g d) + FV` is within `eps` of zero
/// at the guess `g`, with the timing flag `d` of the payments (1 when they
/// fall at the beginning of each period, 0 at the end), and the equation and
/// its derivative can be evaluated there, [`rate`] returns `g` itself.
pub proof fn law_rate_keeps_a_root_guess(
    nper: u32,
    pmt: DecimalModel,
    pv: DecimalModel,
    fv: DecimalModel,
    due: PaymentDue,
    g: DecimalModel,
    config: Config,
)
    requires
        nper > 0,
        config.max_iterations > 0,
        rate_equation_model(
            nper,
            pmt,
            pv,
            fv,
            g,
            if due == PaymentDue::Beginning {
                one_model()
            } else {
                zero_model()
            },
        ) is Ok,
        below(
            tvm_equation_model(
                nper,
                pmt,
                pv,
                fv,
                g,
                if due == PaymentDue::Beginning {
                    one_model()
                } else {
                    zero_model()
                },
            ),
            config.eps@,
        ),
    ensures
        rate_model(nper, pmt, pv, fv, due, Some(g), config) == Ok::<DecimalModel, ErrorModel>(g),
{
    let d = due_flag_model(due);
    law_tvm_equation_agrees_with_newton(nper, pmt, pv, fv, g, d);
    assert(rate_model(nper, pmt, pv, fv, due, Some(g), config) == rate_newton_model(
        nper,
        pmt,
        pv,
        fv,
        d,
        config,
        g,
        config.max_iterations as nat,
    ));
}


/// The balance ratio of the TVM equation solved for the number of periods:
/// `(PMT (1 + r d) - FV r) / (PMT (1 + r d) + PV r)`, with `d` 1 for payments
/// at the beginning of each period and 0 at the end.
pub open spec fn growth_ratio(
    r: DecimalModel,
    pmt: DecimalModel,
    pv: DecimalModel,
    fv: DecimalModel,
    due: PaymentDue,
) -> Option<DecimalModel> {
    let d = if due == PaymentDue::Beginning {
        one_model()
    } else {
        zero_model()
    };
    match decimal_mul(r, d) {
        Some(rd) => match decimal_add(one_model(), rd) {
            Some(timing) => match decimal_mul(pmt, timing) {
                Some(payment) => match (decimal_mul(fv, r), decimal_mul(pv, r)) {
                    (Some(fv_growth), Some(pv_growth)) => match (
                        decimal_sub(payment, fv_growth),
                        decimal_add(payment, pv_growth),
                    ) {
                        (Some(owed_at_end), Some(owed_at_start)) => decimal_div(owed_at_end, owed_at_start),
                        _ => None,
                    },
                    _ => None,
                },
                None => None,
            },
            None => None,
        },
        None => None,
    }
}

/// The number of periods solves `(1 + r)^N = ratio` in logarithms: at a
/// non-zero periodic rate `r`, when [`nper`] returns `N`, the balance ratio
/// `(PMT (1 + r d) - FV r) / (PMT (1 + r d) + PV r)` is positive and `N` is
/// `ln(ratio) / ln(1 + r)` (as `rust_decimal` takes logarithms and divides).
pub proof fn law_nper_solves_growth_equation(
    rate: Rate,
    pmt: DecimalModel,
    pv: DecimalModel,
    fv: DecimalModel,
    due: PaymentDue,
    n: DecimalModel,
)
    requires
        nper_model(rate, pmt, pv, fv, due) == Ok::<DecimalModel, ErrorModel>(n),
        !zero_period_rate(rate),
    ensures
        compounding_period_rate_model(rate) matches Ok(r) && (growth_ratio(r, pmt, pv, fv, due) matches Some(ratio)
            && ratio.units() > 0 && (decimal_ln(ratio) matches Some(ln_ratio) && (decimal_add(one_model(), r) matches Some(
            base,
        ) && (decimal_ln(base) matches Some(ln_base) && decimal_div(ln_ratio, ln_base) == Some(n))))),
{
}

} // verus!

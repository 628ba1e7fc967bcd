use casifin::config::Config;
use casifin::decimal::Decimal;
use casifin::error::CasifinError;
use casifin::money::Money;
use casifin::rate::{Compounding, DayCount, PaymentDue, Rate};
use casifin::tvm::{fv, fv_uneven_cashflows, nper, pmt, pv, pv_perpetuity, rate};

fn make_rate(annual_pct: i64, periods: u32) -> Rate {
    let dec = Decimal::new(annual_pct, 2);
    Rate::new(dec, Compounding::Discrete(periods), DayCount::Actual365).unwrap()
}

fn assert_near(actual: Decimal, expected: Decimal, tolerance: Decimal) {
    let diff = actual.checked_sub(expected).unwrap().abs();
    assert!(diff <= tolerance, "assertion failed: {:?} not within {:?} of {:?}", actual, tolerance, expected);
}

#[test]
fn pv_annuity_end() {
    let rate = make_rate(5, 1);
    let result = pv(rate, 5, Money::from_decimal(Decimal::new(1000, 0)), Money::zero(), PaymentDue::End).unwrap();
    let expected = Decimal::new(4329476671_i64, 6);
    assert_near(result.inner(), expected, Decimal::new(1, 6));
}

#[test]
fn pv_annuity_begin() {
    let rate = make_rate(5, 1);
    let result =
        pv(rate, 5, Money::from_decimal(Decimal::new(1000, 0)), Money::zero(), PaymentDue::Beginning).unwrap();
    let expected = Decimal::new(4545950504_i64, 6);
    assert_near(result.inner(), expected, Decimal::new(1, 6));
}

#[test]
fn fv_annuity_end() {
    let rate = make_rate(5, 1);
    let result = fv(rate, 5, Money::from_decimal(Decimal::new(1000, 0)), Money::zero(), PaymentDue::End).unwrap();
    let expected = Decimal::new(5525631250_i64, 6);
    assert_near(result.inner(), expected, Decimal::new(1, 6));
}

#[test]
fn pmt_mortgage() {
    let rate = Rate::new(Decimal::new(425, 4), Compounding::Discrete(12), DayCount::Actual365).unwrap();
    let result =
        pmt(rate, 360, Money::from_decimal(Decimal::new(300000, 0)), Money::zero(), PaymentDue::End).unwrap();
    let expected = Decimal::new(1475817865_i64, 6);
    assert_near(result.inner().abs(), expected, Decimal::new(1, 2));
}

#[test]
fn nper_loan() {
    let rate = Rate::new(Decimal::zero(), Compounding::Discrete(12), DayCount::Actual365).unwrap();
    let result = nper(
        rate,
        Money::from_decimal(Decimal::new(-200, 0)),
        Money::from_decimal(Decimal::new(10000, 0)),
        Money::zero(),
        PaymentDue::End,
    )
    .unwrap();
    assert_eq!(result, Decimal::new(50, 0));
}

#[test]
fn rate_savings() {
    let config = Config::default();
    let result = rate(
        10,
        Money::zero(),
        Money::from_decimal(Decimal::new(-1000, 0)),
        Money::from_decimal(Decimal::new(2000, 0)),
        PaymentDue::End,
        Some(Decimal::new(1, 1)),
        config,
    )
    .unwrap();
    let expected = Decimal::new(7177346, 8);
    assert_near(result, expected, Decimal::new(1, 6));
}

#[test]
fn pv_perpetuity_5pct() {
    let rate = make_rate(5, 1);
    let result = pv_perpetuity(rate, Money::from_decimal(Decimal::new(100, 0))).unwrap();
    assert_eq!(result, Money::from_decimal(Decimal::new(2000, 0)));
}

#[test]
fn rate_convergence_failure() {
    let config = Config::builder().max_iterations(1).eps(Decimal::new(1, 15)).build();
    let result = rate(
        10,
        Money::from_decimal(Decimal::new(-100, 0)),
        Money::from_decimal(Decimal::new(1000, 0)),
        Money::from_decimal(Decimal::new(2000, 0)),
        PaymentDue::End,
        Some(Decimal::new(1, 1)),
        config,
    );
    assert!(matches!(result, Err(CasifinError::IrrConvergenceFailure { .. })));
}

#[test]
fn pv_and_fv_at_zero_rate() {
    let zero = make_rate(0, 12);
    let pv_zero = pv(zero, 10, Money::from(100), Money::from(500), PaymentDue::End).unwrap();
    assert_eq!(pv_zero, Money::from(-1500));
    let fv_zero = fv(zero, 10, Money::from(100), Money::from(500), PaymentDue::Beginning).unwrap();
    assert_eq!(fv_zero, Money::from(-1500));
}

#[test]
fn zero_periods_are_refused() {
    let r = make_rate(5, 1);
    assert_eq!(pv(r, 0, Money::from(1), Money::zero(), PaymentDue::End), Err(CasifinError::InvalidPeriod(0)));
    assert_eq!(fv(r, 0, Money::from(1), Money::zero(), PaymentDue::End), Err(CasifinError::InvalidPeriod(0)));
    assert_eq!(pmt(r, 0, Money::from(1), Money::zero(), PaymentDue::End), Err(CasifinError::InvalidPeriod(0)));
    let result = rate(0, Money::zero(), Money::from(-1), Money::from(2), PaymentDue::End, None, Config::default());
    assert_eq!(result, Err(CasifinError::InvalidPeriod(0)));
}

#[test]
fn pmt_at_zero_rate_splits_evenly() {
    let zero = make_rate(0, 12);
    let payment = pmt(zero, 4, Money::from(1000), Money::from(200), PaymentDue::End).unwrap();
    assert_eq!(payment, Money::from(-300));
}

#[test]
fn perpetuity_at_zero_rate_is_refused() {
    let zero = make_rate(0, 1);
    assert!(matches!(pv_perpetuity(zero, Money::from(100)), Err(CasifinError::InvalidRate(_))));
}

#[test]
fn nper_zero_payment_is_refused() {
    let r = make_rate(5, 1);
    let result = nper(r, Money::zero(), Money::from(1000), Money::zero(), PaymentDue::End);
    assert!(result.is_err());
}

#[test]
fn fv_of_uneven_flows() {
    let r = make_rate(10, 1);
    let flows = [Money::from(100), Money::from(100)];
    let total = fv_uneven_cashflows(r, &flows).unwrap();
    assert_eq!(total, Money::from(231));
    assert!(matches!(fv_uneven_cashflows(r, &[]), Err(CasifinError::InvalidInput { .. })));
}

#[test]
fn pv_then_fv_round_trip_without_payments() {
    let r = make_rate(5, 1);
    let start_value = Money::from(1000);
    let future = fv(r, 10, Money::zero(), start_value, PaymentDue::End).unwrap();
    let back = pv(r, 10, Money::zero(), future, PaymentDue::End).unwrap();
    assert_near(back.inner(), start_value.inner(), Decimal::new(1, 6));
}

#[test]
fn zero_rate_pv_undoes_fv_with_payments() {
    let r = make_rate(0, 12);
    let start = Money::from(1000);
    let future = fv(r, 10, Money::from(100), start, PaymentDue::End).unwrap();
    assert_eq!(future.inner(), Decimal::from(-2000));
    let back = pv(r, 10, Money::from(100), future, PaymentDue::End).unwrap();
    assert_eq!(back.inner(), Decimal::from(1000));
}

#[test]
fn payment_due_at_beginning_is_end_payment_discounted_one_period() {
    let r = make_rate(10, 1);
    let end = pmt(r, 3, Money::from(1000), Money::zero(), PaymentDue::End).unwrap();
    let begin = pmt(r, 3, Money::from(1000), Money::zero(), PaymentDue::Beginning).unwrap();
    assert_eq!(begin.inner(), end.inner().checked_div(Decimal::new(11, 1)).unwrap());
    let zero = make_rate(0, 12);
    assert_eq!(
        pmt(zero, 4, Money::from(100), Money::zero(), PaymentDue::Beginning),
        pmt(zero, 4, Money::from(100), Money::zero(), PaymentDue::End)
    );
}

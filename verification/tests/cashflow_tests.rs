use casifin::cashflow::{irr, npv, xirr, xnpv, CashFlow, CashFlowStream};
use casifin::config::Config;
use casifin::date::Date;
use casifin::decimal::Decimal;
use casifin::error::CasifinError;
use casifin::money::Money;

fn uneven_flows() -> CashFlowStream {
    CashFlowStream::new(vec![
        CashFlow::new(Money::from_decimal(Decimal::new(-1000, 0))),
        CashFlow::new(Money::from_decimal(Decimal::new(300, 0))),
        CashFlow::new(Money::from_decimal(Decimal::new(400, 0))),
        CashFlow::new(Money::from_decimal(Decimal::new(400, 0))),
        CashFlow::new(Money::from_decimal(Decimal::new(300, 0))),
    ])
}

#[test]
fn npv_zero_rate() {
    let flows = uneven_flows();
    let result = npv(Decimal::zero(), &flows).unwrap();
    assert_eq!(result, Money::from_decimal(Decimal::new(400, 0)));
}

#[test]
fn npv_known_value() {
    let flows = uneven_flows();
    let rate = Decimal::new(8, 2);
    let result = npv(rate, &flows).unwrap();
    assert!(result > Money::from_decimal(Decimal::new(158, 0)));
    assert!(result < Money::from_decimal(Decimal::new(160, 0)));
}

#[test]
fn irr_known_value() {
    let flows = uneven_flows();
    let config = Config::default();
    let result = irr(&flows, config).unwrap();
    assert!(result > Decimal::new(14, 2));
    assert!(result < Decimal::new(15, 2));
}

#[test]
fn irr_insufficient_flows() {
    let flows = CashFlowStream::new(vec![
        CashFlow::new(Money::from_decimal(Decimal::new(100, 0))),
        CashFlow::new(Money::from_decimal(Decimal::new(200, 0))),
    ]);
    let config = Config::default();
    let result = irr(&flows, config);
    assert!(matches!(result, Err(CasifinError::InsufficientCashFlows)));
}

#[test]
fn xnpv_known_value() {
    let date1 = Date::from_ymd_opt(2024, 1, 1).unwrap();
    let date2 = Date::from_ymd_opt(2024, 12, 31).unwrap();
    let date3 = Date::from_ymd_opt(2025, 12, 31).unwrap();
    let flows = CashFlowStream::new(vec![
        CashFlow::with_date(Money::from_decimal(Decimal::new(-1000, 0)), date1),
        CashFlow::with_date(Money::from_decimal(Decimal::new(500, 0)), date2),
        CashFlow::with_date(Money::from_decimal(Decimal::new(500, 0)), date3),
    ]);
    let rate = Decimal::new(10, 2);
    let result = xnpv(rate, &flows).unwrap();
    assert!(result < Money::zero());
}

#[test]
fn xirr_known_value() {
    let date1 = Date::from_ymd_opt(2024, 1, 1).unwrap();
    let date2 = Date::from_ymd_opt(2024, 12, 31).unwrap();
    let date3 = Date::from_ymd_opt(2025, 12, 31).unwrap();
    let flows = CashFlowStream::new(vec![
        CashFlow::with_date(Money::from_decimal(Decimal::new(-1000, 0)), date1),
        CashFlow::with_date(Money::from_decimal(Decimal::new(600, 0)), date2),
        CashFlow::with_date(Money::from_decimal(Decimal::new(600, 0)), date3),
    ]);
    let config = Config::default();
    let result = xirr(&flows, config).unwrap();
    assert!(result > Decimal::zero());
}

#[test]
fn irr_convergence() {
    let flows = uneven_flows();
    let config = Config::builder().max_iterations(1).eps(Decimal::new(1, 20)).build();
    let result = irr(&flows, config);
    assert!(matches!(result, Err(CasifinError::IrrConvergenceFailure { .. })));
}

#[test]
fn npv_refuses_empty_stream_and_negative_rate() {
    let empty = CashFlowStream::new(vec![]);
    assert_eq!(npv(Decimal::new(1, 1), &empty), Err(CasifinError::InsufficientCashFlows));
    let flows = uneven_flows();
    assert_eq!(npv(Decimal::new(-1, 1), &flows), Err(CasifinError::InvalidRate(Decimal::new(-1, 1))));
}

#[test]
fn npv_discounts_one_period() {
    let flows = CashFlowStream::from_vec(vec![Money::from(-100), Money::from(110)]);
    assert_eq!(npv(Decimal::new(1, 1), &flows).unwrap(), Money::zero());
}

#[test]
fn xnpv_needs_dates() {
    let undated = uneven_flows();
    assert_eq!(
        xnpv(Decimal::new(1, 1), &undated),
        Err(CasifinError::DateOutOfRange("No dates in stream".to_string()))
    );
    let d = Date::from_ymd_opt(2024, 1, 1).unwrap();
    let mixed = CashFlowStream::new(vec![CashFlow::with_date(Money::from(-10), d), CashFlow::new(Money::from(11))]);
    assert_eq!(
        xnpv(Decimal::new(1, 1), &mixed),
        Err(CasifinError::DateOutOfRange("Undated cash flow in XNPV".to_string()))
    );
}

#[test]
fn xnpv_of_flows_on_one_date_is_their_sum() {
    let d = Date::from_ymd_opt(2024, 6, 30).unwrap();
    let flows = CashFlowStream::new(vec![
        CashFlow::with_date(Money::from(-10), d),
        CashFlow::with_date(Money::from(25), d),
    ]);
    assert_eq!(xnpv(Decimal::new(1, 1), &flows).unwrap(), Money::from(15));
}

#[test]
fn stream_accessors() {
    let flows = uneven_flows();
    assert_eq!(flows.len(), 5);
    assert!(!flows.is_empty());
    assert!(flows.has_positive_and_negative());
    assert_eq!(flows.get(1).unwrap().amount, Money::from(300));
    assert!(flows.get(5).is_none());
    assert_eq!(flows.iter().count(), 5);
    let positive = CashFlowStream::from_vec(vec![Money::from(1), Money::from(2)]);
    assert!(!positive.has_positive_and_negative());
    let zero_and_negative = CashFlowStream::from_vec(vec![Money::zero(), Money::from(-100)]);
    assert!(!zero_and_negative.has_positive_and_negative());
}

#[test]
fn dates_count_days() {
    let a = Date::from_ymd_opt(2024, 1, 1).unwrap();
    let b = Date::from_ymd_opt(2024, 12, 31).unwrap();
    assert_eq!(b.days_since(a), 365);
    assert_eq!(Date::from_ymd_opt(1, 1, 1).unwrap().num_days_from_ce(), 1);
    assert!(Date::from_ymd_opt(2023, 2, 29).is_none());
    assert!(Date::from_ymd_opt(2024, 13, 1).is_none());
    assert_eq!(a.checked_add_days(365), Some(b));
}

#[test]
fn xnpv_counts_flows_dated_before_the_first() {
    let first = Date::from_ymd_opt(2024, 1, 1).unwrap();
    let earlier = Date::from_ymd_opt(2023, 1, 1).unwrap();
    let flows = CashFlowStream::new(vec![
        CashFlow::with_date(Money::from(100), first),
        CashFlow::with_date(Money::from(100), earlier),
    ]);
    assert_eq!(xnpv(Decimal::zero(), &flows).unwrap(), Money::from(200));
    let grown = xnpv(Decimal::new(1, 1), &flows).unwrap().inner();
    let diff = grown.checked_sub(Decimal::from(210)).unwrap().abs();
    assert!(diff < Decimal::new(1, 6));
}

#[test]
fn xirr_needs_both_signs() {
    let d1 = Date::from_ymd_opt(2024, 1, 1).unwrap();
    let d2 = Date::from_ymd_opt(2025, 1, 1).unwrap();
    let flows = CashFlowStream::new(vec![
        CashFlow::with_date(Money::zero(), d1),
        CashFlow::with_date(Money::from(-100), d2),
    ]);
    assert_eq!(xirr(&flows, Config::default()), Err(CasifinError::XirrSignRequirement));
    let empty = CashFlowStream::new(vec![]);
    assert_eq!(xirr(&empty, Config::default()), Err(CasifinError::InsufficientCashFlows));
}

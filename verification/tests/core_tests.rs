use casifin::traits::CashFlowStream as StreamTrait;
use casifin::config::Config;
use casifin::decimal::Decimal;
use casifin::error::CasifinError;
use casifin::money::Money;
use casifin::rate::{Compounding, DayCount, Rate};

#[test]
fn test_config_default() {
    let config = Config::default();
    assert_eq!(config.eps, Decimal::new(1, 12));
    assert_eq!(config.max_iterations, 1000);
    assert_eq!(config.guess, Decimal::new(1, 1));
    assert!(!config.business_days_only);
    assert!(config.periodic_compound);
}

#[test]
fn test_config_builder() {
    let config = Config::builder().eps(Decimal::new(1, 15)).max_iterations(500).build();
    assert_eq!(config.eps, Decimal::new(1, 15));
    assert_eq!(config.max_iterations, 500);
}

#[test]
fn test_config_with_methods() {
    let config = Config::new().with_eps(Decimal::new(1, 10)).with_max_iterations(100);
    assert_eq!(config.eps, Decimal::new(1, 10));
    assert_eq!(config.max_iterations, 100);
}

#[test]
fn test_money_creation() {
    let m = Money::from_cents(10000);
    assert_eq!(m.inner(), Decimal::new(10000, 2));
}

#[test]
fn test_money_arithmetic() {
    let a = Money::from(100);
    let b = Money::from(50);
    assert_eq!(a.add(b), Money::from(150));
    assert_eq!(a.sub(b), Money::from(50));
    assert_eq!(a.checked_mul(b).unwrap(), Money::from(5000));
}

#[test]
fn test_money_display() {
    let m = Money::from(100);
    assert_eq!(m.to_display_string(), "$100.00");
}

#[test]
fn test_checked_operations() {
    let a = Money::from(100);
    let b = Money::from(50);
    assert_eq!(a.checked_add(b), Some(Money::from(150)));
    assert_eq!(a.checked_sub(b), Some(Money::from(50)));
    assert_eq!(a.checked_div(b), Some(Money::from(2)));
}

#[test]
fn test_rate_creation() {
    let rate = Rate::new(Decimal::new(5, 2), Compounding::monthly(), DayCount::Actual365);
    assert!(rate.is_ok());
}

#[test]
fn test_rate_negative_rejected() {
    let rate = Rate::new(Decimal::new(-5, 2), Compounding::monthly(), DayCount::Actual365);
    assert_eq!(rate, Err(CasifinError::InvalidRate(Decimal::new(-5, 2))));
}

#[test]
fn test_periodic_rate() {
    let rate = Rate::new(Decimal::new(12, 2), Compounding::Discrete(12), DayCount::Actual365).unwrap();
    let periodic = rate.periodic_rate(12).unwrap();
    assert_eq!(periodic, Decimal::new(1, 2));
}

#[test]
fn rate_test_effective_annual_rate() {
    let rate = Rate::new(Decimal::new(12, 2), Compounding::Discrete(12), DayCount::Actual365).unwrap();
    let effective = rate.effective_annual_rate().unwrap();
    assert!(effective > Decimal::new(12, 2));
}

#[test]
fn test_day_count_denominator() {
    assert_eq!(DayCount::Actual365.denominator(), 365);
    assert_eq!(DayCount::Actual360.denominator(), 360);
}

#[test]
fn day_count_thirty_conventions_use_360() {
    assert_eq!(DayCount::Thirty360.denominator(), 360);
    assert_eq!(DayCount::ThirtyE360.denominator(), 360);
}

#[test]
fn day_count_year_fraction() {
    assert_eq!(DayCount::Actual360.year_fraction(0, 180), Decimal::new(5, 1));
    assert_eq!(DayCount::Actual365.year_fraction(10, 375), Decimal::one());
}

#[test]
fn rate_zero_frequency_rejected() {
    let rate = Rate::new(Decimal::new(5, 2), Compounding::Discrete(0), DayCount::Actual365);
    assert_eq!(rate, Err(CasifinError::InvalidCompounding));
}

#[test]
fn rate_compounding_period_rate() {
    let monthly = Rate::new(Decimal::new(12, 2), Compounding::monthly(), DayCount::Actual365).unwrap();
    assert_eq!(monthly.compounding_period_rate().unwrap(), Decimal::new(1, 2));
    let continuous = Rate::new(Decimal::new(7, 2), Compounding::Continuous, DayCount::Actual365).unwrap();
    assert_eq!(continuous.compounding_period_rate().unwrap(), Decimal::new(7, 2));
}

#[test]
fn rate_with_convention_keeps_the_rate() {
    let rate = Rate::new(Decimal::new(6, 2), Compounding::quarterly(), DayCount::Actual365).unwrap();
    let other = rate.with_convention(DayCount::Actual360);
    assert_eq!(other.convention, DayCount::Actual360);
    assert_eq!(other.annual_rate, Decimal::new(6, 2));
    assert_eq!(other.compounding, Compounding::Discrete(4));
}

#[test]
fn compounding_named_frequencies() {
    assert_eq!(Compounding::monthly(), Compounding::Discrete(12));
    assert_eq!(Compounding::quarterly(), Compounding::Discrete(4));
    assert_eq!(Compounding::semi_annual(), Compounding::Discrete(2));
    assert_eq!(Compounding::annual(), Compounding::Discrete(1));
    assert_eq!(Compounding::daily(), Compounding::Discrete(365));
    assert_eq!(Compounding::default(), Compounding::Discrete(12));
}

#[test]
fn money_add_commutes_and_sub_undoes_add() {
    let a = Money::from_cents(12345);
    let b = Money::from(-77);
    assert_eq!(a.checked_add(b), b.checked_add(a));
    assert_eq!(a.checked_add(b).unwrap().checked_sub(b), Some(a));
}

#[test]
fn money_sum_and_rounding() {
    let amounts = [Money::from(1), Money::from_cents(250), Money::from(-3)];
    assert_eq!(Money::sum(&amounts), Money::from_cents(50));
    assert_eq!(Money::new(Decimal::new(12345, 3)).round_to_cents(), Money::from_cents(1234));
    assert_eq!(Money::new(Decimal::new(12355, 3)).round_to_cents(), Money::from_cents(1236));
}

#[test]
fn money_signs_and_abs() {
    assert!(Money::from(-5).is_negative());
    assert!(!Money::zero().is_positive());
    assert!(Money::from(5).is_positive());
    assert!(Money::zero().is_zero());
    assert_eq!(Money::from(-5).abs(), Money::from(5));
    assert_eq!(Money::from(5).neg(), Money::from(-5));
}

#[test]
fn config_builder_defaults_unset_fields() {
    let config = Config::builder().guess(Decimal::new(2, 1)).build();
    assert_eq!(config.guess, Decimal::new(2, 1));
    assert_eq!(config.eps, Decimal::new(1, 12));
    assert_eq!(config.max_iterations, 1000);
}

struct TwoFlows;

impl StreamTrait for TwoFlows {
    fn len(&self) -> usize {
        2
    }

    fn cash_flow(&self, _index: usize) -> Option<&dyn casifin::traits::Schedulable> {
        None
    }
}

struct NoFlows;

impl StreamTrait for NoFlows {
    fn len(&self) -> usize {
        0
    }

    fn cash_flow(&self, _index: usize) -> Option<&dyn casifin::traits::Schedulable> {
        None
    }
}

#[test]
fn trait_stream_is_empty_follows_len() {
    assert!(!TwoFlows.is_empty());
    assert!(NoFlows.is_empty());
}

#[test]
fn rounding_to_cents_keeps_sign_and_rounds_halves_to_even() {
    assert_eq!(Money::new(Decimal::new(-12345, 3)).round_to_cents(), Money::from_cents(-1234));
    assert_eq!(Money::new(Decimal::new(-12355, 3)).round_to_cents(), Money::from_cents(-1236));
    assert_eq!(Money::new(Decimal::new(-12346, 3)).round_to_cents(), Money::from_cents(-1235));
    assert_eq!(Money::new(Decimal::new(125, 2)).round_to_cents(), Money::new(Decimal::new(125, 2)));
}

#[test]
fn money_text_cuts_to_two_places() {
    assert_eq!(Money::new(Decimal::new(-1005, 3)).to_display_string(), "$-1.00");
    assert_eq!(Money::new(Decimal::new(123, 1)).to_display_string(), "$12.30");
    assert_eq!(Money::new(Decimal::new(5, 1)).to_display_string(), "$0.50");
    assert_eq!(Money::new(Decimal::new(-1, 3)).to_display_string(), "$-0.00");
    assert_eq!(Money::new(Decimal::new(7, 0)).to_display_string(), "$7.00");
}

use casifin::amortization::{AmortizationBuilder, AmortizationSchedule, ArmSchedule};
use casifin::decimal::Decimal;
use casifin::error::CasifinError;
use casifin::money::Money;
use casifin::rate::{Compounding, DayCount, Rate};

fn rate(num: i64, scale: u32) -> Rate {
    Rate::new(Decimal::new(num, scale), Compounding::Discrete(12), DayCount::Actual365).unwrap()
}

#[test]
fn fixed_30_year_mortgage() {
    let principal = Money::from_decimal(Decimal::new(300000, 0));
    let schedule = AmortizationBuilder::new(principal, rate(425, 4), 360).build().unwrap();
    assert_eq!(schedule.entries.len(), 360);
    let first = &schedule.entries[0];
    assert!(first.payment > Money::from_decimal(Decimal::new(1475, 0)));
    assert!(first.payment < Money::from_decimal(Decimal::new(1476, 0)));
    assert!(first.interest > Money::from_decimal(Decimal::new(1062, 0)));
    assert!(first.interest < Money::from_decimal(Decimal::new(1063, 0)));
    assert!(first.principal > Money::from_decimal(Decimal::new(413, 0)));
    assert!(first.principal < Money::from_decimal(Decimal::new(414, 0)));
    let final_balance = schedule.entries.last().unwrap().balance;
    assert!(final_balance.abs() <= Money::from_decimal(Decimal::new(1, 2)));
}

#[test]
fn payment_modifier() {
    let principal = Money::from_decimal(Decimal::new(300000, 0));
    let schedule = AmortizationBuilder::new(principal, rate(425, 4), 360)
        .with_payment_modifier(|_period, base_payment: Money| {
            base_payment.checked_add(Money::from_decimal(Decimal::new(100, 0))).unwrap()
        })
        .build()
        .unwrap();
    assert!(schedule.entries.len() < 360);
}

#[test]
fn zero_rate() {
    let principal = Money::from_decimal(Decimal::new(120000, 0));
    let schedule = AmortizationBuilder::new(principal, rate(0, 0), 360).build().unwrap();
    let first = &schedule.entries[0];
    assert_eq!(first.principal, Money::from_decimal(Decimal::new(120000, 0)).div(Decimal::from(360)));
}

#[test]
fn invalid_principal() {
    let result = AmortizationBuilder::new(Money::zero(), rate(5, 2), 360).build();
    assert!(result.is_err());
}

#[test]
fn invariant_final_balance() {
    let principal = Money::from_decimal(Decimal::new(200000, 0));
    let schedule = AmortizationBuilder::new(principal, rate(6, 2), 360).build().unwrap();
    let final_balance = schedule.entries.last().unwrap().balance;
    assert!(final_balance.abs() <= Money::from_decimal(Decimal::new(1, 2)));
    let principal_diff = schedule.total_principal.sub(principal).abs();
    assert!(principal_diff <= Money::from_decimal(Decimal::new(1, 2)));
}

#[test]
fn zero_term_is_refused() {
    let result = AmortizationBuilder::new(Money::from(1000), rate(5, 2), 0).build();
    assert_eq!(result, Err(CasifinError::InvalidPeriod(0)));
}

#[test]
fn negative_principal_is_refused() {
    let result = AmortizationBuilder::new(Money::from(-1000), rate(5, 2), 12).build();
    assert_eq!(result, Err(CasifinError::InvalidAmount(Money::from(-1000))));
}

#[test]
fn schedule_entries_add_up() {
    let principal = Money::from(12000);
    let schedule = AmortizationBuilder::new(principal, rate(6, 2), 12).build().unwrap();
    assert_eq!(schedule.entries.len(), 12);
    let eps = Money::from_decimal(Decimal::new(1, 12));
    for (i, e) in schedule.entries.iter().enumerate() {
        assert_eq!(e.period, i as u32 + 1);
        assert!(e.payment.sub(e.principal.add(e.interest)).abs() <= eps);
    }
    assert_eq!(schedule.entries[11].balance, Money::zero());
    assert!(schedule.total_principal.sub(principal).abs() <= eps);
    let identity = schedule.total_payments.sub(schedule.total_principal.add(schedule.total_interest));
    assert!(identity.abs() <= eps);
}

#[test]
fn zero_rate_pays_in_equal_parts() {
    let schedule = AmortizationBuilder::new(Money::from(1200), rate(0, 0), 12).build().unwrap();
    for e in schedule.entries.iter() {
        assert_eq!(e.payment, Money::from(100));
        assert_eq!(e.interest, Money::zero());
    }
    assert_eq!(schedule.total_interest, Money::zero());
}

#[test]
fn empty_schedule_has_zero_totals() {
    let s = AmortizationSchedule::new();
    assert!(s.entries.is_empty());
    assert_eq!(s.total_payments, Money::zero());
    assert_eq!(AmortizationSchedule::default().total_principal, Money::zero());
}

#[test]
fn arm_parameters() {
    let arm = ArmSchedule::new()
        .with_adjustment(61, rate(7, 2))
        .with_periodic_cap(Decimal::new(2, 2))
        .with_lifetime_cap(Decimal::new(5, 2))
        .with_lifetime_floor(Decimal::new(3, 2));
    assert_eq!(arm.adjustments.len(), 1);
    assert_eq!(arm.adjustments[0].0, 61);
    assert_eq!(arm.periodic_cap, Some(Decimal::new(2, 2)));
    assert_eq!(arm.lifetime_cap, Some(Decimal::new(5, 2)));
    assert_eq!(arm.lifetime_floor, Some(Decimal::new(3, 2)));
    assert!(ArmSchedule::default().adjustments.is_empty());
}

#[test]
fn totals_are_running_sums_of_entries() {
    let principal = Money::from_decimal(Decimal::new(12000, 0));
    let schedule = AmortizationBuilder::new(principal, rate(6, 2), 12).build().unwrap();
    let mut payments = Money::zero();
    let mut interest = Money::zero();
    let mut principal_sum = Money::zero();
    for e in schedule.entries.iter() {
        payments = payments.checked_add(e.payment).unwrap();
        interest = interest.checked_add(e.interest).unwrap();
        principal_sum = principal_sum.checked_add(e.principal).unwrap();
    }
    assert_eq!(payments, schedule.total_payments);
    assert_eq!(interest, schedule.total_interest);
    assert_eq!(principal_sum, schedule.total_principal);
}

#[test]
fn schedule_follows_the_recurrence() {
    let principal = Money::from_decimal(Decimal::new(12000, 0));
    let schedule = AmortizationBuilder::new(principal, rate(6, 2), 12).build().unwrap();
    let monthly = Decimal::new(6, 2).checked_div(Decimal::from(12)).unwrap();
    let n = schedule.entries.len();
    assert!(n >= 1 && n <= 12);
    let mut before = principal;
    for (i, e) in schedule.entries.iter().enumerate() {
        assert_eq!(e.period as usize, i + 1);
        assert_eq!(e.interest.inner(), before.inner().checked_mul(monthly).unwrap());
        if i + 1 < n {
            assert!(e.balance > Money::zero());
            assert_eq!(e.principal, e.payment.checked_sub(e.interest).unwrap());
            assert_eq!(e.balance, before.checked_sub(e.principal).unwrap());
        } else {
            assert_eq!(e.balance, Money::zero());
            assert_eq!(e.principal, before);
        }
        before = e.balance;
    }
}

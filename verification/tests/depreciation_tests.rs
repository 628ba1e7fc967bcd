use casifin::decimal::Decimal;
use casifin::depreciation::{DepreciationMethod, DoubleDecliningBalance, StraightLine};
use casifin::error::CasifinError;
use casifin::money::Money;

#[test]
fn sl_5_year() {
    let cost = Money::from(10000);
    let salvage = Money::from(2000);
    let sl = StraightLine;
    let annual = sl.depreciate(cost, salvage, 5, 1).unwrap();
    assert_eq!(annual, Money::from(1600));
    let schedule = sl.schedule(cost, salvage, 5).unwrap();
    assert_eq!(schedule.len(), 5);
    let total = Money::sum(&schedule);
    assert_eq!(total, cost.sub(salvage));
}

#[test]
fn ddb_switch() {
    let cost = Money::from(10000);
    let salvage = Money::from(1000);
    let ddb = DoubleDecliningBalance;
    let schedule = ddb.schedule(cost, salvage, 5).unwrap();
    assert_eq!(schedule[0], Money::from(4000));
    let mut switched = false;
    for period in 1..=5 {
        let ddb_only = {
            let bv = DoubleDecliningBalance::book_value_at_period(cost, salvage, 5, period).unwrap();
            bv.mul(Decimal::from(2)).div(Decimal::from(5))
        };
        let sl_equiv = cost.sub(salvage).div(Decimal::from(5));
        if ddb_only < sl_equiv {
            switched = true;
        }
    }
    assert!(switched, "DDB should switch to straight-line");
}

#[test]
fn ddb_total() {
    let cost = Money::from(10000);
    let salvage = Money::from(1000);
    let ddb = DoubleDecliningBalance;
    let schedule = ddb.schedule(cost, salvage, 5).unwrap();
    assert_eq!(schedule.len(), 5);
    let total = Money::sum(&schedule);
    let diff = total.sub(cost.sub(salvage)).abs();
    assert!(diff <= Money::from(1));
}

#[test]
fn invalid_period() {
    let cost = Money::from(1000);
    let sl = StraightLine;
    assert!(sl.depreciate(cost, Money::zero(), 5, 10).is_err());
    assert!(sl.depreciate(cost, Money::zero(), 0, 1).is_err());
}

#[test]
fn test_depreciation_total_equals_base() {
    let cost = Money::from(10_000);
    let salvage = Money::from(1_000);
    let life = 5u32;
    let sl = StraightLine;
    let schedule = sl.schedule(cost, salvage, life).unwrap();
    let total = Money::sum(&schedule);
    assert_eq!(total, cost.sub(salvage));
    let ddb = DoubleDecliningBalance;
    let schedule = ddb.schedule(cost, salvage, life).unwrap();
    let total = Money::sum(&schedule);
    let diff = total.sub(cost.sub(salvage)).abs();
    assert!(diff <= Money::from(10));
}

#[test]
fn depreciation_errors() {
    let sl = StraightLine;
    assert_eq!(
        sl.depreciate(Money::from(100), Money::from(200), 5, 1),
        Err(CasifinError::InvalidInput { reason: "cost must be >= salvage".to_string() })
    );
    assert_eq!(sl.depreciate(Money::from(100), Money::zero(), 0, 1), Err(CasifinError::InvalidPeriod(0)));
    assert_eq!(sl.depreciate(Money::from(100), Money::zero(), 5, 0), Err(CasifinError::InvalidPeriod(0)));
    assert_eq!(sl.depreciate(Money::from(100), Money::zero(), 5, 6), Err(CasifinError::InvalidPeriod(6)));
    assert_eq!(sl.schedule(Money::from(100), Money::zero(), 0), Err(CasifinError::InvalidPeriod(0)));
}

#[test]
fn straight_line_schedule_is_constant() {
    let schedule = StraightLine.schedule(Money::from(900), Money::zero(), 3).unwrap();
    assert_eq!(schedule, vec![Money::from(300), Money::from(300), Money::from(300)]);
}

#[test]
fn ddb_book_values() {
    let cost = Money::from(10000);
    let salvage = Money::from(1000);
    assert_eq!(DoubleDecliningBalance::book_value_at_period(cost, salvage, 5, 1).unwrap(), cost);
    assert_eq!(DoubleDecliningBalance::book_value_at_period(cost, salvage, 5, 2).unwrap(), Money::from(6000));
    assert_eq!(DoubleDecliningBalance::book_value_at_period(cost, salvage, 5, 3).unwrap(), Money::from(3600));
}

#[test]
fn ddb_switch_carries_into_book_value() {
    let cost = Money::from(10000);
    let salvage = Money::zero();
    let ddb = DoubleDecliningBalance;
    assert_eq!(ddb.depreciate(cost, salvage, 5, 4).unwrap(), Money::from(1080));
    assert_eq!(ddb.depreciate(cost, salvage, 5, 5).unwrap(), Money::from(1080));
    assert_eq!(DoubleDecliningBalance::book_value_at_period(cost, salvage, 5, 5).unwrap(), Money::from(1080));
    let schedule = ddb.schedule(cost, salvage, 5).unwrap();
    assert_eq!(
        schedule,
        vec![Money::from(4000), Money::from(2400), Money::from(1440), Money::from(1080), Money::from(1080)]
    );
    assert_eq!(Money::sum(&schedule), cost);
}

#[test]
fn ddb_amounts_are_non_negative_and_stay_within_the_base() {
    let cost = Money::from(10000);
    let salvage = Money::from(1000);
    let schedule = DoubleDecliningBalance.schedule(cost, salvage, 5).unwrap();
    let base = cost.sub(salvage);
    let mut running = Money::zero();
    for d in schedule.iter() {
        assert!(*d >= Money::zero());
        running = running.checked_add(*d).unwrap();
        assert!(running <= base);
    }
}

use casifin::cashflow::{CashFlow, CashFlowStream};
use casifin::config::Config;
use casifin::decimal::Decimal;
use casifin::money::Money;
use casifin::rate::{Compounding, DayCount, PaymentDue, Rate};
use casifin::sdk::Casifin;

fn to_f64(d: Decimal) -> f64 {
    d.mantissa() as f64 / 10f64.powi(d.scale() as i32)
}

fn uneven_flows() -> CashFlowStream {
    CashFlowStream::new(vec![
        CashFlow::new(Money::from_decimal(Decimal::new(-1000, 0))),
        CashFlow::new(Money::from_decimal(Decimal::new(300, 0))),
        CashFlow::new(Money::from_decimal(Decimal::new(400, 0))),
        CashFlow::new(Money::from_decimal(Decimal::new(400, 0))),
        CashFlow::new(Money::from_decimal(Decimal::new(300, 0))),
    ])
}

#[test]
fn test_casifin_default_config() {
    let casifin = Casifin::with_defaults();
    assert_eq!(casifin.config().max_iterations, 1000);
}

#[test]
fn test_casifin_mortgage() {
    let casifin = Casifin::with_defaults();
    let principal = Money::from(200000);
    let rate = Rate::new(Decimal::new(6, 2), Compounding::Discrete(12), DayCount::Actual365)
        .unwrap()
        .with_convention(DayCount::Actual365);
    let schedule = casifin.mortgage(principal, rate, 360).build().unwrap();
    assert_eq!(schedule.entries.len(), 360);
}

#[test]
fn test_casifin_npv() {
    let casifin = Casifin::with_defaults();
    let flows = CashFlowStream::new(vec![
        CashFlow::new(Money::from(-1000)),
        CashFlow::new(Money::from(500)),
        CashFlow::new(Money::from(500)),
        CashFlow::new(Money::from(500)),
    ]);
    let rate = Decimal::new(10, 2);
    let npv_result = casifin.npv(rate, &flows).unwrap();
    assert!(npv_result > Money::from_decimal(Decimal::new(200, 0)));
}

#[test]
fn test_casifin_irr() {
    let casifin = Casifin::with_defaults();
    let flows = CashFlowStream::new(vec![
        CashFlow::new(Money::from(-1000)),
        CashFlow::new(Money::from(500)),
        CashFlow::new(Money::from(500)),
        CashFlow::new(Money::from(500)),
    ]);
    let irr_result = casifin.irr(&flows);
    assert!(irr_result.is_ok());
}

#[test]
fn test_mortgage_vs_excel_reference() {
    let casifin = Casifin::with_default_config();
    let principal = Money::from(200_000);
    let rate = Rate::new(Decimal::new(6, 2), Compounding::monthly(), DayCount::Actual365).unwrap();
    let schedule = casifin.mortgage(principal, rate, 360).build().unwrap();
    let monthly_payment = schedule.entries[0].payment;
    assert!(monthly_payment > Money::from(1199));
    assert!(monthly_payment < Money::from(1200));
    assert_eq!(schedule.entries.len(), 360);
    let final_balance = schedule.entries.last().unwrap().balance;
    assert!(final_balance.abs() <= Money::from(1));
    let principal_diff = schedule.total_principal.sub(principal).abs();
    assert!(principal_diff <= Money::from(1));
}

#[test]
fn test_npv_irr_pipeline() {
    let casifin = Casifin::with_default_config();
    let amounts = vec![
        Money::from(-10_000),
        Money::from(3_000),
        Money::from(3_000),
        Money::from(3_000),
        Money::from(3_000),
        Money::from(3_000),
    ];
    let flows = CashFlowStream::from_vec(amounts.clone());
    let npv = casifin.npv(Decimal::new(10, 2), &flows).unwrap();
    assert!(npv > Money::zero(), "NPV should be positive for this investment");
    let irr = casifin.irr(&flows).unwrap();
    assert!(irr > Decimal::new(10, 2), "IRR should exceed 10% for this investment");
    let npv_zero = casifin.npv(Decimal::zero(), &flows).unwrap();
    let sum = Money::sum(&amounts);
    assert_eq!(npv_zero, sum);
}

#[test]
fn diff_pv_annuity() {
    let rate = Rate::new(Decimal::new(5, 2), Compounding::Discrete(1), DayCount::Actual365).unwrap();
    let result = Casifin::with_defaults()
        .pv(rate, 5, Money::from_decimal(Decimal::new(1000, 0)), Money::zero(), PaymentDue::End)
        .unwrap();
    assert!((to_f64(result.inner()) - 4329.476670630819).abs() <= 1e-6);
}

#[test]
fn diff_fv_annuity() {
    let rate = Rate::new(Decimal::new(5, 2), Compounding::Discrete(1), DayCount::Actual365).unwrap();
    let result = Casifin::with_defaults()
        .fv(rate, 5, Money::from_decimal(Decimal::new(1000, 0)), Money::zero(), PaymentDue::End)
        .unwrap();
    assert!((to_f64(result.inner()) - 5525.631250).abs() <= 1e-9);
}

#[test]
fn diff_pmt_mortgage() {
    let rate = Rate::new(Decimal::new(425, 4), Compounding::Discrete(12), DayCount::Actual365).unwrap();
    let result = Casifin::with_defaults()
        .pmt(rate, 360, Money::from_decimal(Decimal::new(300000, 0)), Money::zero(), PaymentDue::End)
        .unwrap();
    assert!((to_f64(result.inner().abs()) - 1475.8196732384508).abs() <= 1e-9);
}

#[test]
fn diff_npv_uneven_flows() {
    let result = Casifin::with_defaults().npv(Decimal::new(8, 2), &uneven_flows()).unwrap();
    assert!((to_f64(result.inner()) - 158.755158145495).abs() <= 1e-6);
}

#[test]
fn diff_irr_uneven_flows() {
    let result = Casifin::new(Config::default()).irr(&uneven_flows()).unwrap();
    assert!((to_f64(result) - 0.14895028127375542).abs() <= 1e-6);
}

#[test]
fn facade_passes_settings_through() {
    let config = Config::default().with_max_iterations(7);
    let casifin = Casifin::new(config);
    assert_eq!(casifin.config().max_iterations, 7);
    assert_eq!(Casifin::default().config().max_iterations, 1000);
    let zero = Rate::new(Decimal::zero(), Compounding::monthly(), DayCount::Actual365).unwrap();
    let n = casifin.nper(zero, Money::from(-100), Money::from(1000), Money::zero(), PaymentDue::End).unwrap();
    assert_eq!(n, Decimal::from(10));
}

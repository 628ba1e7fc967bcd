use casifin::date::Date;
use casifin::decimal::Decimal;
use casifin::error::CasifinError;
use casifin::money::Money;
use casifin::rate::{Compounding, DayCount, Rate};
use casifin::ratios::liquidity::{cash_ratio, current_ratio, defensive_interval, quick_ratio};
use casifin::ratios::profitability::{
    basic_eps, diluted_eps, gross_profit_margin, net_profit_margin, operating_profit_margin, return_on_assets,
    return_on_equity,
};
use casifin::ratios::rates::{
    continuous_to_nominal, effective_annual_rate, equivalent_rate, holding_period_to_effective,
    nominal_to_continuous, stated_from_effective,
};
use casifin::ratios::return_metrics::{
    arithmetic_mean_return, geometric_mean_return, holding_period_return, money_weighted_return,
    roys_safety_first_ratio, sharpe_ratio, sortino_ratio, time_weighted_rate_of_return,
};
use casifin::ratios::solvency::{debt_ratio, debt_to_equity, financial_leverage, interest_coverage};
use casifin::ratios::statistics::{
    coefficient_of_variance, coefficient_of_variation, harmonic_mean, sampling_error, standard_error,
    weighted_mean,
};
use casifin::ratios::yields::{bank_discount_yield, bond_equivalent_yield, holding_period_yield, money_market_yield};

fn uneven() -> Vec<Money> {
    vec![
        Money::from_decimal(Decimal::new(-1000, 0)),
        Money::from_decimal(Decimal::new(300, 0)),
        Money::from_decimal(Decimal::new(400, 0)),
        Money::from_decimal(Decimal::new(400, 0)),
        Money::from_decimal(Decimal::new(300, 0)),
    ]
}

#[test]
fn test_current_ratio() {
    let ratio = current_ratio(Money::from(500000), Money::from(250000)).unwrap();
    assert_eq!(ratio, Decimal::from(2));
}

#[test]
fn test_debt_ratio() {
    let ratio = debt_ratio(Money::from(100000), Money::from(500000)).unwrap();
    assert_eq!(ratio, Decimal::new(2, 1));
}

#[test]
fn test_gross_profit_margin() {
    let margin = gross_profit_margin(Money::from(300000), Money::from(1000000)).unwrap();
    assert_eq!(margin, Decimal::new(3, 1));
}

#[test]
fn test_geometric_mean_return() {
    let values = vec![Decimal::new(1, 1), Decimal::new(5, 2), Decimal::new(15, 2)];
    let gm = geometric_mean_return(&values).unwrap();
    assert!(gm > Decimal::new(9, 2));
    assert!(gm < Decimal::new(11, 2));
}

#[test]
fn test_sharpe_ratio() {
    let sharpe = sharpe_ratio(Decimal::new(12, 2), Decimal::new(3, 2), Decimal::new(15, 2)).unwrap();
    assert_eq!(sharpe, Decimal::new(6, 1));
}

#[test]
fn lib_test_effective_annual_rate() {
    let ear = effective_annual_rate(Decimal::new(12, 2), Compounding::monthly()).unwrap();
    assert!(ear > Decimal::new(12, 2));
    assert!(ear < Decimal::new(13, 2));
}

#[test]
fn test_harmonic_mean() {
    let values = vec![Decimal::from(2), Decimal::from(4), Decimal::from(8)];
    let hm = harmonic_mean(&values).unwrap();
    assert!(hm > Decimal::from(3));
    assert!(hm < Decimal::from(4));
}

#[test]
fn current_ratio_known_value() {
    let ratio = current_ratio(Money::from(500_000), Money::from(250_000)).unwrap();
    assert_eq!(ratio, Decimal::from(2));
}

#[test]
fn quick_ratio_known_value() {
    let ratio =
        quick_ratio(Money::from(50_000), Money::from(30_000), Money::from(20_000), Money::from(50_000)).unwrap();
    assert_eq!(ratio, Decimal::new(2, 0));
}

#[test]
fn cash_ratio_known_value() {
    let ratio = cash_ratio(Money::from(100_000), Money::from(200_000)).unwrap();
    assert_eq!(ratio, Decimal::new(5, 1));
}

#[test]
fn defensive_interval_known_value() {
    let interval =
        defensive_interval(Money::from(50_000), Money::from(30_000), Money::from(20_000), Money::from(10_000))
            .unwrap();
    assert_eq!(interval, Decimal::from(10));
}

#[test]
fn current_ratio_zero_liabilities_errors() {
    let result = current_ratio(Money::from(100), Money::zero());
    assert!(matches!(result, Err(CasifinError::DivisionByZero { .. })));
}

#[test]
fn gross_profit_margin_known_value() {
    let margin = gross_profit_margin(Money::from(300_000), Money::from(1_000_000)).unwrap();
    assert_eq!(margin, Decimal::new(3, 1));
}

#[test]
fn operating_profit_margin_known_value() {
    let margin = operating_profit_margin(Money::from(200_000), Money::from(1_000_000)).unwrap();
    assert_eq!(margin, Decimal::new(2, 1));
}

#[test]
fn net_profit_margin_known_value() {
    let margin = net_profit_margin(Money::from(100_000), Money::from(1_000_000)).unwrap();
    assert_eq!(margin, Decimal::new(1, 1));
}

#[test]
fn return_on_assets_known_value() {
    let roa = return_on_assets(Money::from(100_000), Money::from(1_000_000)).unwrap();
    assert_eq!(roa, Decimal::new(1, 1));
}

#[test]
fn return_on_equity_known_value() {
    let roe = return_on_equity(Money::from(100_000), Money::from(500_000)).unwrap();
    assert_eq!(roe, Decimal::new(2, 1));
}

#[test]
fn basic_eps_known_value() {
    let eps = basic_eps(Money::from(1_000_000), Money::from(100_000), Decimal::from(100_000)).unwrap();
    assert_eq!(eps, Decimal::new(9, 0));
}

#[test]
fn diluted_eps_known_value() {
    let eps = diluted_eps(Money::from(1_000_000), Money::from(100_000), Decimal::from(100_000), Decimal::from(25_000))
        .unwrap();
    assert_eq!(eps, Decimal::new(72, 1));
}

#[test]
fn effective_annual_rate_known_value() {
    let ear = effective_annual_rate(Decimal::new(12, 2), Compounding::Discrete(12)).unwrap();
    assert!(ear > Decimal::new(12, 2));
    assert!(ear < Decimal::new(13, 2));
}

#[test]
fn stated_from_effective_round_trip() {
    let stated = Decimal::new(12, 2);
    let ear = effective_annual_rate(stated, Compounding::Discrete(12)).unwrap();
    let recovered = stated_from_effective(ear, Compounding::Discrete(12)).unwrap();
    assert!(recovered.checked_sub(stated).unwrap().abs() < Decimal::new(1, 10));
}

#[test]
fn continuous_to_nominal_known_value() {
    let nominal = continuous_to_nominal(Decimal::new(5, 2)).unwrap();
    assert!(nominal > Decimal::new(4, 2));
    assert!(nominal < Decimal::new(6, 2));
}

#[test]
fn nominal_to_continuous_known_value() {
    let continuous = nominal_to_continuous(Decimal::new(5, 2)).unwrap();
    assert!(continuous > Decimal::new(5, 2));
    assert!(continuous < Decimal::new(6, 2));
}

#[test]
fn equivalent_rate_known_value() {
    let source = Rate::new(Decimal::new(12, 2), Compounding::Discrete(12), DayCount::Actual365).unwrap();
    let target = equivalent_rate(source, Compounding::Discrete(2)).unwrap();
    assert_eq!(target.compounding, Compounding::Discrete(2));
    assert!(target.annual_rate > Decimal::new(12, 2));
}

#[test]
fn holding_period_return_known_value() {
    let hpr = holding_period_return(Money::from(100), Money::from(115), Money::from(5)).unwrap();
    assert_eq!(hpr, Decimal::new(2, 1));
}

#[test]
fn arithmetic_mean_return_known_value() {
    let values = vec![Decimal::new(10, 2), Decimal::new(20, 2), Decimal::new(30, 2)];
    let mean = arithmetic_mean_return(&values).unwrap();
    assert_eq!(mean, Decimal::new(2, 1));
}

#[test]
fn geometric_mean_return_known_value() {
    let values = vec![Decimal::new(10, 2), Decimal::new(20, 2), Decimal::new(30, 2)];
    let gm = geometric_mean_return(&values).unwrap();
    assert!(gm > Decimal::new(19, 2));
    assert!(gm < Decimal::new(20, 1));
}

#[test]
fn time_weighted_rate_of_return_known_value() {
    let values = vec![Decimal::new(10, 2), Decimal::new(-5, 2)];
    let twrr = time_weighted_rate_of_return(&values).unwrap();
    assert_eq!(twrr, Decimal::new(45, 3));
}

#[test]
fn money_weighted_return_known_value() {
    let flows = uneven();
    let mwrr = money_weighted_return(&flows, None).unwrap();
    assert!(mwrr > Decimal::new(14, 2));
    assert!(mwrr < Decimal::new(15, 2));
}

#[test]
fn money_weighted_return_dated_known_value() {
    let base = Date::from_ymd_opt(2024, 1, 1).unwrap();
    let dates: Vec<Date> = (0..5u32).map(|i| base.checked_add_days(i * 365).unwrap()).collect();
    let flows = uneven();
    let mwrr = money_weighted_return(&flows, Some(&dates)).unwrap();
    assert!(mwrr > Decimal::new(14, 2));
    assert!(mwrr < Decimal::new(15, 2));
}

#[test]
fn sharpe_ratio_known_value() {
    let sharpe = sharpe_ratio(Decimal::new(12, 2), Decimal::new(3, 2), Decimal::new(15, 2)).unwrap();
    assert_eq!(sharpe, Decimal::new(6, 1));
}

#[test]
fn roys_safety_first_ratio_known_value() {
    let sf = roys_safety_first_ratio(Decimal::new(12, 2), Decimal::new(5, 2), Decimal::new(15, 2)).unwrap();
    let expected = Decimal::new(7, 2).checked_div(Decimal::new(15, 2)).unwrap();
    assert_eq!(sf, expected);
}

#[test]
fn sortino_ratio_known_value() {
    let sortino = sortino_ratio(Decimal::new(12, 2), Decimal::new(5, 2), Decimal::new(10, 2)).unwrap();
    assert_eq!(sortino, Decimal::new(7, 1));
}

#[test]
fn debt_ratio_known_value() {
    let ratio = debt_ratio(Money::from(200_000), Money::from(500_000)).unwrap();
    assert_eq!(ratio, Decimal::new(4, 1));
}

#[test]
fn debt_to_equity_known_value() {
    let ratio = debt_to_equity(Money::from(300_000), Money::from(200_000)).unwrap();
    assert_eq!(ratio, Decimal::new(15, 1));
}

#[test]
fn financial_leverage_known_value() {
    let leverage = financial_leverage(Money::from(500_000), Money::from(200_000)).unwrap();
    assert_eq!(leverage, Decimal::new(25, 1));
}

#[test]
fn interest_coverage_known_value() {
    let coverage = interest_coverage(Money::from(200_000), Money::from(50_000)).unwrap();
    assert_eq!(coverage, Decimal::from(4));
}

#[test]
fn coefficient_of_variation_known_value() {
    let cv = coefficient_of_variation(Decimal::new(10, 0), Decimal::new(2, 0)).unwrap();
    assert_eq!(cv, Decimal::new(2, 1));
}

#[test]
fn weighted_mean_known_value() {
    let values = vec![Decimal::new(10, 0), Decimal::new(20, 0), Decimal::new(30, 0)];
    let weights = vec![Decimal::new(1, 0), Decimal::new(2, 0), Decimal::new(3, 0)];
    let wm = weighted_mean(&values, &weights).unwrap();
    let expected = Decimal::new(140, 0).checked_div(Decimal::new(6, 0)).unwrap();
    assert_eq!(wm, expected);
}

#[test]
fn harmonic_mean_known_value() {
    let values = vec![Decimal::from(2), Decimal::from(4), Decimal::from(8)];
    let hm = harmonic_mean(&values).unwrap();
    let expected = Decimal::from(3).checked_div(Decimal::new(875, 3)).unwrap();
    assert_eq!(hm, expected);
}

#[test]
fn sampling_error_known_value() {
    let se = sampling_error(Decimal::from(10), 100).unwrap();
    assert_eq!(se, Decimal::from(1));
}

#[test]
fn standard_error_known_value() {
    let se = standard_error(Decimal::from(10), 100).unwrap();
    assert_eq!(se, Decimal::from(1));
}

#[test]
fn bank_discount_yield_known_value() {
    let bdy = bank_discount_yield(Money::from(1_000), Money::from(990), 90).unwrap();
    assert_eq!(bdy, Decimal::new(4, 2));
}

#[test]
fn money_market_yield_known_value() {
    let mmy = money_market_yield(Money::from(1_000), Money::from(990), 90).unwrap();
    let expected = Decimal::from(10)
        .checked_div(Decimal::from(990))
        .unwrap()
        .checked_mul(Decimal::from(4))
        .unwrap();
    assert_eq!(mmy, expected);
}

#[test]
fn bond_equivalent_yield_known_value() {
    let bey = bond_equivalent_yield(Decimal::new(3, 2)).unwrap();
    assert_eq!(bey, Decimal::new(6, 2));
}

#[test]
fn holding_period_yield_known_value() {
    let hpy = holding_period_yield(Money::from(1_000), Money::from(1_050), Money::from(40)).unwrap();
    assert_eq!(hpy, Decimal::new(9, 2));
}

#[test]
fn test_ratio_edge_cases() {
    let result = current_ratio(Money::from(100), Money::zero());
    assert!(result.is_err());
    let result = current_ratio(Money::from(500), Money::from(250)).unwrap();
    assert_eq!(result, Decimal::from(2));
}

#[test]
fn ratio_errors() {
    assert!(matches!(quick_ratio(Money::from(1), Money::from(1), Money::from(1), Money::zero()), Err(CasifinError::DivisionByZero { .. })));
    assert!(matches!(basic_eps(Money::from(1), Money::zero(), Decimal::zero()), Err(CasifinError::DivisionByZero { .. })));
    assert!(matches!(diluted_eps(Money::from(1), Money::zero(), Decimal::from(5), Decimal::from(-5)), Err(CasifinError::DivisionByZero { .. })));
    assert!(matches!(bank_discount_yield(Money::from(1000), Money::from(990), 0), Err(CasifinError::DivisionByZero { .. })));
    assert!(matches!(sharpe_ratio(Decimal::one(), Decimal::zero(), Decimal::zero()), Err(CasifinError::DivisionByZero { .. })));
    assert_eq!(arithmetic_mean_return(&[]), Err(CasifinError::InsufficientCashFlows));
    assert_eq!(time_weighted_rate_of_return(&[]), Err(CasifinError::InsufficientCashFlows));
    assert_eq!(harmonic_mean(&[Decimal::from(2), Decimal::zero()]), Err(CasifinError::DivisionByZero { operation: "harmonic_mean" }));
    assert_eq!(
        weighted_mean(&[Decimal::one()], &[]),
        Err(CasifinError::InvalidInput { reason: "values and weights must have the same length".to_string() })
    );
    assert!(matches!(sampling_error(Decimal::one(), 0), Err(CasifinError::DivisionByZero { .. })));
    assert_eq!(
        money_weighted_return(&uneven(), Some(&[])),
        Err(CasifinError::InvalidInput { reason: "dates length must match cash_flows length".to_string() })
    );
}

#[test]
fn rate_conversion_errors_and_values() {
    assert_eq!(effective_annual_rate(Decimal::new(-1, 2), Compounding::monthly()), Err(CasifinError::InvalidRate(Decimal::new(-1, 2))));
    assert_eq!(effective_annual_rate(Decimal::new(1, 2), Compounding::Discrete(0)), Err(CasifinError::InvalidCompounding));
    assert_eq!(effective_annual_rate(Decimal::new(12, 2), Compounding::annual()).unwrap(), Decimal::new(12, 2));
    assert_eq!(stated_from_effective(Decimal::new(1, 2), Compounding::Discrete(0)), Err(CasifinError::InvalidCompounding));
    assert_eq!(continuous_to_nominal(Decimal::new(-2, 0)), Err(CasifinError::InvalidRate(Decimal::new(-2, 0))));
    assert_eq!(nominal_to_continuous(Decimal::new(-1, 2)), Err(CasifinError::InvalidRate(Decimal::new(-1, 2))));
    assert!(matches!(holding_period_to_effective(Decimal::new(21, 2), 0), Err(CasifinError::DivisionByZero { .. })));
    let per_period = holding_period_to_effective(Decimal::new(21, 2), 2).unwrap();
    assert!(per_period.checked_sub(Decimal::new(1, 1)).unwrap().abs() < Decimal::new(1, 10));
    assert_eq!(coefficient_of_variance(Decimal::new(10, 0), Decimal::new(2, 0)).unwrap(), Decimal::new(2, 1));
    let same = Rate::new(Decimal::new(6, 2), Compounding::annual(), DayCount::Actual360).unwrap();
    let back = equivalent_rate(same, Compounding::annual()).unwrap();
    assert_eq!(back.convention, DayCount::Actual360);
}

#[test]
fn sampling_error_square_root_settles_for_small_counts() {
    for n in 1..=300_000u32 {
        assert!(sampling_error(Decimal::one(), n).is_ok());
    }
    assert!(sampling_error(Decimal::one(), u32::MAX).is_ok());
}

#[test]
fn geometric_mean_is_root_of_time_weighted_growth() {
    let returns = [Decimal::new(1, 1), Decimal::new(2, 1)];
    let twrr = time_weighted_rate_of_return(&returns).unwrap();
    let growth = twrr.checked_add(Decimal::one()).unwrap();
    let half = Decimal::one().checked_div(Decimal::from(2)).unwrap();
    let root = growth.checked_powd(half).unwrap();
    assert_eq!(geometric_mean_return(&returns).unwrap(), root.checked_sub(Decimal::one()).unwrap());
}

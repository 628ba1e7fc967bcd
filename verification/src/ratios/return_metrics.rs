//! Return measures: holding period, arithmetic, geometric, time- and
//! money-weighted rates of return, and risk-adjusted ratios.

use vstd::prelude::*;

use crate::cashflow::{irr, irr_model, xirr, xirr_model, CashFlow, CashFlowModel, CashFlowStream};
use crate::config::{is_default_config, Config};
use crate::date::Date;
use crate::decimal::{
    decimal_add, decimal_div, decimal_mul, decimal_powd, decimal_sub, int_model, one_model, zero_model, Decimal,
    DecimalModel,
};
use crate::error::{
    div_zero_model, fold_steps, invalid_input_model, lemma_fold_error_stays, ok_or_div_zero, ok_or_overflow,
    or_div_zero, or_overflow, result_view, then, CasifinError, ErrorModel,
};
use crate::money::Money;
use crate::ratios::rates::less_one;

verus! {

/// The values' views, in order.
pub open spec fn decimals_view(values: &[Decimal]) -> Seq<DecimalModel> {
    values@.map_values(|d: Decimal| d@)
}

/// `(a - b) / d`, refused as a division by zero named `operation` when `d`
/// is zero.
pub open spec fn excess_ratio_model(
    a: DecimalModel,
    b: DecimalModel,
    d: DecimalModel,
    detail: &str,
    operation: &str,
) -> Result<DecimalModel, ErrorModel> {
    if d.units() == 0 {
        Err(div_zero_model(operation))
    } else {
        then(
            or_overflow(decimal_sub(a, b), detail),
            |excess: DecimalModel| or_div_zero(decimal_div(excess, d), operation),
        )
    }
}

fn excess_ratio(a: Decimal, b: Decimal, d: Decimal, detail: &str, operation: &'static str) -> (res: Result<
    Decimal,
    CasifinError,
>)
    ensures
        result_view(res) == excess_ratio_model(a@, b@, d@, detail, operation),
{
    if d.is_zero() {
        return Err(CasifinError::div_zero(operation));
    }
    let excess = ok_or_overflow(a.checked_sub(b), detail)?;
    ok_or_div_zero(excess.checked_div(d), operation)
}

/// What [`holding_period_return`] gives.
pub open spec fn holding_period_return_model(
    purchase_price: DecimalModel,
    sale_price: DecimalModel,
    income: DecimalModel,
) -> Result<DecimalModel, ErrorModel> {
    if purchase_price.units() == 0 {
        Err(div_zero_model("holding_period_return"))
    } else {
        then(
            or_overflow(decimal_sub(sale_price, purchase_price), "holding_period_return: gain overflow"),
            |price_gain: DecimalModel|
                then(
                    or_overflow(decimal_add(price_gain, income), "holding_period_return: gain overflow"),
                    |gain: DecimalModel| or_div_zero(decimal_div(gain, purchase_price), "holding_period_return"),
                ),
        )
    }
}

/// Holding period return: `(sale - purchase + income) / purchase`.  A zero
/// purchase price is refused.
pub fn holding_period_return(purchase_price: Money, sale_price: Money, income: Money) -> (res: Result<
    Decimal,
    CasifinError,
>)
    ensures
        result_view(res) == holding_period_return_model(purchase_price@, sale_price@, income@),
{
    if purchase_price.is_zero() {
        return Err(CasifinError::div_zero("holding_period_return"));
    }
    let price_gain = ok_or_overflow(
        sale_price.inner().checked_sub(purchase_price.inner()),
        "holding_period_return: gain overflow",
    )?;
    let gain = ok_or_overflow(price_gain.checked_add(income.inner()), "holding_period_return: gain overflow")?;
    ok_or_div_zero(gain.checked_div(purchase_price.inner()), "holding_period_return")
}

/// Step `t` of a sum: add `values[t]`.
pub open spec fn sum_step(values: Seq<DecimalModel>, detail: &str) -> spec_fn(int, DecimalModel) -> Result<
    DecimalModel,
    ErrorModel,
> {
    |t: int, total: DecimalModel| or_overflow(decimal_add(total, values[t]), detail)
}

/// Step `t` of a compounded product: multiply by `1 + values[t]`.
pub open spec fn growth_step(values: Seq<DecimalModel>, base_detail: &str, product_detail: &str) -> spec_fn(
    int,
    DecimalModel,
) -> Result<DecimalModel, ErrorModel> {
    |t: int, product: DecimalModel|
        then(
            or_overflow(decimal_add(one_model(), values[t]), base_detail),
            |base: DecimalModel| or_overflow(decimal_mul(product, base), product_detail),
        )
}

/// The sum of `values` from the left.
fn sum_of(values: &[Decimal], detail: &str) -> (res: Result<Decimal, CasifinError>)
    ensures
        result_view(res) == fold_steps(zero_model(), values@.len(), sum_step(decimals_view(values), detail)),
{
    let ghost step = sum_step(decimals_view(values), detail);
    let mut total = Decimal::zero();
    let mut t: usize = 0;
    while t < values.len()
        invariant
            0 <= t <= values.len(),
            step == sum_step(decimals_view(values), detail),
            fold_steps(zero_model(), t as nat, step) == Ok::<DecimalModel, ErrorModel>(total@),
        decreases values.len() - t,
    {
        assert(decimals_view(values)[t as int] == values@[t as int]@);
        assert(fold_steps(zero_model(), (t + 1) as nat, step) == step(t as int, total@));
        match total.checked_add(values[t]) {
            Some(x) => {
                total = x;
            },
            None => {
                proof {
                    lemma_fold_error_stays(zero_model(), (t + 1) as nat, values@.len(), step);
                }
                return Err(CasifinError::overflow(detail));
            },
        }
        t = t + 1;
    }
    Ok(total)
}

/// The product of `1 + values[t]` over all `t`, from the left.
fn growth_of(values: &[Decimal], base_detail: &str, product_detail: &str) -> (res: Result<Decimal, CasifinError>)
    ensures
        result_view(res) == fold_steps(
            one_model(),
            values@.len(),
            growth_step(decimals_view(values), base_detail, product_detail),
        ),
{
    let ghost step = growth_step(decimals_view(values), base_detail, product_detail);
    let one = Decimal::one();
    let mut product = Decimal::one();
    let mut t: usize = 0;
    while t < values.len()
        invariant
            0 <= t <= values.len(),
            one@ == one_model(),
            step == growth_step(decimals_view(values), base_detail, product_detail),
            fold_steps(one_model(), t as nat, step) == Ok::<DecimalModel, ErrorModel>(product@),
        decreases values.len() - t,
    {
        assert(decimals_view(values)[t as int] == values@[t as int]@);
        assert(fold_steps(one_model(), (t + 1) as nat, step) == step(t as int, product@));
        let next = match one.checked_add(values[t]) {
            Some(base) => match product.checked_mul(base) {
                Some(p) => Ok(p),
                None => Err(CasifinError::overflow(product_detail)),
            },
            None => Err(CasifinError::overflow(base_detail)),
        };
        match next {
            Ok(x) => {
                product = x;
            },
            Err(e) => {
                proof {
                    lemma_fold_error_stays(one_model(), (t + 1) as nat, values@.len(), step);
                }
                return Err(e);
            },
        }
        t = t + 1;
    }
    Ok(product)
}

/// What [`arithmetic_mean_return`] gives: an empty list is refused;
/// otherwise the sum of the rates divided by their number.
pub open spec fn arithmetic_mean_return_model(rates_of_return: Seq<DecimalModel>) -> Result<DecimalModel, ErrorModel> {
    if rates_of_return.len() == 0 {
        Err(ErrorModel::InsufficientCashFlows)
    } else {
        then(
            fold_steps(zero_model(), rates_of_return.len(), sum_step(rates_of_return, "arithmetic_mean_return: sum overflow")),
            |sum: DecimalModel|
                or_div_zero(decimal_div(sum, int_model(rates_of_return.len() as int)), "arithmetic_mean_return"),
        )
    }
}

/// Arithmetic mean return: `sum(R_i) / n`.
pub fn arithmetic_mean_return(rates_of_return: &[Decimal]) -> (res: Result<Decimal, CasifinError>)
    ensures
        result_view(res) == arithmetic_mean_return_model(decimals_view(rates_of_return)),
{
    if rates_of_return.len() == 0 {
        return Err(CasifinError::InsufficientCashFlows);
    }
    let sum = sum_of(rates_of_return, "arithmetic_mean_return: sum overflow")?;
    ok_or_div_zero(sum.checked_div(Decimal::from_usize(rates_of_return.len())), "arithmetic_mean_return")
}

/// What [`geometric_mean_return`] gives: an empty list is refused;
/// otherwise `(prod(1 + R_i))^(1/n) - 1`.
pub open spec fn geometric_mean_return_model(rates_of_return: Seq<DecimalModel>) -> Result<DecimalModel, ErrorModel> {
    if rates_of_return.len() == 0 {
        Err(ErrorModel::InsufficientCashFlows)
    } else {
        then(
            fold_steps(
                one_model(),
                rates_of_return.len(),
                growth_step(rates_of_return, "geometric_mean_return: base overflow", "geometric_mean_return: product overflow"),
            ),
            |product: DecimalModel|
                then(
                    or_div_zero(
                        decimal_div(one_model(), int_model(rates_of_return.len() as int)),
                        "geometric_mean_return",
                    ),
                    |exponent: DecimalModel|
                        less_one(
                            or_overflow(decimal_powd(product, exponent), "geometric_mean_return: power overflow"),
                            "geometric_mean_return: result overflow",
                        ),
                ),
        )
    }
}

/// Geometric mean return: `(prod(1 + R_i))^(1/n) - 1`.
pub fn geometric_mean_return(rates_of_return: &[Decimal]) -> (res: Result<Decimal, CasifinError>)
    ensures
        result_view(res) == geometric_mean_return_model(decimals_view(rates_of_return)),
{
    if rates_of_return.len() == 0 {
        return Err(CasifinError::InsufficientCashFlows);
    }
    let product = growth_of(rates_of_return, "geometric_mean_return: base overflow", "geometric_mean_return: product overflow")?;
    let exponent = ok_or_div_zero(
        Decimal::one().checked_div(Decimal::from_usize(rates_of_return.len())),
        "geometric_mean_return",
    )?;
    let gm = ok_or_overflow(product.checked_powd(exponent), "geometric_mean_return: power overflow")?;
    ok_or_overflow(gm.checked_sub(Decimal::one()), "geometric_mean_return: result overflow")
}

/// What [`time_weighted_rate_of_return`] gives: an empty list is
/// refused; otherwise `prod(1 + R_i) - 1`.
pub open spec fn time_weighted_model(period_returns: Seq<DecimalModel>) -> Result<DecimalModel, ErrorModel> {
    if period_returns.len() == 0 {
        Err(ErrorModel::InsufficientCashFlows)
    } else {
        less_one(
            fold_steps(
                one_model(),
                period_returns.len(),
                growth_step(
                    period_returns,
                    "time_weighted_rate_of_return: base overflow",
                    "time_weighted_rate_of_return: product overflow",
                ),
            ),
            "time_weighted_rate_of_return: result overflow",
        )
    }
}

/// Time-weighted rate of return: `prod(1 + R_i) - 1`.
pub fn time_weighted_rate_of_return(period_returns: &[Decimal]) -> (res: Result<Decimal, CasifinError>)
    ensures
        result_view(res) == time_weighted_model(decimals_view(period_returns)),
{
    if period_returns.len() == 0 {
        return Err(CasifinError::InsufficientCashFlows);
    }
    let product = growth_of(
        period_returns,
        "time_weighted_rate_of_return: base overflow",
        "time_weighted_rate_of_return: product overflow",
    )?;
    ok_or_overflow(product.checked_sub(Decimal::one()), "time_weighted_rate_of_return: result overflow")
}

/// Sharpe ratio: `(R_p - R_f) / sigma`.  A zero deviation is refused.
pub fn sharpe_ratio(portfolio_return: Decimal, risk_free_rate: Decimal, std_dev: Decimal) -> (res: Result<
    Decimal,
    CasifinError,
>)
    ensures
        result_view(res) == excess_ratio_model(
            portfolio_return@,
            risk_free_rate@,
            std_dev@,
            "sharpe_ratio: excess return overflow",
            "sharpe_ratio",
        ),
{
    excess_ratio(portfolio_return, risk_free_rate, std_dev, "sharpe_ratio: excess return overflow", "sharpe_ratio")
}

/// Roy's safety-first ratio: `(E(R) - R_L) / sigma`.  A zero deviation is refused.
pub fn roys_safety_first_ratio(expected_return: Decimal, threshold: Decimal, std_dev: Decimal) -> (res: Result<
    Decimal,
    CasifinError,
>)
    ensures
        result_view(res) == excess_ratio_model(
            expected_return@,
            threshold@,
            std_dev@,
            "roys_safety_first_ratio: excess return overflow",
            "roys_safety_first_ratio",
        ),
{
    excess_ratio(
        expected_return,
        threshold,
        std_dev,
        "roys_safety_first_ratio: excess return overflow",
        "roys_safety_first_ratio",
    )
}

/// Sortino ratio: `(R_p - target) / downside deviation`.  A zero deviation
/// is refused.
pub fn sortino_ratio(portfolio_return: Decimal, target_return: Decimal, downside_deviation: Decimal) -> (res: Result<
    Decimal,
    CasifinError,
>)
    ensures
        result_view(res) == excess_ratio_model(
            portfolio_return@,
            target_return@,
            downside_deviation@,
            "sortino_ratio: excess return overflow",
            "sortino_ratio",
        ),
{
    excess_ratio(
        portfolio_return,
        target_return,
        downside_deviation,
        "sortino_ratio: excess return overflow",
        "sortino_ratio",
    )
}


/// The growth factor `prod(1 + R_i)`, compounded from the left.
pub open spec fn growth_factor(rates_of_return: Seq<DecimalModel>) -> Result<DecimalModel, ErrorModel> {
    fold_steps(
        one_model(),
        rates_of_return.len(),
        growth_step(
            rates_of_return,
            "time_weighted_rate_of_return: base overflow",
            "time_weighted_rate_of_return: product overflow",
        ),
    )
}

proof fn lemma_growth_agrees(
    values: Seq<DecimalModel>,
    b1: &str,
    p1: &str,
    b2: &str,
    p2: &str,
    k: nat,
)
    ensures
        fold_steps(one_model(), k, growth_step(values, b1, p1)) matches Ok(v) ==> fold_steps(
            one_model(),
            k,
            growth_step(values, b2, p2),
        ) == Ok::<DecimalModel, ErrorModel>(v),
    decreases k,
{
    if k > 0 {
        lemma_growth_agrees(values, b1, p1, b2, p2, (k - 1) as nat);
    }
}

/// The geometric mean return is the `n`-th root, as `rust_decimal` takes it
/// with `powd(1/n)`, of the growth factor `1 + w` whose excess over one is
/// the time-weighted return `w`: both compound the same product of
/// `1 + R_i`, and the geometric mean then takes `powd(product, 1/n) - 1`.
pub proof fn law_geometric_mean_is_root_of_growth(rates_of_return: Seq<DecimalModel>)
    requires
        time_weighted_model(rates_of_return) is Ok,
    ensures
        growth_factor(rates_of_return) matches Ok(growth) && time_weighted_model(rates_of_return) == or_overflow(
            decimal_sub(growth, one_model()),
            "time_weighted_rate_of_return: result overflow",
        ) && geometric_mean_return_model(rates_of_return) == then(
            or_div_zero(
                decimal_div(one_model(), int_model(rates_of_return.len() as int)),
                "geometric_mean_return",
            ),
            |exponent: DecimalModel|
                less_one(
                    or_overflow(decimal_powd(growth, exponent), "geometric_mean_return: power overflow"),
                    "geometric_mean_return: result overflow",
                ),
        ),
{
    lemma_growth_agrees(
        rates_of_return,
        "time_weighted_rate_of_return: base overflow",
        "time_weighted_rate_of_return: product overflow",
        "geometric_mean_return: base overflow",
        "geometric_mean_return: product overflow",
        rates_of_return.len(),
    );
}

} // verus!

verus! {

/// The flows `amounts`, dated by `dates` when given.
pub open spec fn flows_of(amounts: Seq<DecimalModel>, dates: Option<Seq<int>>) -> Seq<CashFlowModel> {
    Seq::new(
        amounts.len(),
        |i: int|
            CashFlowModel {
                amount: amounts[i],
                date: match dates {
                    Some(d) => Some(d[i]),
                    None => None,
                },
            },
    )
}

/// What [`money_weighted_return`] returns with the solver settings
/// `config`: no flows are refused, and so are dates that do not match the
/// flows one for one; otherwise the XIRR of the dated flows, or the IRR of
/// the undated ones.
pub open spec fn money_weighted_model(
    amounts: Seq<DecimalModel>,
    dates: Option<Seq<int>>,
    config: Config,
) -> Result<DecimalModel, ErrorModel> {
    if amounts.len() == 0 {
        Err(ErrorModel::InsufficientCashFlows)
    } else {
        match dates {
            Some(d) => if d.len() != amounts.len() {
                Err(invalid_input_model("dates length must match cash_flows length"))
            } else {
                xirr_model(flows_of(amounts, dates), config)
            },
            None => irr_model(flows_of(amounts, dates), config),
        }
    }
}

/// The dates' day counts, in order.
pub open spec fn dates_view(dates: Option<&[Date]>) -> Option<Seq<int>> {
    match dates {
        Some(d) => Some(d@.map_values(|x: Date| x@)),
        None => None,
    }
}

/// Money-weighted rate of return: the internal rate of return of the flows,
/// by XIRR when dates are given and by IRR otherwise, with the default
/// solver settings.
pub fn money_weighted_return(cash_flows: &[Money], dates: Option<&[Date]>) -> (res: Result<Decimal, CasifinError>)
    requires
        cash_flows@.len() <= i64::MAX,
    ensures
        exists|config: Config|
            is_default_config(config) && result_view(res) == #[trigger] money_weighted_model(
                crate::money::money_view(cash_flows),
                dates_view(dates),
                config,
            ),
{
    let config = Config::default();
    let ghost amounts = crate::money::money_view(cash_flows);
    if cash_flows.len() == 0 {
        assert(result_view(Err::<Decimal, CasifinError>(CasifinError::InsufficientCashFlows))
            == money_weighted_model(amounts, dates_view(dates), config));
        return Err(CasifinError::InsufficientCashFlows);
    }
    let n = cash_flows.len();
    let mut flows: Vec<CashFlow> = Vec::new();
    match dates {
        Some(d) => {
            if d.len() != n {
                let e = CasifinError::invalid_input("dates length must match cash_flows length");
                assert(result_view(Err::<Decimal, CasifinError>(e)) == money_weighted_model(
                    amounts,
                    dates_view(dates),
                    config,
                ));
                return Err(e);
            }
            let mut i: usize = 0;
            while i < n
                invariant
                    n == cash_flows@.len(),
                    n == d@.len(),
                    0 <= i <= n,
                    flows@.len() == i,
                    forall|k: int|
                        0 <= k < i ==> (#[trigger] flows@[k])@ == (CashFlowModel {
                            amount: cash_flows@[k]@,
                            date: Some(d@[k]@),
                        }),
                decreases n - i,
            {
                flows.push(CashFlow::with_date(cash_flows[i], d[i]));
                i = i + 1;
            }
            let stream = CashFlowStream::new(flows);
            assert(stream@ =~= flows_of(amounts, dates_view(dates)));
            let r = xirr(&stream, config);
            assert(result_view(r) == money_weighted_model(amounts, dates_view(dates), config));
            r
        },
        None => {
            let mut i: usize = 0;
            while i < n
                invariant
                    n == cash_flows@.len(),
                    0 <= i <= n,
                    flows@.len() == i,
                    forall|k: int|
                        0 <= k < i ==> (#[trigger] flows@[k])@ == (CashFlowModel {
                            amount: cash_flows@[k]@,
                            date: None,
                        }),
                decreases n - i,
            {
                flows.push(CashFlow::new(cash_flows[i]));
                i = i + 1;
            }
            let stream = CashFlowStream::new(flows);
            assert(stream@ =~= flows_of(amounts, dates_view(dates)));
            let r = irr(&stream, config);
            assert(result_view(r) == money_weighted_model(amounts, dates_view(dates), config));
            r
        },
    }
}

} // verus!

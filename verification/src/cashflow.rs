//! Cash flow analysis: net present value and internal rate of return, for
//! flows one period apart (NPV, IRR) and for dated flows (XNPV, XIRR).

use vstd::prelude::*;

use crate::config::Config;
use crate::date::Date;
use crate::decimal::{
    decimal_add, decimal_div, decimal_mul, decimal_powd, decimal_powi, decimal_sub, int_model, max_mantissa,
    max_scale, max_scale_of, one_model, pow10, sum_fits, zero_model, Decimal, DecimalModel,
};
use crate::error::{
    fold_steps, lemma_fold_error_stays, ok_or_div_zero, ok_or_overflow, or_div_zero, or_overflow,
    result_view, then, CasifinError, ErrorModel,
};
use crate::money::{sum_units, Money};
use crate::tvm::{below, is_below, midpoint, midpoint_model, no_convergence_model};

verus! {

broadcast use vstd::string::group_string_axioms;

/// The content of a cash flow: its amount and, if dated, its day count.
pub struct CashFlowModel {
    pub amount: DecimalModel,
    pub date: Option<int>,
}

/// A single cash flow with an optional date.
#[derive(Debug, Clone, Copy, PartialEq)]
pub struct CashFlow {
    pub amount: Money,
    pub date: Option<Date>,
}

impl View for CashFlow {
    type V = CashFlowModel;

    open spec fn view(&self) -> CashFlowModel {
        CashFlowModel {
            amount: self.amount@,
            date: match self.date {
                Some(d) => Some(d@),
                None => None,
            },
        }
    }
}

impl CashFlow {
    /// A cash flow without a date.
    pub fn new(amount: Money) -> (c: CashFlow)
        ensures
            c.amount == amount,
            c.date is None,
    {
        CashFlow { amount, date: None }
    }

    /// A cash flow on `date`.
    pub fn with_date(amount: Money, date: Date) -> (c: CashFlow)
        ensures
            c.amount == amount,
            c.date == Some(date),
    {
        CashFlow { amount, date: Some(date) }
    }
}

/// A stream of cash flows, in order.
#[derive(Debug, Clone)]
pub struct CashFlowStream(Vec<CashFlow>);

impl View for CashFlowStream {
    type V = Seq<CashFlowModel>;

    closed spec fn view(&self) -> Seq<CashFlowModel> {
        self.0@.map_values(|c: CashFlow| c@)
    }
}

/// Some flow is positive and some flow is negative.
pub open spec fn mixed_signs(flows: Seq<CashFlowModel>) -> bool {
    &&& exists|i: int| 0 <= i < flows.len() && (#[trigger] flows[i]).amount.units() > 0
    &&& exists|i: int| 0 <= i < flows.len() && (#[trigger] flows[i]).amount.units() < 0
}

impl CashFlowStream {
    /// The stream of `flows`, in their order.
    pub fn new(flows: Vec<CashFlow>) -> (s: CashFlowStream)
        ensures
            s@ == flows@.map_values(|c: CashFlow| c@),
    {
        CashFlowStream(flows)
    }

    /// Whether the stream holds no flow.
    pub fn is_empty(&self) -> (b: bool)
        ensures
            b == (self@.len() == 0),
    {
        self.0.len() == 0
    }

    /// The number of flows.
    pub fn len(&self) -> (n: usize)
        ensures
            n == self@.len(),
    {
        self.0.len()
    }

    /// The stream of undated flows of the given amounts, in their order.
    pub fn from_vec(amounts: Vec<Money>) -> (s: CashFlowStream)
        ensures
            s@ == amounts@.map_values(|m: Money| CashFlowModel { amount: m@, date: None }),
    {
        let mut flows: Vec<CashFlow> = Vec::new();
        let mut i: usize = 0;
        while i < amounts.len()
            invariant
                0 <= i <= amounts@.len(),
                flows@.len() == i,
                forall|k: int|
                    0 <= k < i ==> (#[trigger] flows@[k])@ == (CashFlowModel { amount: amounts@[k]@, date: None }),
            decreases amounts.len() - i,
        {
            flows.push(CashFlow::new(amounts[i]));
            i = i + 1;
        }
        let s = CashFlowStream(flows);
        assert(s@ =~= amounts@.map_values(|m: Money| CashFlowModel { amount: m@, date: None }));
        s
    }

    /// The flow at `index`, if there is one.
    pub fn get(&self, index: usize) -> (c: Option<&CashFlow>)
        ensures
            index < self@.len() ==> (c matches Some(f) && f@ == self@[index as int]),
            index >= self@.len() ==> c is None,
    {
        if index < self.0.len() {
            Some(&self.0[index])
        } else {
            None
        }
    }

    /// The flow at `index`, which must exist.
    pub(crate) fn flow_at(&self, index: usize) -> (c: &CashFlow)
        requires
            index < self@.len(),
        ensures
            c@ == self@[index as int],
    {
        &self.0[index]
    }

    /// The flows, in order.
    pub fn flows(&self) -> (s: &[CashFlow])
        ensures
            s@.map_values(|c: CashFlow| c@) == self@,
    {
        self.0.as_slice()
    }

    /// An iterator over the flows, in order.
    pub fn iter(&self) -> (it: std::slice::Iter<'_, CashFlow>)
        ensures
            vstd::std_specs::iter::IteratorSpec::remaining(&it).len() == self@.len(),
            forall|i: int|
                0 <= i < self@.len() ==> (*#[trigger] vstd::std_specs::iter::IteratorSpec::remaining(&it)[i])@
                    == self@[i],
    {
        broadcast use vstd::std_specs::slice::axiom_spec_slice_iter;

        self.0.as_slice().iter()
    }

    /// Whether the stream holds both a positive and a negative flow.
    pub fn has_positive_and_negative(&self) -> (b: bool)
        ensures
            b == mixed_signs(self@),
    {
        let mut has_pos = false;
        let mut has_neg = false;
        let mut i: usize = 0;
        while i < self.0.len()
            invariant
                0 <= i <= self.0@.len(),
                has_pos == exists|j: int| 0 <= j < i && (#[trigger] self@[j]).amount.units() > 0,
                has_neg == exists|j: int| 0 <= j < i && (#[trigger] self@[j]).amount.units() < 0,
            decreases self.0.len() - i,
        {
            assert(self@[i as int] == self.0@[i as int]@);
            if self.0[i].amount.is_positive() {
                has_pos = true;
            } else if self.0[i].amount.is_negative() {
                has_neg = true;
            }
            i = i + 1;
        }
        has_pos && has_neg
    }
}

/// The amounts of the flows, in order.
pub open spec fn amounts(flows: Seq<CashFlowModel>) -> Seq<DecimalModel> {
    flows.map_values(|c: CashFlowModel| c.amount)
}

// ---------------------------------------------------------------------------
// NPV
// ---------------------------------------------------------------------------

/// Step `t` of [`npv`]: add `CF_t / (1 + rate)^t` to the running total.
pub open spec fn npv_step(rate: DecimalModel, flows: Seq<CashFlowModel>) -> spec_fn(int, DecimalModel) -> Result<
    DecimalModel,
    ErrorModel,
> {
    |t: int, total: DecimalModel|
        then(
            or_overflow(decimal_add(one_model(), rate), "npv: base overflow"),
            |base: DecimalModel|
                then(
                    or_overflow(decimal_powi(base, t), "npv: discount overflow"),
                    |discount: DecimalModel|
                        then(
                            or_div_zero(decimal_div(flows[t].amount, discount), "npv discount"),
                            |pv: DecimalModel| or_overflow(decimal_add(total, pv), "npv: sum overflow"),
                        ),
                ),
        )
}

/// What [`npv`] returns.
pub open spec fn npv_model(rate: DecimalModel, flows: Seq<CashFlowModel>) -> Result<DecimalModel, ErrorModel> {
    if flows.len() == 0 {
        Err(ErrorModel::InsufficientCashFlows)
    } else if rate.units() < 0 {
        Err(ErrorModel::InvalidRate(rate))
    } else {
        fold_steps(zero_model(), flows.len(), npv_step(rate, flows))
    }
}

/// The net present value `NPV = sum over t of CF_t / (1 + rate)^t`, the
/// first flow at `t = 0`.  An empty stream and a negative rate are refused.
pub fn npv(rate: Decimal, stream: &CashFlowStream) -> (res: Result<Money, CasifinError>)
    requires
        stream@.len() <= i64::MAX,
    ensures
        result_view(res) == npv_model(rate@, stream@),
        rate@.units() == 0 && stream@.len() > 0 && running_sums_fit(stream@, max_amount_scale(stream@)) ==> res is Ok
            && res->Ok_0@.units() == sum_units(amounts(stream@)),
{
    if stream.is_empty() {
        return Err(CasifinError::InsufficientCashFlows);
    }
    if rate.is_sign_negative() {
        return Err(CasifinError::InvalidRate(rate));
    }
    let ghost flows = stream@;
    let ghost step = npv_step(rate@, flows);
    let n = stream.len();
    let one = Decimal::one();
    let mut total = Decimal::zero();
    let mut t: usize = 0;
    assert(amounts(flows).take(0) =~= Seq::<DecimalModel>::empty());
    assert(sum_units(amounts(flows).take(0)) == 0);
    proof {
        crate::decimal::lemma_units_sign(total@);
    }
    proof {
        lemma_max_amount_scale_bound(flows);
    }
    while t < n
        invariant
            n == flows.len(),
            flows == stream@,
            n <= i64::MAX,
            n > 0,
            rate@.units() >= 0,
            0 <= t <= n,
            one@ == one_model(),
            step == npv_step(rate@, flows),
            fold_steps(zero_model(), t as nat, step) == Ok::<DecimalModel, ErrorModel>(total@),
            rate@.units() == 0 && running_sums_fit(flows, max_amount_scale(flows)) ==> total@.units() == sum_units(
                amounts(flows).take(t as int),
            ) && total@.scale <= max_amount_scale(flows),
        decreases n - t,
    {
        let cf = stream.flow_at(t);
        let a = cf.amount.inner();
        proof {
            use_type_invariant(&a);
            if rate@.units() == 0 && running_sums_fit(flows, max_amount_scale(flows)) {
                let big = max_amount_scale(flows);
                let amount = flows[t as int].amount;
                lemma_max_amount_scale(flows, t as int);
                assert(amounts(flows).take(t + 1).drop_last() =~= amounts(flows).take(t as int));
                assert(amounts(flows).take(t + 1).last() == amount);
                assert(sum_units(amounts(flows).take(t + 1)) == total@.units() + amount.units());
                assert(-max_mantissa() * pow10((max_scale() - big) as nat) <= sum_units(amounts(flows).take(t + 1))
                    <= max_mantissa() * pow10((max_scale() - big) as nat));
                crate::decimal::lemma_sum_fits_at_scale(total@, amount, total@.units() + amount.units(), big);
            }
        }
        let r = npv_one(one, rate, total, cf.amount, t as i64);
        assert(fold_steps(zero_model(), (t + 1) as nat, step) == step(t as int, total@));
        assert(cf.amount@ == flows[t as int].amount);
        assert(result_view(r) == step(t as int, total@));
        match r {
            Ok(x) => {
                total = x;
            },
            Err(e) => {
                proof {
                    lemma_fold_error_stays(zero_model(), (t + 1) as nat, n as nat, step);
                }
                return Err(e);
            },
        }
        t = t + 1;
    }
    assert(amounts(flows).take(n as int) =~= amounts(flows));
    Ok(Money::from_decimal(total))
}

fn npv_one(one: Decimal, rate: Decimal, total: Decimal, amount: Money, t: i64) -> (res: Result<
    Decimal,
    CasifinError,
>)
    requires
        one@ == one_model(),
    ensures
        result_view(res) == then(
            or_overflow(decimal_add(one_model(), rate@), "npv: base overflow"),
            |base: DecimalModel|
                then(
                    or_overflow(decimal_powi(base, t as int), "npv: discount overflow"),
                    |discount: DecimalModel|
                        then(
                            or_div_zero(decimal_div(amount@, discount), "npv discount"),
                            |pv: DecimalModel| or_overflow(decimal_add(total@, pv), "npv: sum overflow"),
                        ),
                ),
        ),
        rate@.units() == 0 && t >= 0 && sum_fits(total@, amount@, total@.units() + amount@.units()) ==> res is Ok
            && res->Ok_0@.units() == total@.units() + amount@.units() && res->Ok_0@.scale <= max_scale_of(
            total@,
            amount@,
        ),
{
    let a = amount.inner();
    proof {
        use_type_invariant(&rate);
        use_type_invariant(&a);
        crate::decimal::lemma_units_sign(a@);
        if rate@.units() == 0 {
            assert(pow10(28) == 10000000000000000000000000000) by {
                reveal_with_fuel(pow10, 29);
            }
            let sc = max_scale_of(one_model(), rate@);
            let p1 = pow10((max_scale() - sc) as nat);
            crate::decimal::lemma_pow10_pos((max_scale() - sc) as nat);
            let mm = max_mantissa();
            assert(mm * p1 >= mm && -mm * p1 <= 0) by (nonlinear_arith)
                requires
                    p1 >= 1,
                    mm > 0,
            ;
            assert((max_scale() - one_model().scale) as nat == 28);
            assert(one_model().units() == 1 * pow10(28));
            crate::decimal::lemma_sum_fits_at_scale(one_model(), rate@, one_model().units() + rate@.units(), sc);
        }
    }
    let base = ok_or_overflow(one.checked_add(rate), "npv: base overflow")?;
    let discount = ok_or_overflow(base.checked_powi(t), "npv: discount overflow")?;
    let pv = ok_or_div_zero(a.checked_div(discount), "npv discount")?;
    proof {
        if rate@.units() == 0 && t >= 0 && sum_fits(total@, amount@, total@.units() + amount@.units()) {
            use_type_invariant(&total);
            assert(discount@ == one_model());
            if a@.mantissa == 0 {
                assert(pv@ == zero_model());
                crate::decimal::lemma_units_sign(pv@);
            } else {
                assert(pv@ == a@);
            }
            assert(pv@.units() == a@.units());
            assert(pv@.scale <= a@.scale);
            crate::decimal::lemma_sum_fits_at_scale(
                total@,
                pv@,
                total@.units() + pv@.units(),
                max_scale_of(total@, amount@),
            );
        }
    }
    ok_or_overflow(total.checked_add(pv), "npv: sum overflow")
}

} // verus!

verus! {

// ---------------------------------------------------------------------------
// Root finding shared by IRR and XIRR
// ---------------------------------------------------------------------------

/// Bisection on `[low, high]` with current midpoint `mid` for at most
/// `remaining` more rounds, on the function `eq`: stop when `|eq(mid)| < eps`
/// or when the midpoint moves by less than `eps`; keep the half where
/// `eq(low) eq(mid) < 0`.
pub open spec fn bisection_model(
    eq: spec_fn(DecimalModel) -> Result<DecimalModel, ErrorModel>,
    config: Config,
    low: DecimalModel,
    high: DecimalModel,
    mid: DecimalModel,
    remaining: nat,
    detail: &str,
) -> Result<DecimalModel, ErrorModel>
    decreases remaining,
{
    if remaining == 0 {
        Err(no_convergence_model(config))
    } else {
        then(
            eq(mid),
            |f_mid: DecimalModel|
                if below(f_mid, config.eps@) {
                    Ok(mid)
                } else {
                    then(
                        eq(low),
                        |f_low: DecimalModel|
                            then(
                                or_overflow(decimal_mul(f_low, f_mid), detail),
                                |product: DecimalModel|
                                    {
                                        let new_low = if product.units() < 0 {
                                            low
                                        } else {
                                            mid
                                        };
                                        let new_high = if product.units() < 0 {
                                            mid
                                        } else {
                                            high
                                        };
                                        then(
                                            midpoint_model(new_low, new_high, detail),
                                            |new_mid: DecimalModel|
                                                then(
                                                    or_overflow(decimal_sub(new_mid, mid), detail),
                                                    |moved: DecimalModel|
                                                        if below(moved, config.eps@) {
                                                            Ok(new_mid)
                                                        } else {
                                                            bisection_model(
                                                                eq,
                                                                config,
                                                                new_low,
                                                                new_high,
                                                                new_mid,
                                                                (remaining - 1) as nat,
                                                                detail,
                                                            )
                                                        },
                                                ),
                                        )
                                    },
                            ),
                    )
                },
        )
    }
}

/// Bisection from `[low, high]`, starting at its midpoint, for the
/// configured number of rounds.
pub open spec fn bisection_start(
    eq: spec_fn(DecimalModel) -> Result<DecimalModel, ErrorModel>,
    config: Config,
    low: DecimalModel,
    high: DecimalModel,
    detail: &str,
) -> Result<DecimalModel, ErrorModel> {
    then(
        midpoint_model(low, high, detail),
        |mid: DecimalModel| bisection_model(eq, config, low, high, mid, config.max_iterations as nat, detail),
    )
}

/// Newton-Raphson from `rate` for at most `remaining` more rounds on the
/// function and derivative `eqd`: stop when `|f| < eps`; fall back to
/// `flat` when `|f'| < eps`; otherwise step to `rate - f/f'`, stop when the
/// step is below `eps`, and continue from the step's result after `clamp`.
pub open spec fn newton_model(
    eqd: spec_fn(DecimalModel) -> Result<(DecimalModel, DecimalModel), ErrorModel>,
    flat: Result<DecimalModel, ErrorModel>,
    clamp: spec_fn(DecimalModel) -> DecimalModel,
    config: Config,
    rate: DecimalModel,
    remaining: nat,
    step_operation: &str,
    overflow_detail: &str,
) -> Result<DecimalModel, ErrorModel>
    decreases remaining,
{
    if remaining == 0 {
        Err(no_convergence_model(config))
    } else {
        then(
            eqd(rate),
            |ff: (DecimalModel, DecimalModel)|
                if below(ff.0, config.eps@) {
                    Ok(rate)
                } else if below(ff.1, config.eps@) {
                    flat
                } else {
                    then(
                        or_div_zero(decimal_div(ff.0, ff.1), step_operation),
                        |step: DecimalModel|
                            then(
                                or_overflow(decimal_sub(rate, step), overflow_detail),
                                |new_rate: DecimalModel|
                                    then(
                                        or_overflow(decimal_sub(new_rate, rate), overflow_detail),
                                        |moved: DecimalModel|
                                            if below(moved, config.eps@) {
                                                Ok(new_rate)
                                            } else {
                                                newton_model(
                                                    eqd,
                                                    flat,
                                                    clamp,
                                                    config,
                                                    clamp(new_rate),
                                                    (remaining - 1) as nat,
                                                    step_operation,
                                                    overflow_detail,
                                                )
                                            },
                                    ),
                            ),
                    )
                },
        )
    }
}

// ---------------------------------------------------------------------------
// IRR
// ---------------------------------------------------------------------------

/// Step `t` of the IRR equation: add `CF_t / (1 + rate)^t`.
pub open spec fn irr_equation_step(rate: DecimalModel, flows: Seq<CashFlowModel>) -> spec_fn(
    int,
    DecimalModel,
) -> Result<DecimalModel, ErrorModel> {
    |t: int, total: DecimalModel|
        then(
            or_overflow(decimal_add(one_model(), rate), "irr_equation: base overflow"),
            |base: DecimalModel|
                then(
                    or_overflow(decimal_powi(base, t), "irr_equation: power overflow"),
                    |power: DecimalModel|
                        then(
                            or_div_zero(decimal_div(flows[t].amount, power), "irr_equation discount"),
                            |pv: DecimalModel|
                                or_overflow(decimal_add(total, pv), "irr_equation: npv overflow"),
                        ),
                ),
        )
}

/// The IRR equation `f(r) = sum over t of CF_t / (1 + r)^t` as a function of `r`.
pub open spec fn irr_equation_fn(flows: Seq<CashFlowModel>) -> spec_fn(DecimalModel) -> Result<
    DecimalModel,
    ErrorModel,
> {
    |rate: DecimalModel| fold_steps(zero_model(), flows.len(), irr_equation_step(rate, flows))
}

/// Step `t` of the IRR equation and its derivative: add `CF_t / (1+r)^t` to
/// `f` and subtract `t CF_t / ((1+r)^t (1+r))` from `f'`.
pub open spec fn irr_eq_step(rate: DecimalModel, flows: Seq<CashFlowModel>) -> spec_fn(
    int,
    (DecimalModel, DecimalModel),
) -> Result<(DecimalModel, DecimalModel), ErrorModel> {
    |t: int, acc: (DecimalModel, DecimalModel)|
        then(
            or_overflow(decimal_add(one_model(), rate), "irr: base overflow"),
            |base: DecimalModel|
                then(
                    or_overflow(decimal_powi(base, t), "irr: power overflow"),
                    |power: DecimalModel|
                        then(
                            or_div_zero(decimal_div(flows[t].amount, power), "irr term"),
                            |term: DecimalModel|
                                then(
                                    or_overflow(decimal_add(acc.0, term), "irr: f overflow"),
                                    |f: DecimalModel|
                                        then(
                                            or_overflow(decimal_mul(power, base), "irr: power_base overflow"),
                                            |power_base: DecimalModel|
                                                then(
                                                    or_div_zero(
                                                        match decimal_mul(int_model(t), flows[t].amount) {
                                                            Some(v) => decimal_div(v, power_base),
                                                            None => None,
                                                        },
                                                        "irr df term",
                                                    ),
                                                    |df_term: DecimalModel|
                                                        then(
                                                            or_overflow(decimal_sub(acc.1, df_term), "irr: df overflow"),
                                                            |df: DecimalModel| Ok((f, df)),
                                                        ),
                                                ),
                                        ),
                                ),
                        ),
                ),
        )
}

/// The IRR equation and its derivative as a function of the rate.
pub open spec fn irr_eqd_fn(flows: Seq<CashFlowModel>) -> spec_fn(DecimalModel) -> Result<
    (DecimalModel, DecimalModel),
    ErrorModel,
> {
    |rate: DecimalModel| fold_steps((zero_model(), zero_model()), flows.len(), irr_eq_step(rate, flows))
}

/// A Newton step of IRR that leaves `[-1, 1]` restarts at `-0.9` below it
/// and at `0.5` above it.
pub open spec fn irr_clamp() -> spec_fn(DecimalModel) -> DecimalModel {
    |r: DecimalModel|
        if r.units() < int_model(-1).units() {
            DecimalModel { mantissa: -9, scale: 1 }
        } else if r.units() > one_model().units() {
            DecimalModel { mantissa: 5, scale: 1 }
        } else {
            r
        }
}

/// What [`irr`] returns.
pub open spec fn irr_model(flows: Seq<CashFlowModel>, config: Config) -> Result<DecimalModel, ErrorModel> {
    if flows.len() == 0 || !mixed_signs(flows) {
        Err(ErrorModel::InsufficientCashFlows)
    } else {
        newton_model(
            irr_eqd_fn(flows),
            bisection_start(
                irr_equation_fn(flows),
                config,
                DecimalModel { mantissa: -9, scale: 1 },
                one_model(),
                "irr: bisection overflow",
            ),
            irr_clamp(),
            config,
            config.guess@,
            config.max_iterations as nat,
            "irr newton step",
            "irr: rate overflow",
        )
    }
}

fn irr_equation_one(one: Decimal, rate: Decimal, total: Decimal, amount: Money, t: i64) -> (res: Result<
    Decimal,
    CasifinError,
>)
    requires
        one@ == one_model(),
    ensures
        result_view(res) == then(
            or_overflow(decimal_add(one_model(), rate@), "irr_equation: base overflow"),
            |base: DecimalModel|
                then(
                    or_overflow(decimal_powi(base, t as int), "irr_equation: power overflow"),
                    |power: DecimalModel|
                        then(
                            or_div_zero(decimal_div(amount@, power), "irr_equation discount"),
                            |pv: DecimalModel|
                                or_overflow(decimal_add(total@, pv), "irr_equation: npv overflow"),
                        ),
                ),
        ),
{
    let base = ok_or_overflow(one.checked_add(rate), "irr_equation: base overflow")?;
    let power = ok_or_overflow(base.checked_powi(t), "irr_equation: power overflow")?;
    let pv = ok_or_div_zero(amount.inner().checked_div(power), "irr_equation discount")?;
    ok_or_overflow(total.checked_add(pv), "irr_equation: npv overflow")
}

/// The IRR equation: the net present value at `rate`.
fn irr_equation(stream: &CashFlowStream, rate: Decimal) -> (res: Result<Decimal, CasifinError>)
    requires
        stream@.len() <= i64::MAX,
    ensures
        result_view(res) == irr_equation_fn(stream@)(rate@),
{
    let ghost flows = stream@;
    let ghost step = irr_equation_step(rate@, flows);
    let n = stream.len();
    let one = Decimal::one();
    let mut total = Decimal::zero();
    let mut t: usize = 0;
    while t < n
        invariant
            n == flows.len(),
            flows == stream@,
            n <= i64::MAX,
            0 <= t <= n,
            one@ == one_model(),
            step == irr_equation_step(rate@, flows),
            fold_steps(zero_model(), t as nat, step) == Ok::<DecimalModel, ErrorModel>(total@),
        decreases n - t,
    {
        let cf = stream.flow_at(t);
        let r = irr_equation_one(one, rate, total, cf.amount, t as i64);
        assert(fold_steps(zero_model(), (t + 1) as nat, step) == step(t as int, total@));
        assert(cf.amount@ == flows[t as int].amount);
        assert(result_view(r) == step(t as int, total@));
        match r {
            Ok(x) => {
                total = x;
            },
            Err(e) => {
                proof {
                    lemma_fold_error_stays(zero_model(), (t + 1) as nat, n as nat, step);
                }
                return Err(e);
            },
        }
        t = t + 1;
    }
    Ok(total)
}

fn irr_eq_one(one: Decimal, rate: Decimal, f: Decimal, df: Decimal, amount: Money, t: usize) -> (res: Result<
    (Decimal, Decimal),
    CasifinError,
>)
    requires
        one@ == one_model(),
        t <= i64::MAX,
    ensures
        result_view(res) == then(
            or_overflow(decimal_add(one_model(), rate@), "irr: base overflow"),
            |base: DecimalModel|
                then(
                    or_overflow(decimal_powi(base, t as int), "irr: power overflow"),
                    |power: DecimalModel|
                        then(
                            or_div_zero(decimal_div(amount@, power), "irr term"),
                            |term: DecimalModel|
                                then(
                                    or_overflow(decimal_add(f@, term), "irr: f overflow"),
                                    |new_f: DecimalModel|
                                        then(
                                            or_overflow(decimal_mul(power, base), "irr: power_base overflow"),
                                            |power_base: DecimalModel|
                                                then(
                                                    or_div_zero(
                                                        match decimal_mul(int_model(t as int), amount@) {
                                                            Some(v) => decimal_div(v, power_base),
                                                            None => None,
                                                        },
                                                        "irr df term",
                                                    ),
                                                    |df_term: DecimalModel|
                                                        then(
                                                            or_overflow(decimal_sub(df@, df_term), "irr: df overflow"),
                                                            |new_df: DecimalModel| Ok((new_f, new_df)),
                                                        ),
                                                ),
                                        ),
                                ),
                        ),
                ),
        ),
{
    let base = ok_or_overflow(one.checked_add(rate), "irr: base overflow")?;
    let power = ok_or_overflow(base.checked_powi(t as i64), "irr: power overflow")?;
    let term = ok_or_div_zero(amount.inner().checked_div(power), "irr term")?;
    let new_f = ok_or_overflow(f.checked_add(term), "irr: f overflow")?;
    let power_base = ok_or_overflow(power.checked_mul(base), "irr: power_base overflow")?;
    let df_term = ok_or_div_zero(
        match Decimal::from_usize(t).checked_mul(amount.inner()) {
            Some(v) => v.checked_div(power_base),
            None => None,
        },
        "irr df term",
    )?;
    let new_df = ok_or_overflow(df.checked_sub(df_term), "irr: df overflow")?;
    Ok((new_f, new_df))
}

} // verus!

verus! {

/// The IRR equation and its derivative at `rate`.
fn irr_eq_and_derivative(stream: &CashFlowStream, rate: Decimal) -> (res: Result<
    (Decimal, Decimal),
    CasifinError,
>)
    requires
        stream@.len() <= i64::MAX,
    ensures
        result_view(res) == irr_eqd_fn(stream@)(rate@),
{
    let ghost flows = stream@;
    let ghost step = irr_eq_step(rate@, flows);
    let ghost init = (zero_model(), zero_model());
    let n = stream.len();
    let one = Decimal::one();
    let mut f = Decimal::zero();
    let mut df = Decimal::zero();
    let mut t: usize = 0;
    while t < n
        invariant
            n == flows.len(),
            flows == stream@,
            n <= i64::MAX,
            0 <= t <= n,
            one@ == one_model(),
            init == (zero_model(), zero_model()),
            step == irr_eq_step(rate@, flows),
            fold_steps(init, t as nat, step) == Ok::<(DecimalModel, DecimalModel), ErrorModel>((f@, df@)),
        decreases n - t,
    {
        let cf = stream.flow_at(t);
        let r = irr_eq_one(one, rate, f, df, cf.amount, t);
        assert(fold_steps(init, (t + 1) as nat, step) == step(t as int, (f@, df@)));
        assert(cf.amount@ == flows[t as int].amount);
        assert(result_view(r) == step(t as int, (f@, df@)));
        match r {
            Ok(x) => {
                f = x.0;
                df = x.1;
            },
            Err(e) => {
                proof {
                    lemma_fold_error_stays(init, (t + 1) as nat, n as nat, step);
                }
                return Err(e);
            },
        }
        t = t + 1;
    }
    Ok((f, df))
}

/// Bisection for the IRR on `[-0.9, 1]`.
fn irr_bisection(stream: &CashFlowStream, config: Config) -> (res: Result<Decimal, CasifinError>)
    requires
        stream@.len() <= i64::MAX,
    ensures
        result_view(res) == bisection_start(
            irr_equation_fn(stream@),
            config,
            DecimalModel { mantissa: -9, scale: 1 },
            one_model(),
            "irr: bisection overflow",
        ),
{
    let ghost eq = irr_equation_fn(stream@);
    let mut low = Decimal::new(-9, 1);
    let mut high = Decimal::one();
    let mut mid = midpoint(low, high, "irr: bisection overflow")?;
    let mut i: u32 = 0;
    while i < config.max_iterations
        invariant
            stream@.len() <= i64::MAX,
            eq == irr_equation_fn(stream@),
            i <= config.max_iterations,
            bisection_start(eq, config, DecimalModel { mantissa: -9, scale: 1 }, one_model(), "irr: bisection overflow")
                == bisection_model(
                eq,
                config,
                low@,
                high@,
                mid@,
                (config.max_iterations - i) as nat,
                "irr: bisection overflow",
            ),
        decreases config.max_iterations - i,
    {
        let f_mid = irr_equation(stream, mid)?;
        if is_below(f_mid, config.eps) {
            return Ok(mid);
        }
        let f_low = irr_equation(stream, low)?;
        let product = ok_or_overflow(f_low.checked_mul(f_mid), "irr: bisection overflow")?;
        if product.is_sign_negative() {
            high = mid;
        } else {
            low = mid;
        }
        let new_mid = midpoint(low, high, "irr: bisection overflow")?;
        let moved = ok_or_overflow(new_mid.checked_sub(mid), "irr: bisection overflow")?;
        if is_below(moved, config.eps) {
            return Ok(new_mid);
        }
        mid = new_mid;
        i = i + 1;
    }
    Err(CasifinError::IrrConvergenceFailure { max_iter: config.max_iterations, eps: config.eps })
}

/// The internal rate of return: the rate at which the net present value of
/// the stream is zero, by Newton-Raphson from the configured guess with a
/// bisection fallback where the derivative is flat.  The stream must hold a
/// positive and a negative flow.
pub fn irr(stream: &CashFlowStream, config: Config) -> (res: Result<Decimal, CasifinError>)
    requires
        stream@.len() <= i64::MAX,
    ensures
        result_view(res) == irr_model(stream@, config),
{
    if stream.is_empty() {
        return Err(CasifinError::InsufficientCashFlows);
    }
    if !stream.has_positive_and_negative() {
        return Err(CasifinError::InsufficientCashFlows);
    }
    let ghost eqd = irr_eqd_fn(stream@);
    let ghost flat = bisection_start(
        irr_equation_fn(stream@),
        config,
        DecimalModel { mantissa: -9, scale: 1 },
        one_model(),
        "irr: bisection overflow",
    );
    let minus_one = Decimal::negative_one();
    let one = Decimal::one();
    let mut rate = config.guess;
    let mut i: u32 = 0;
    while i < config.max_iterations
        invariant
            stream@.len() <= i64::MAX,
            stream@.len() > 0,
            mixed_signs(stream@),
            eqd == irr_eqd_fn(stream@),
            flat == bisection_start(
                irr_equation_fn(stream@),
                config,
                DecimalModel { mantissa: -9, scale: 1 },
                one_model(),
                "irr: bisection overflow",
            ),
            minus_one@ == int_model(-1),
            one@ == one_model(),
            i <= config.max_iterations,
            irr_model(stream@, config) == newton_model(
                eqd,
                flat,
                irr_clamp(),
                config,
                rate@,
                (config.max_iterations - i) as nat,
                "irr newton step",
                "irr: rate overflow",
            ),
        decreases config.max_iterations - i,
    {
        let (f, df) = irr_eq_and_derivative(stream, rate)?;
        if is_below(f, config.eps) {
            return Ok(rate);
        }
        if is_below(df, config.eps) {
            return irr_bisection(stream, config);
        }
        let step = ok_or_div_zero(f.checked_div(df), "irr newton step")?;
        let new_rate = ok_or_overflow(rate.checked_sub(step), "irr: rate overflow")?;
        let moved = ok_or_overflow(new_rate.checked_sub(rate), "irr: rate overflow")?;
        if is_below(moved, config.eps) {
            return Ok(new_rate);
        }
        rate = new_rate;
        proof {
            crate::decimal::lemma_pow10_pos(27);
        }
        if rate.lt(&minus_one) {
            rate = Decimal::new(-9, 1);
        }
        if rate.gt(&one) {
            rate = Decimal::new(5, 1);
        }
        assert(rate@ == irr_clamp()(new_rate@));
        i = i + 1;
    }
    Err(CasifinError::IrrConvergenceFailure { max_iter: config.max_iterations, eps: config.eps })
}

} // verus!

verus! {

// ---------------------------------------------------------------------------
// XNPV and XIRR
// ---------------------------------------------------------------------------

/// The day count of the first dated flow at or after index `i`.
pub open spec fn first_date_from(flows: Seq<CashFlowModel>, i: int) -> Option<int>
    decreases flows.len() - i,
{
    if i < 0 || i >= flows.len() {
        None
    } else {
        match flows[i].date {
            Some(d) => Some(d),
            None => first_date_from(flows, i + 1),
        }
    }
}

/// The date of the first dated flow, if any.
fn first_date(stream: &CashFlowStream) -> (r: Option<Date>)
    ensures
        match r {
            Some(d) => first_date_from(stream@, 0) == Some(d@),
            None => first_date_from(stream@, 0) is None,
        },
{
    let n = stream.len();
    let mut i: usize = 0;
    while i < n
        invariant
            n == stream@.len(),
            0 <= i <= n,
            first_date_from(stream@, 0) == first_date_from(stream@, i as int),
        decreases n - i,
    {
        let cf = stream.flow_at(i);
        match cf.date {
            Some(d) => {
                return Some(d);
            },
            None => {},
        }
        i = i + 1;
    }
    None
}

/// The year fraction `days / 365` between a flow's date and the first date.
pub open spec fn year_fraction_model(days: int, operation: &str) -> Result<DecimalModel, ErrorModel> {
    or_div_zero(decimal_div(int_model(days), int_model(365)), operation)
}

fn year_fraction(date: Date, first: Date, operation: &'static str) -> (res: Result<Decimal, CasifinError>)
    ensures
        result_view(res) == year_fraction_model(date@ - first@, operation),
{
    let days = date.days_since(first);
    ok_or_div_zero(Decimal::from_i64(days).checked_div(Decimal::from_u32(365)), operation)
}

/// Step `t` of [`xnpv`]: add `CF_t / (1 + rate)^(days_t / 365)`, for flows
/// dated before the first date too (their exponent is negative); an undated
/// flow is refused.
pub open spec fn xnpv_step(rate: DecimalModel, flows: Seq<CashFlowModel>, first: int) -> spec_fn(
    int,
    DecimalModel,
) -> Result<DecimalModel, ErrorModel> {
    |t: int, total: DecimalModel|
        match flows[t].date {
            None => Err(crate::error::date_error_model("Undated cash flow in XNPV")),
            Some(d) => then(
                year_fraction_model(d - first, "xnpv year fraction"),
                |year_frac: DecimalModel|
                        then(
                            or_overflow(decimal_add(one_model(), rate), "xnpv: base overflow"),
                            |base: DecimalModel|
                                then(
                                    or_overflow(decimal_powd(base, year_frac), "xnpv: discount overflow"),
                                    |discount: DecimalModel|
                                        then(
                                            or_div_zero(decimal_div(flows[t].amount, discount), "xnpv discount"),
                                            |pv: DecimalModel|
                                                or_overflow(decimal_add(total, pv), "xnpv: sum overflow"),
                                        ),
                                ),
                        )
            ),
        }
}

/// What [`xnpv`] returns.
pub open spec fn xnpv_model(rate: DecimalModel, flows: Seq<CashFlowModel>) -> Result<DecimalModel, ErrorModel> {
    if flows.len() == 0 {
        Err(ErrorModel::InsufficientCashFlows)
    } else if rate.units() < 0 {
        Err(ErrorModel::InvalidRate(rate))
    } else {
        match first_date_from(flows, 0) {
            None => Err(crate::error::date_error_model("No dates in stream")),
            Some(first) => fold_steps(zero_model(), flows.len(), xnpv_step(rate, flows, first)),
        }
    }
}

fn xnpv_one(stream: &CashFlowStream, t: usize, first: Date, one: Decimal, rate: Decimal, total: Decimal) -> (res: Result<
    Decimal,
    CasifinError,
>)
    requires
        t < stream@.len(),
        one@ == one_model(),
    ensures
        result_view(res) == xnpv_step(rate@, stream@, first@)(t as int, total@),
{
    let cf = stream.flow_at(t);
    let date = match cf.date {
        Some(d) => d,
        None => {
            return Err(CasifinError::date_out_of_range("Undated cash flow in XNPV"));
        },
    };
    let year_frac = year_fraction(date, first, "xnpv year fraction")?;
    let base = ok_or_overflow(one.checked_add(rate), "xnpv: base overflow")?;
    let discount = ok_or_overflow(base.checked_powd(year_frac), "xnpv: discount overflow")?;
    let pv = ok_or_div_zero(cf.amount.inner().checked_div(discount), "xnpv discount")?;
    ok_or_overflow(total.checked_add(pv), "xnpv: sum overflow")
}

/// The net present value of dated flows:
/// `XNPV = sum of CF_i / (1 + rate)^(days_i / 365)`, with `days_i` counted
/// from the first dated flow.  An empty stream, a negative rate, a stream
/// without dates and an undated flow are refused.
pub fn xnpv(rate: Decimal, stream: &CashFlowStream) -> (res: Result<Money, CasifinError>)
    ensures
        result_view(res) == xnpv_model(rate@, stream@),
{
    if stream.is_empty() {
        return Err(CasifinError::InsufficientCashFlows);
    }
    if rate.is_sign_negative() {
        return Err(CasifinError::InvalidRate(rate));
    }
    let first = match first_date(stream) {
        Some(d) => d,
        None => {
            return Err(CasifinError::date_out_of_range("No dates in stream"));
        },
    };
    let ghost flows = stream@;
    let ghost step = xnpv_step(rate@, flows, first@);
    let n = stream.len();
    let one = Decimal::one();
    let mut total = Decimal::zero();
    let mut t: usize = 0;
    while t < n
        invariant
            n == flows.len(),
            flows == stream@,
            n > 0,
            rate@.units() >= 0,
            first_date_from(flows, 0) == Some(first@),
            0 <= t <= n,
            one@ == one_model(),
            step == xnpv_step(rate@, flows, first@),
            fold_steps(zero_model(), t as nat, step) == Ok::<DecimalModel, ErrorModel>(total@),
        decreases n - t,
    {
        let r = xnpv_one(stream, t, first, one, rate, total);
        assert(fold_steps(zero_model(), (t + 1) as nat, step) == step(t as int, total@));
        match r {
            Ok(x) => {
                total = x;
            },
            Err(e) => {
                proof {
                    lemma_fold_error_stays(zero_model(), (t + 1) as nat, n as nat, step);
                }
                return Err(e);
            },
        }
        t = t + 1;
    }
    Ok(Money::from_decimal(total))
}

} // verus!

verus! {

/// Step `t` of the XIRR equation and its derivative: with `y` the year
/// fraction of flow `t`, add `CF_t / (1+r)^y` to `f` and subtract
/// `y CF_t / ((1+r)^y (1+r))` from `f'`, for flows dated before the first
/// date too; an undated flow is refused.
pub open spec fn xirr_eq_step(rate: DecimalModel, flows: Seq<CashFlowModel>, first: int) -> spec_fn(
    int,
    (DecimalModel, DecimalModel),
) -> Result<(DecimalModel, DecimalModel), ErrorModel> {
    |t: int, acc: (DecimalModel, DecimalModel)|
        match flows[t].date {
            None => Err(crate::error::date_error_model("Undated cash flow in XIRR")),
            Some(d) => then(
                year_fraction_model(d - first, "xirr year fraction"),
                |y: DecimalModel|
                        then(
                            or_overflow(decimal_add(one_model(), rate), "xirr: base overflow"),
                            |base: DecimalModel|
                                then(
                                    or_overflow(decimal_powd(base, y), "xirr: power overflow"),
                                    |power: DecimalModel|
                                        xirr_eq_tail(flows[t].amount, acc, y, base, power),
                                ),
                        )
            ),
        }
}

/// The sums of a step of the XIRR equation once `1 + r` and `(1+r)^y` are known.
pub open spec fn xirr_eq_tail(
    amount: DecimalModel,
    acc: (DecimalModel, DecimalModel),
    y: DecimalModel,
    base: DecimalModel,
    power: DecimalModel,
) -> Result<(DecimalModel, DecimalModel), ErrorModel> {
    then(
        or_div_zero(decimal_div(amount, power), "xirr term"),
        |term: DecimalModel|
            then(
                or_overflow(decimal_add(acc.0, term), "xirr: f overflow"),
                |f: DecimalModel|
                    then(
                        or_overflow(decimal_mul(power, base), "xirr: power_base overflow"),
                        |power_base: DecimalModel|
                            then(
                                or_div_zero(
                                    match decimal_mul(y, amount) {
                                        Some(v) => decimal_div(v, power_base),
                                        None => None,
                                    },
                                    "xirr df term",
                                ),
                                |df_term: DecimalModel|
                                    then(
                                        or_overflow(decimal_sub(acc.1, df_term), "xirr: df overflow"),
                                        |df: DecimalModel| Ok((f, df)),
                                    ),
                            ),
                    ),
            ),
    )
}

/// The XIRR equation and its derivative as a function of the rate.
pub open spec fn xirr_eqd_fn(flows: Seq<CashFlowModel>, first: int) -> spec_fn(DecimalModel) -> Result<
    (DecimalModel, DecimalModel),
    ErrorModel,
> {
    |rate: DecimalModel| fold_steps((zero_model(), zero_model()), flows.len(), xirr_eq_step(rate, flows, first))
}

/// Step `t` of the XNPV used by the XIRR bisection: add
/// `CF_t / (1 + rate)^(days_t / 365)` for every dated flow; undated flows
/// are skipped.
pub open spec fn xnpv_at_rate_step(rate: DecimalModel, flows: Seq<CashFlowModel>, first: int) -> spec_fn(
    int,
    DecimalModel,
) -> Result<DecimalModel, ErrorModel> {
    |t: int, total: DecimalModel|
        match flows[t].date {
            None => Ok(total),
            Some(d) => then(
                year_fraction_model(d - first, "xnpv_at_rate year fraction"),
                |y: DecimalModel|
                        then(
                            or_overflow(decimal_add(one_model(), rate), "xnpv_at_rate: base overflow"),
                            |base: DecimalModel|
                                then(
                                    or_overflow(decimal_powd(base, y), "xnpv_at_rate: power overflow"),
                                    |power: DecimalModel|
                                        then(
                                            or_div_zero(
                                                decimal_div(flows[t].amount, power),
                                                "xnpv_at_rate discount",
                                            ),
                                            |pv: DecimalModel|
                                                or_overflow(decimal_add(total, pv), "xnpv_at_rate: f overflow"),
                                        ),
                                ),
                        )
            ),
        }
}

/// The XNPV as a function of the rate.
pub open spec fn xnpv_at_rate_fn(flows: Seq<CashFlowModel>, first: int) -> spec_fn(DecimalModel) -> Result<
    DecimalModel,
    ErrorModel,
> {
    |rate: DecimalModel| fold_steps(zero_model(), flows.len(), xnpv_at_rate_step(rate, flows, first))
}

/// A Newton step of XIRR that leaves `[-1, 10]` restarts at `-0.9` below it
/// and at `10` above it.
pub open spec fn xirr_clamp() -> spec_fn(DecimalModel) -> DecimalModel {
    |r: DecimalModel|
        if r.units() < int_model(-1).units() {
            DecimalModel { mantissa: -9, scale: 1 }
        } else if r.units() > int_model(10).units() {
            int_model(10)
        } else {
            r
        }
}

/// What [`xirr`] returns.
pub open spec fn xirr_model(flows: Seq<CashFlowModel>, config: Config) -> Result<DecimalModel, ErrorModel> {
    if flows.len() == 0 {
        Err(ErrorModel::InsufficientCashFlows)
    } else if !mixed_signs(flows) {
        Err(ErrorModel::XirrSignRequirement)
    } else {
        match first_date_from(flows, 0) {
            None => Err(crate::error::date_error_model("No dates in stream")),
            Some(first) => newton_model(
                xirr_eqd_fn(flows, first),
                bisection_start(
                    xnpv_at_rate_fn(flows, first),
                    config,
                    DecimalModel { mantissa: -9, scale: 1 },
                    int_model(10),
                    "xirr: bisection overflow",
                ),
                xirr_clamp(),
                config,
                config.guess@,
                config.max_iterations as nat,
                "xirr newton step",
                "xirr: rate overflow",
            ),
        }
    }
}

fn xirr_eq_one(
    stream: &CashFlowStream,
    t: usize,
    first: Date,
    one: Decimal,
    rate: Decimal,
    f: Decimal,
    df: Decimal,
) -> (res: Result<(Decimal, Decimal), CasifinError>)
    requires
        t < stream@.len(),
        one@ == one_model(),
    ensures
        result_view(res) == xirr_eq_step(rate@, stream@, first@)(t as int, (f@, df@)),
{
    let cf = stream.flow_at(t);
    let date = match cf.date {
        Some(d) => d,
        None => {
            return Err(CasifinError::date_out_of_range("Undated cash flow in XIRR"));
        },
    };
    let y = year_fraction(date, first, "xirr year fraction")?;
    let base = ok_or_overflow(one.checked_add(rate), "xirr: base overflow")?;
    let power = ok_or_overflow(base.checked_powd(y), "xirr: power overflow")?;
    let amount = cf.amount.inner();
    let term = ok_or_div_zero(amount.checked_div(power), "xirr term")?;
    let new_f = ok_or_overflow(f.checked_add(term), "xirr: f overflow")?;
    let power_base = ok_or_overflow(power.checked_mul(base), "xirr: power_base overflow")?;
    let df_term = ok_or_div_zero(
        match y.checked_mul(amount) {
            Some(v) => v.checked_div(power_base),
            None => None,
        },
        "xirr df term",
    )?;
    let new_df = ok_or_overflow(df.checked_sub(df_term), "xirr: df overflow")?;
    Ok((new_f, new_df))
}

/// The XIRR equation and its derivative at `rate`.
fn xirr_eq_and_derivative(stream: &CashFlowStream, first: Date, rate: Decimal) -> (res: Result<
    (Decimal, Decimal),
    CasifinError,
>)
    ensures
        result_view(res) == xirr_eqd_fn(stream@, first@)(rate@),
{
    let ghost flows = stream@;
    let ghost step = xirr_eq_step(rate@, flows, first@);
    let ghost init = (zero_model(), zero_model());
    let n = stream.len();
    let one = Decimal::one();
    let mut f = Decimal::zero();
    let mut df = Decimal::zero();
    let mut t: usize = 0;
    while t < n
        invariant
            n == flows.len(),
            flows == stream@,
            0 <= t <= n,
            one@ == one_model(),
            init == (zero_model(), zero_model()),
            step == xirr_eq_step(rate@, flows, first@),
            fold_steps(init, t as nat, step) == Ok::<(DecimalModel, DecimalModel), ErrorModel>((f@, df@)),
        decreases n - t,
    {
        let r = xirr_eq_one(stream, t, first, one, rate, f, df);
        assert(fold_steps(init, (t + 1) as nat, step) == step(t as int, (f@, df@)));
        match r {
            Ok(x) => {
                f = x.0;
                df = x.1;
            },
            Err(e) => {
                proof {
                    lemma_fold_error_stays(init, (t + 1) as nat, n as nat, step);
                }
                return Err(e);
            },
        }
        t = t + 1;
    }
    Ok((f, df))
}

fn xnpv_at_rate_one(stream: &CashFlowStream, t: usize, first: Date, one: Decimal, rate: Decimal, total: Decimal) -> (res: Result<
    Decimal,
    CasifinError,
>)
    requires
        t < stream@.len(),
        one@ == one_model(),
    ensures
        result_view(res) == xnpv_at_rate_step(rate@, stream@, first@)(t as int, total@),
{
    let cf = stream.flow_at(t);
    let date = match cf.date {
        Some(d) => d,
        None => {
            return Ok(total);
        },
    };
    let y = year_fraction(date, first, "xnpv_at_rate year fraction")?;
    let base = ok_or_overflow(one.checked_add(rate), "xnpv_at_rate: base overflow")?;
    let power = ok_or_overflow(base.checked_powd(y), "xnpv_at_rate: power overflow")?;
    let pv = ok_or_div_zero(cf.amount.inner().checked_div(power), "xnpv_at_rate discount")?;
    ok_or_overflow(total.checked_add(pv), "xnpv_at_rate: f overflow")
}

/// The XNPV at `rate`, skipping undated flows.
fn xnpv_at_rate(stream: &CashFlowStream, first: Date, rate: Decimal) -> (res: Result<Decimal, CasifinError>)
    ensures
        result_view(res) == xnpv_at_rate_fn(stream@, first@)(rate@),
{
    let ghost flows = stream@;
    let ghost step = xnpv_at_rate_step(rate@, flows, first@);
    let n = stream.len();
    let one = Decimal::one();
    let mut total = Decimal::zero();
    let mut t: usize = 0;
    while t < n
        invariant
            n == flows.len(),
            flows == stream@,
            0 <= t <= n,
            one@ == one_model(),
            step == xnpv_at_rate_step(rate@, flows, first@),
            fold_steps(zero_model(), t as nat, step) == Ok::<DecimalModel, ErrorModel>(total@),
        decreases n - t,
    {
        let r = xnpv_at_rate_one(stream, t, first, one, rate, total);
        assert(fold_steps(zero_model(), (t + 1) as nat, step) == step(t as int, total@));
        match r {
            Ok(x) => {
                total = x;
            },
            Err(e) => {
                proof {
                    lemma_fold_error_stays(zero_model(), (t + 1) as nat, n as nat, step);
                }
                return Err(e);
            },
        }
        t = t + 1;
    }
    Ok(total)
}

/// Bisection for the XIRR on `[-0.9, 10]`.
fn xirr_bisection(stream: &CashFlowStream, first: Date, config: Config) -> (res: Result<Decimal, CasifinError>)
    ensures
        result_view(res) == bisection_start(
            xnpv_at_rate_fn(stream@, first@),
            config,
            DecimalModel { mantissa: -9, scale: 1 },
            int_model(10),
            "xirr: bisection overflow",
        ),
{
    let ghost eq = xnpv_at_rate_fn(stream@, first@);
    let mut low = Decimal::new(-9, 1);
    let mut high = Decimal::from_u32(10);
    let mut mid = midpoint(low, high, "xirr: bisection overflow")?;
    let mut i: u32 = 0;
    while i < config.max_iterations
        invariant
            eq == xnpv_at_rate_fn(stream@, first@),
            i <= config.max_iterations,
            bisection_start(eq, config, DecimalModel { mantissa: -9, scale: 1 }, int_model(10), "xirr: bisection overflow")
                == bisection_model(
                eq,
                config,
                low@,
                high@,
                mid@,
                (config.max_iterations - i) as nat,
                "xirr: bisection overflow",
            ),
        decreases config.max_iterations - i,
    {
        let f_mid = xnpv_at_rate(stream, first, mid)?;
        if is_below(f_mid, config.eps) {
            return Ok(mid);
        }
        let f_low = xnpv_at_rate(stream, first, low)?;
        let product = ok_or_overflow(f_low.checked_mul(f_mid), "xirr: bisection overflow")?;
        if product.is_sign_negative() {
            high = mid;
        } else {
            low = mid;
        }
        let new_mid = midpoint(low, high, "xirr: bisection overflow")?;
        let moved = ok_or_overflow(new_mid.checked_sub(mid), "xirr: bisection overflow")?;
        if is_below(moved, config.eps) {
            return Ok(new_mid);
        }
        mid = new_mid;
        i = i + 1;
    }
    Err(CasifinError::IrrConvergenceFailure { max_iter: config.max_iterations, eps: config.eps })
}

/// The internal rate of return of dated flows: the annual rate at which the
/// XNPV is zero, by Newton-Raphson from the configured guess with a
/// bisection fallback where the derivative is flat.  An empty stream is
/// refused as too short, one without both a positive and a negative flow
/// with [`CasifinError::XirrSignRequirement`], and one without a date as out
/// of range.
pub fn xirr(stream: &CashFlowStream, config: Config) -> (res: Result<Decimal, CasifinError>)
    ensures
        result_view(res) == xirr_model(stream@, config),
{
    if stream.is_empty() {
        return Err(CasifinError::InsufficientCashFlows);
    }
    if !stream.has_positive_and_negative() {
        return Err(CasifinError::XirrSignRequirement);
    }
    let first = match first_date(stream) {
        Some(d) => d,
        None => {
            return Err(CasifinError::date_out_of_range("No dates in stream"));
        },
    };
    let ghost eqd = xirr_eqd_fn(stream@, first@);
    let ghost flat = bisection_start(
        xnpv_at_rate_fn(stream@, first@),
        config,
        DecimalModel { mantissa: -9, scale: 1 },
        int_model(10),
        "xirr: bisection overflow",
    );
    let minus_one = Decimal::negative_one();
    let ten = Decimal::from_u32(10);
    let mut rate = config.guess;
    let mut i: u32 = 0;
    while i < config.max_iterations
        invariant
            stream@.len() > 0,
            mixed_signs(stream@),
            first_date_from(stream@, 0) == Some(first@),
            eqd == xirr_eqd_fn(stream@, first@),
            flat == bisection_start(
                xnpv_at_rate_fn(stream@, first@),
                config,
                DecimalModel { mantissa: -9, scale: 1 },
                int_model(10),
                "xirr: bisection overflow",
            ),
            minus_one@ == int_model(-1),
            ten@ == int_model(10),
            i <= config.max_iterations,
            xirr_model(stream@, config) == newton_model(
                eqd,
                flat,
                xirr_clamp(),
                config,
                rate@,
                (config.max_iterations - i) as nat,
                "xirr newton step",
                "xirr: rate overflow",
            ),
        decreases config.max_iterations - i,
    {
        let (f, df) = xirr_eq_and_derivative(stream, first, rate)?;
        if is_below(f, config.eps) {
            return Ok(rate);
        }
        if is_below(df, config.eps) {
            return xirr_bisection(stream, first, config);
        }
        let step = ok_or_div_zero(f.checked_div(df), "xirr newton step")?;
        let new_rate = ok_or_overflow(rate.checked_sub(step), "xirr: rate overflow")?;
        let moved = ok_or_overflow(new_rate.checked_sub(rate), "xirr: rate overflow")?;
        if is_below(moved, config.eps) {
            return Ok(new_rate);
        }
        rate = new_rate;
        proof {
            crate::decimal::lemma_pow10_pos(27);
        }
        if rate.lt(&minus_one) {
            rate = Decimal::new(-9, 1);
        }
        if rate.gt(&ten) {
            rate = Decimal::from_u32(10);
        }
        assert(rate@ == xirr_clamp()(new_rate@));
        i = i + 1;
    }
    Err(CasifinError::IrrConvergenceFailure { max_iter: config.max_iterations, eps: config.eps })
}


proof fn lemma_xnpv_steps_agree(rate: DecimalModel, flows: Seq<CashFlowModel>, first: int, k: nat)
    requires
        k <= flows.len(),
    ensures
        fold_steps(zero_model(), k, xnpv_step(rate, flows, first)) matches Ok(v) ==> fold_steps(
            zero_model(),
            k,
            xnpv_at_rate_step(rate, flows, first),
        ) == Ok::<DecimalModel, ErrorModel>(v),
    decreases k,
{
    if k > 0 {
        lemma_xnpv_steps_agree(rate, flows, first, (k - 1) as nat);
        let a = fold_steps(zero_model(), (k - 1) as nat, xnpv_step(rate, flows, first));
        if let Ok(total) = a {
            let t = k - 1;
            assert(fold_steps(zero_model(), k, xnpv_step(rate, flows, first)) == xnpv_step(rate, flows, first)(
                t,
                total,
            ));
            assert(fold_steps(zero_model(), k, xnpv_at_rate_step(rate, flows, first)) == xnpv_at_rate_step(
                rate,
                flows,
                first,
            )(t, total));
        }
    }
}

/// The XNPV that the XIRR bisection evaluates agrees with [`xnpv`]: where
/// `xnpv(rate, flows)` succeeds, the XNPV at `rate` measured from the first
/// dated flow has the same value.
pub proof fn law_xnpv_at_rate_agrees_with_xnpv(rate: DecimalModel, flows: Seq<CashFlowModel>)
    requires
        xnpv_model(rate, flows) is Ok,
    ensures
        first_date_from(flows, 0) matches Some(first) && xnpv_at_rate_fn(flows, first)(rate) == xnpv_model(
            rate,
            flows,
        ),
{
    let first = first_date_from(flows, 0)->Some_0;
    lemma_xnpv_steps_agree(rate, flows, first, flows.len());
}

} // verus!

verus! {

// ---------------------------------------------------------------------------
// Laws
// ---------------------------------------------------------------------------

/// The largest number of decimal places among the amounts (at most 28).
pub open spec fn max_amount_scale(flows: Seq<CashFlowModel>) -> nat
    decreases flows.len(),
{
    if flows.len() == 0 {
        0
    } else {
        let rest = max_amount_scale(flows.drop_last());
        let last = if flows.last().amount.scale <= max_scale() {
            flows.last().amount.scale
        } else {
            max_scale()
        };
        if last >= rest {
            last
        } else {
            rest
        }
    }
}

proof fn lemma_max_amount_scale(flows: Seq<CashFlowModel>, i: int)
    requires
        0 <= i < flows.len(),
        flows[i].amount.scale <= max_scale(),
    ensures
        flows[i].amount.scale <= max_amount_scale(flows),
        max_amount_scale(flows) <= max_scale(),
    decreases flows.len(),
{
    if i < flows.len() - 1 {
        lemma_max_amount_scale(flows.drop_last(), i);
    }
    lemma_max_amount_scale_bound(flows);
}

proof fn lemma_max_amount_scale_bound(flows: Seq<CashFlowModel>)
    ensures
        max_amount_scale(flows) <= max_scale(),
    decreases flows.len(),
{
    if flows.len() > 0 {
        lemma_max_amount_scale_bound(flows.drop_last());
    }
}

/// Every running total of the amounts fits in a decimal of `s` places.
pub open spec fn running_sums_fit(flows: Seq<CashFlowModel>, s: nat) -> bool {
    forall|j: int|
        0 <= j <= flows.len() ==> -max_mantissa() * pow10((max_scale() - s) as nat) <= #[trigger] sum_units(
            amounts(flows).take(j),
        ) <= max_mantissa() * pow10((max_scale() - s) as nat)
}


proof fn lemma_xirr_equation_is_xnpv(rate: DecimalModel, flows: Seq<CashFlowModel>, first: int, k: nat)
    requires
        k <= flows.len(),
    ensures
        fold_steps((zero_model(), zero_model()), k, xirr_eq_step(rate, flows, first)) matches Ok(p) ==> fold_steps(
            zero_model(),
            k,
            xnpv_step(rate, flows, first),
        ) == Ok::<DecimalModel, ErrorModel>(p.0),
    decreases k,
{
    if k > 0 {
        lemma_xirr_equation_is_xnpv(rate, flows, first, (k - 1) as nat);
        let a = fold_steps((zero_model(), zero_model()), (k - 1) as nat, xirr_eq_step(rate, flows, first));
        if let Ok(acc) = a {
            let t = k - 1;
            assert(fold_steps((zero_model(), zero_model()), k, xirr_eq_step(rate, flows, first)) == xirr_eq_step(
                rate,
                flows,
                first,
            )(t, acc));
            assert(fold_steps(zero_model(), k, xnpv_step(rate, flows, first)) == xnpv_step(rate, flows, first)(
                t,
                acc.0,
            ));
        }
    }
}

/// A guess at which the dated net present value is already zero is the
/// XIRR returned: when [`xnpv`] at the configured guess `g`, with every
/// flow discounted by `(1 + g)^(days / 365)` over its exact day count, is
/// within `eps` of zero, and the equation's derivative can be evaluated
/// there, [`xirr`] returns `g` itself.
pub proof fn law_xirr_keeps_a_root_guess(flows: Seq<CashFlowModel>, config: Config)
    requires
        mixed_signs(flows),
        config.max_iterations > 0,
        xnpv_model(config.guess@, flows) matches Ok(v) && below(v, config.eps@),
        first_date_from(flows, 0) matches Some(first) && xirr_eqd_fn(flows, first)(config.guess@) is Ok,
    ensures
        xirr_model(flows, config) == Ok::<DecimalModel, ErrorModel>(config.guess@),
{
    let first = first_date_from(flows, 0)->Some_0;
    lemma_xirr_equation_is_xnpv(config.guess@, flows, first, flows.len());
}

} // verus!

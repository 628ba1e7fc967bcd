//! Depreciation: straight-line and double-declining balance.

use vstd::prelude::*;

use crate::decimal::{
    decimal_div, decimal_mul, decimal_sub, int_model, quotient_is_exact, zero_model, Decimal, DecimalModel,
};
use crate::error::{
    fold_steps, invalid_input_model, lemma_fold_error_stays, ok_or_div_zero, ok_or_overflow, or_div_zero,
    or_overflow, result_view, then, CasifinError, ErrorModel,
};
use crate::money::{sum_units, Money};

verus! {

broadcast use vstd::string::group_string_axioms;

/// `Ok` with the amounts' views, or the error's view.
pub open spec fn amounts_result_view(r: Result<Vec<Money>, CasifinError>) -> Result<Seq<DecimalModel>, ErrorModel> {
    match r {
        Ok(v) => Ok(v@.map_values(|m: Money| m@)),
        Err(e) => Err(e@),
    }
}

/// The checks every method makes first: the cost may not be below the
/// salvage value, the life may not be zero, and the period must lie in
/// `1..=life_years`.
pub open spec fn depreciation_args_model(
    cost: DecimalModel,
    salvage: DecimalModel,
    life_years: u32,
    period: u32,
) -> Result<(), ErrorModel> {
    if cost.units() < salvage.units() {
        Err(invalid_input_model("cost must be >= salvage"))
    } else if life_years == 0 {
        Err(ErrorModel::InvalidPeriod(0))
    } else if period == 0 || period > life_years {
        Err(ErrorModel::InvalidPeriod(period))
    } else {
        Ok(())
    }
}

fn check_depreciation_args(cost: Money, salvage: Money, life_years: u32, period: u32) -> (res: Result<
    (),
    CasifinError,
>)
    ensures
        result_view(res) == depreciation_args_model(cost@, salvage@, life_years, period),
{
    if cost.lt(&salvage) {
        return Err(CasifinError::invalid_input("cost must be >= salvage"));
    }
    if life_years == 0 {
        return Err(CasifinError::InvalidPeriod(0));
    }
    if period == 0 || period > life_years {
        return Err(CasifinError::InvalidPeriod(period));
    }
    Ok(())
}

/// Step `t` of a schedule: append the depreciation of period `t + 1`.
pub open spec fn schedule_step(per_period: spec_fn(u32) -> Result<DecimalModel, ErrorModel>) -> spec_fn(
    int,
    Seq<DecimalModel>,
) -> Result<Seq<DecimalModel>, ErrorModel> {
    |t: int, acc: Seq<DecimalModel>| then(per_period((t + 1) as u32), |d: DecimalModel| Ok(acc.push(d)))
}

/// What a schedule returns: a zero life is refused; otherwise the
/// depreciation `per_period(p)` of every period `p` in `1..=life_years`, in order.
pub open spec fn schedule_model(per_period: spec_fn(u32) -> Result<DecimalModel, ErrorModel>, life_years: u32) -> Result<
    Seq<DecimalModel>,
    ErrorModel,
> {
    if life_years == 0 {
        Err(ErrorModel::InvalidPeriod(0))
    } else {
        fold_steps(Seq::empty(), life_years as nat, schedule_step(per_period))
    }
}

/// A depreciation method.
pub trait DepreciationMethod: Sized {
    /// What [`DepreciationMethod::depreciate`] returns.
    spec fn depreciation_model(
        &self,
        cost: DecimalModel,
        salvage: DecimalModel,
        life_years: u32,
        period: u32,
    ) -> Result<DecimalModel, ErrorModel>;

    /// The depreciation of period `period` (from 1) of an asset of cost
    /// `cost`, salvage value `salvage` and life `life_years`.
    fn depreciate(&self, cost: Money, salvage: Money, life_years: u32, period: u32) -> (res: Result<
        Money,
        CasifinError,
    >)
        ensures
            result_view(res) == self.depreciation_model(cost@, salvage@, life_years, period),
    ;

    /// The depreciation of every period `1..=life_years`, in order; a zero
    /// life is refused, and the first failing period's error is returned.
    fn schedule(&self, cost: Money, salvage: Money, life_years: u32) -> (res: Result<Vec<Money>, CasifinError>)
        ensures
            amounts_result_view(res) == schedule_model(
                |p: u32| self.depreciation_model(cost@, salvage@, life_years, p),
                life_years,
            ),
    {
        if life_years == 0 {
            return Err(CasifinError::InvalidPeriod(0));
        }
        let ghost step = schedule_step(|p: u32| self.depreciation_model(cost@, salvage@, life_years, p));
        let mut schedule: Vec<Money> = Vec::new();
        assert(schedule@.map_values(|m: Money| m@) =~= Seq::<DecimalModel>::empty());
        let mut t: u32 = 0;
        while t < life_years
            invariant
                life_years > 0,
                0 <= t <= life_years,
                step == schedule_step(|p: u32| self.depreciation_model(cost@, salvage@, life_years, p)),
                fold_steps(Seq::empty(), t as nat, step) == Ok::<Seq<DecimalModel>, ErrorModel>(
                    schedule@.map_values(|m: Money| m@),
                ),
            decreases life_years - t,
        {
            let r = self.depreciate(cost, salvage, life_years, t + 1);
            assert(fold_steps(Seq::empty(), (t + 1) as nat, step) == step(
                t as int,
                schedule@.map_values(|m: Money| m@),
            ));
            match r {
                Ok(d) => {
                    let ghost before = schedule@;
                    schedule.push(d);
                    assert(schedule@.map_values(|m: Money| m@) =~= before.map_values(|m: Money| m@).push(d@));
                },
                Err(e) => {
                    proof {
                        lemma_fold_error_stays(Seq::empty(), (t + 1) as nat, life_years as nat, step);
                    }
                    return Err(e);
                },
            }
            t = t + 1;
        }
        Ok(schedule)
    }
}

// ---------------------------------------------------------------------------
// Straight-line
// ---------------------------------------------------------------------------

/// Straight-line depreciation: `(cost - salvage) / life` every period.
#[derive(Debug, Clone, Copy, Default)]
pub struct StraightLine;

/// What straight-line depreciation returns for a valid period.
pub open spec fn straight_line_model(cost: DecimalModel, salvage: DecimalModel, life_years: u32) -> Result<
    DecimalModel,
    ErrorModel,
> {
    then(
        or_overflow(decimal_sub(cost, salvage), "straight_line_depreciation: base overflow"),
        |base: DecimalModel|
            or_div_zero(decimal_div(base, int_model(life_years as int)), "straight_line_depreciation"),
    )
}

/// `cost - salvage` is computed exactly and divides by `life_years` exactly.
pub open spec fn straight_line_exact(cost: DecimalModel, salvage: DecimalModel, life_years: u32) -> bool {
    decimal_sub(cost, salvage) matches Some(base) && base.units() == cost.units() - salvage.units()
        && quotient_is_exact(base, int_model(life_years as int))
}

impl DepreciationMethod for StraightLine {
    open spec fn depreciation_model(
        &self,
        cost: DecimalModel,
        salvage: DecimalModel,
        life_years: u32,
        period: u32,
    ) -> Result<DecimalModel, ErrorModel> {
        then(
            depreciation_args_model(cost, salvage, life_years, period),
            |u: ()| straight_line_model(cost, salvage, life_years),
        )
    }

    /// `(cost - salvage) / life_years`; when the division is exact, `life_years`
    /// times the result is exactly `cost - salvage`.
    fn depreciate(&self, cost: Money, salvage: Money, life_years: u32, period: u32) -> (res: Result<
        Money,
        CasifinError,
    >)
        ensures
            depreciation_args_model(cost@, salvage@, life_years, period) is Ok && straight_line_exact(
                cost@,
                salvage@,
                life_years,
            ) ==> (res matches Ok(d) && d@.units() * life_years == cost@.units() - salvage@.units()),
    {
        check_depreciation_args(cost, salvage, life_years, period)?;
        let base = ok_or_overflow(
            cost.inner().checked_sub(salvage.inner()),
            "straight_line_depreciation: base overflow",
        )?;
        let d = ok_or_div_zero(base.checked_div(Decimal::from_u32(life_years)), "straight_line_depreciation")?;
        proof {
            if quotient_is_exact(base@, int_model(life_years as int)) {
                lemma_exact_quotient_times(base@, life_years as int);
            }
        }
        Ok(Money::from_decimal(d))
    }

    /// `(cost - salvage) / life_years` for each of the `life_years` periods;
    /// when that division is exact, the schedule adds up to exactly
    /// `cost - salvage`.
    fn schedule(&self, cost: Money, salvage: Money, life_years: u32) -> (res: Result<Vec<Money>, CasifinError>)
        ensures
            amounts_result_view(res) == schedule_model(
                |p: u32| self.depreciation_model(cost@, salvage@, life_years, p),
                life_years,
            ),
            life_years > 0 && cost@.units() >= salvage@.units() && straight_line_exact(cost@, salvage@, life_years)
                ==> (res matches Ok(v) && v.len() == life_years && sum_units(v@.map_values(|m: Money| m@))
                == cost@.units() - salvage@.units()),
    {
        if life_years == 0 {
            return Err(CasifinError::InvalidPeriod(0));
        }
        let ghost step = schedule_step(|p: u32| self.depreciation_model(cost@, salvage@, life_years, p));
        let mut schedule: Vec<Money> = Vec::new();
        assert(schedule@.map_values(|m: Money| m@) =~= Seq::<DecimalModel>::empty());
        let mut t: u32 = 0;
        while t < life_years
            invariant
                life_years > 0,
                0 <= t <= life_years,
                step == schedule_step(|p: u32| self.depreciation_model(cost@, salvage@, life_years, p)),
                fold_steps(Seq::empty(), t as nat, step) == Ok::<Seq<DecimalModel>, ErrorModel>(
                    schedule@.map_values(|m: Money| m@),
                ),
                t > 0 && cost@.units() >= salvage@.units() && straight_line_exact(cost@, salvage@, life_years)
                    ==> (straight_line_model(cost@, salvage@, life_years) matches Ok(d) && d.units() * life_years
                    == cost@.units() - salvage@.units()),
            decreases life_years - t,
        {
            let r = self.depreciate(cost, salvage, life_years, t + 1);
            assert(fold_steps(Seq::empty(), (t + 1) as nat, step) == step(
                t as int,
                schedule@.map_values(|m: Money| m@),
            ));
            match r {
                Ok(d) => {
                    let ghost before = schedule@;
                    schedule.push(d);
                    assert(schedule@.map_values(|m: Money| m@) =~= before.map_values(|m: Money| m@).push(d@));
                },
                Err(e) => {
                    proof {
                        lemma_fold_error_stays(Seq::empty(), (t + 1) as nat, life_years as nat, step);
                    }
                    return Err(e);
                },
            }
            t = t + 1;
        }
        proof {
            if cost@.units() >= salvage@.units() && straight_line_exact(cost@, salvage@, life_years) {
                let d = straight_line_model(cost@, salvage@, life_years)->Ok_0;
                law_straight_line_schedule_is_constant(cost@, salvage@, life_years);
                assert(*self == StraightLine);
                assert((|p: u32| self.depreciation_model(cost@, salvage@, life_years, p)) =~= (|p: u32|
                    StraightLine.depreciation_model(cost@, salvage@, life_years, p)));
                assert(schedule@.map_values(|m: Money| m@) == Seq::new(life_years as nat, |i: int| d));
                lemma_sum_units_constant(d, life_years as nat);
                assert(life_years * d.units() == d.units() * life_years) by (nonlinear_arith);
            }
        }
        Ok(schedule)
    }
}

/// `n` copies of `d` add up to `n` times `d`.
proof fn lemma_sum_units_constant(d: DecimalModel, n: nat)
    ensures
        sum_units(Seq::new(n, |i: int| d)) == n * d.units(),
    decreases n,
{
    if n > 0 {
        lemma_sum_units_constant(d, (n - 1) as nat);
        let s = Seq::new(n, |i: int| d);
        assert(s.drop_last() =~= Seq::new((n - 1) as nat, |i: int| d));
        assert(s.last() == d);
        assert(sum_units(s) == sum_units(s.drop_last()) + d.units());
        assert((n - 1) * d.units() + d.units() == n * d.units()) by (nonlinear_arith);
    }
}

/// An exact quotient by `n` times `n` gives back the dividend.
proof fn lemma_exact_quotient_times(a: DecimalModel, n: int)
    requires
        quotient_is_exact(a, int_model(n)),
    ensures
        crate::decimal::exact_quotient(a, int_model(n)) * n == a.units(),
{
    let p = crate::decimal::pow10(crate::decimal::max_scale());
    crate::decimal::lemma_pow10_pos(crate::decimal::max_scale());
    let b = int_model(n).units();
    assert(b == n * p);
    let q = (a.units() * p) / b;
    assert(q * b == a.units() * p) by (nonlinear_arith)
        requires
            (a.units() * p) % b == 0,
            b != 0,
            q == (a.units() * p) / b,
    ;
    assert(q * n == a.units()) by (nonlinear_arith)
        requires
            q * b == a.units() * p,
            b == n * p,
            p > 0,
    ;
}

} // verus!

verus! {

// ---------------------------------------------------------------------------
// Double-declining balance
// ---------------------------------------------------------------------------

/// Double-declining balance depreciation: twice the straight-line rate on
/// the book value, never below the salvage value, switching to straight-line
/// on the remaining book value once that gives more.
#[derive(Debug, Clone, Copy, Default)]
pub struct DoubleDecliningBalance;

/// The rate `2 / life_years`.
pub open spec fn ddb_rate_model(life_years: u32) -> Result<DecimalModel, ErrorModel> {
    or_div_zero(decimal_div(int_model(2), int_model(life_years as int)), "ddb rate")
}

/// `dep` limited to `remaining`.
pub open spec fn limited_model(dep: DecimalModel, remaining: DecimalModel) -> DecimalModel {
    if dep.units() > remaining.units() {
        remaining
    } else {
        dep
    }
}

/// The depreciation of `period` for a book value `book_value` at its start:
/// the declining-balance amount `book_value * 2 / life_years`, at most the
/// book value above salvage, or the straight-line share of that remainder
/// over the years left (`life_years - period + 1`; none outside
/// `1..=life_years`) when that share is larger.
pub open spec fn period_depreciation_model(
    book_value: DecimalModel,
    salvage: DecimalModel,
    life_years: u32,
    period: u32,
) -> Result<DecimalModel, ErrorModel> {
    then(
        ddb_rate_model(life_years),
        |rate: DecimalModel|
            then(
                or_overflow(decimal_mul(book_value, rate), "ddb: depreciation overflow"),
                |dep: DecimalModel|
                    then(
                        or_overflow(decimal_sub(book_value, salvage), "ddb: remaining overflow"),
                        |remaining: DecimalModel|
                            {
                                let limited = limited_model(dep, remaining);
                                then(
                                    if 1 <= period <= life_years {
                                        or_overflow(
                                            decimal_div(remaining, int_model(life_years - period + 1)),
                                            "ddb: straight-line overflow",
                                        )
                                    } else {
                                        Ok(zero_model())
                                    },
                                    |straight: DecimalModel|
                                        if straight.units() > limited.units() {
                                            Ok(straight)
                                        } else {
                                            Ok(limited)
                                        },
                                )
                            },
                    ),
            ),
    )
}

/// Year `t + 1` of the book value: its depreciation, with the switch to
/// straight-line, taken off the book value.
pub open spec fn book_value_step(salvage: DecimalModel, life_years: u32) -> spec_fn(int, DecimalModel) -> Result<
    DecimalModel,
    ErrorModel,
> {
    |t: int, book_value: DecimalModel|
        then(
            period_depreciation_model(book_value, salvage, life_years, (t + 1) as u32),
            |d: DecimalModel| or_overflow(decimal_sub(book_value, d), "ddb: book value overflow"),
        )
}

/// The book value at the start of `period`: the cost less the depreciation
/// of each of the `period - 1` years before it.
pub open spec fn book_value_model(cost: DecimalModel, salvage: DecimalModel, life_years: u32, period: u32) -> Result<
    DecimalModel,
    ErrorModel,
> {
    fold_steps(cost, if period >= 1 { (period - 1) as nat } else { 0 }, book_value_step(salvage, life_years))
}

/// What double-declining balance returns for `period`.
pub open spec fn ddb_depreciation_model(cost: DecimalModel, salvage: DecimalModel, life_years: u32, period: u32) -> Result<
    DecimalModel,
    ErrorModel,
> {
    then(
        depreciation_args_model(cost, salvage, life_years, period),
        |u: ()|
            then(
                book_value_model(cost, salvage, life_years, period),
                |book_value: DecimalModel| period_depreciation_model(book_value, salvage, life_years, period),
            ),
    )
}

/// Every year's subtractions are exact (see [`ddb_year_exact`]) for an asset
/// that costs at least its salvage value.
pub open spec fn ddb_exact(cost: DecimalModel, salvage: DecimalModel, life_years: u32) -> bool {
    &&& cost.units() >= salvage.units()
    &&& forall|p: u32| 1 <= p <= life_years ==> #[trigger] ddb_year_exact(cost, salvage, life_years, p)
}

/// Every amount is at least zero and no running total exceeds `bound`.
pub open spec fn ddb_amounts_within(amounts: Seq<DecimalModel>, bound: int) -> bool {
    &&& forall|i: int| 0 <= i < amounts.len() ==> (#[trigger] amounts[i]).units() >= 0
    &&& forall|k: int| 0 <= k <= amounts.len() ==> #[trigger] sum_units(amounts.take(k)) <= bound
}

/// The book value lies at or above the salvage value, and the part above
/// it is computed exactly.
pub open spec fn remaining_exact(book_value: DecimalModel, salvage: DecimalModel) -> bool {
    &&& book_value.units() >= salvage.units()
    &&& decimal_sub(book_value, salvage) matches Some(rem) && rem.units() == book_value.units() - salvage.units()
}

/// `dep` limited to `remaining`.
fn limit(dep: Decimal, remaining: Decimal) -> (r: Decimal)
    ensures
        r@ == limited_model(dep@, remaining@),
{
    if dep.gt(&remaining) {
        remaining
    } else {
        dep
    }
}

/// The depreciation of `period` for a book value `book_value`; see
/// [`period_depreciation_model`].
fn period_depreciation(book_value: Decimal, salvage: Decimal, life_years: u32, period: u32) -> (res: Result<
    Decimal,
    CasifinError,
>)
    ensures
        result_view(res) == period_depreciation_model(book_value@, salvage@, life_years, period),
        res matches Ok(d) ==> (remaining_exact(book_value@, salvage@) ==> 0 <= d@.units() <= book_value@.units()
            - salvage@.units()),
{
    let rate = DoubleDecliningBalance::rate(life_years)?;
    let dep = ok_or_overflow(book_value.checked_mul(rate), "ddb: depreciation overflow")?;
    let remaining = ok_or_overflow(book_value.checked_sub(salvage), "ddb: remaining overflow")?;
    let limited = limit(dep, remaining);
    let straight = if 1 <= period && period <= life_years {
        let years_left = Decimal::from_u32(life_years - period + 1);
        proof {
            let p = crate::decimal::pow10(28);
            crate::decimal::lemma_pow10_pos(28);
            assert(years_left@.units() > 0) by (nonlinear_arith)
                requires
                    years_left@.units() == years_left@.mantissa * p,
                    years_left@.mantissa >= 1,
                    p > 0,
            ;
        }
        ok_or_overflow(remaining.checked_div(years_left), "ddb: straight-line overflow")?
    } else {
        Decimal::zero()
    };
    proof {
        crate::decimal::lemma_units_sign(straight@);
        crate::decimal::lemma_units_sign(zero_model());
    }
    if straight.gt(&limited) {
        Ok(straight)
    } else {
        Ok(limited)
    }
}

impl DoubleDecliningBalance {
    /// The rate `2 / life_years`.
    fn rate(life_years: u32) -> (res: Result<Decimal, CasifinError>)
        ensures
            result_view(res) == ddb_rate_model(life_years),
    {
        ok_or_div_zero(Decimal::from_u32(2).checked_div(Decimal::from_u32(life_years)), "ddb rate")
    }

    /// The book value at the start of `period`: the cost less the
    /// depreciation of each year before it, the switch to straight-line
    /// included.
    pub fn book_value_at_period(cost: Money, salvage: Money, life_years: u32, period: u32) -> (res: Result<
        Money,
        CasifinError,
    >)
        ensures
            result_view(res) == book_value_model(cost@, salvage@, life_years, period),
    {
        let ghost step = book_value_step(salvage@, life_years);
        let mut book_value = cost.inner();
        let mut t: u32 = 1;
        while t < period
            invariant
                1 <= t,
                t <= period || t == 1,
                step == book_value_step(salvage@, life_years),
                fold_steps(cost@, (t - 1) as nat, step) == Ok::<DecimalModel, ErrorModel>(book_value@),
            decreases period - t,
        {
            let r = book_value_year(book_value, salvage.inner(), life_years, t);
            assert(fold_steps(cost@, t as nat, step) == step((t - 1) as int, book_value@));
            match r {
                Ok(b) => {
                    book_value = b;
                },
                Err(e) => {
                    proof {
                        lemma_fold_error_stays(cost@, t as nat, (period - 1) as nat, step);
                    }
                    return Err(e);
                },
            }
            t = t + 1;
        }
        assert(t == period || (period == 0 && t == 1));
        assert(book_value_model(cost@, salvage@, life_years, period) == fold_steps(
            cost@,
            (t - 1) as nat,
            book_value_step(salvage@, life_years),
        ));
        Ok(Money::from_decimal(book_value))
    }
}

fn book_value_year(book_value: Decimal, salvage: Decimal, life_years: u32, period: u32) -> (res: Result<
    Decimal,
    CasifinError,
>)
    requires
        period >= 1,
    ensures
        result_view(res) == book_value_step(salvage@, life_years)((period - 1) as int, book_value@),
{
    let d = period_depreciation(book_value, salvage, life_years, period)?;
    ok_or_overflow(book_value.checked_sub(d), "ddb: book value overflow")
}

impl DepreciationMethod for DoubleDecliningBalance {
    open spec fn depreciation_model(
        &self,
        cost: DecimalModel,
        salvage: DecimalModel,
        life_years: u32,
        period: u32,
    ) -> Result<DecimalModel, ErrorModel> {
        ddb_depreciation_model(cost, salvage, life_years, period)
    }

    /// `book_value * 2 / life_years`, at most the book value above salvage,
    /// or the straight-line share of that remainder over the years left when
    /// that is larger; the book value is the cost less the depreciation of
    /// the years before, so once the switch happens it carries on.
    fn depreciate(&self, cost: Money, salvage: Money, life_years: u32, period: u32) -> (res: Result<
        Money,
        CasifinError,
    >)
        ensures
            res matches Ok(d) ==> (book_value_model(cost@, salvage@, life_years, period) matches Ok(bv) ==> (
            remaining_exact(bv, salvage@) ==> 0 <= d@.units() <= bv.units() - salvage@.units())),
    {
        check_depreciation_args(cost, salvage, life_years, period)?;
        let book_value = Self::book_value_at_period(cost, salvage, life_years, period)?.inner();
        let d = period_depreciation(book_value, salvage.inner(), life_years, period)?;
        Ok(Money::from_decimal(d))
    }

    /// The depreciation of each of the `life_years` periods.  When every
    /// year's subtractions are exact, each amount is at least zero and no
    /// running total exceeds `cost - salvage`, so the book value never falls
    /// below the salvage value.
    fn schedule(&self, cost: Money, salvage: Money, life_years: u32) -> (res: Result<Vec<Money>, CasifinError>)
        ensures
            amounts_result_view(res) == schedule_model(
                |p: u32| self.depreciation_model(cost@, salvage@, life_years, p),
                life_years,
            ),
            ddb_exact(cost@, salvage@, life_years) ==> (res matches Ok(v) ==> ddb_amounts_within(
                v@.map_values(|m: Money| m@),
                cost@.units() - salvage@.units(),
            )),
    {
        if life_years == 0 {
            return Err(CasifinError::InvalidPeriod(0));
        }
        let ghost per_period = |p: u32| self.depreciation_model(cost@, salvage@, life_years, p);
        let ghost step = schedule_step(per_period);
        let ghost bstep = book_value_step(salvage@, life_years);
        let ghost bound = cost@.units() - salvage@.units();
        let mut schedule: Vec<Money> = Vec::new();
        assert(schedule@.map_values(|m: Money| m@) =~= Seq::<DecimalModel>::empty());
        let mut t: u32 = 0;
        while t < life_years
            invariant
                life_years > 0,
                0 <= t <= life_years,
                per_period == (|p: u32| self.depreciation_model(cost@, salvage@, life_years, p)),
                step == schedule_step(per_period),
                bstep == book_value_step(salvage@, life_years),
                bound == cost@.units() - salvage@.units(),
                fold_steps(Seq::empty(), t as nat, step) == Ok::<Seq<DecimalModel>, ErrorModel>(
                    schedule@.map_values(|m: Money| m@),
                ),
                schedule@.len() == t,
                ddb_exact(cost@, salvage@, life_years) ==> (fold_steps(cost@, t as nat, bstep) matches Ok(bv) && (
                bv.units() >= salvage@.units() && sum_units(schedule@.map_values(|m: Money| m@)) == cost@.units()
                    - bv.units() && ddb_amounts_within(schedule@.map_values(|m: Money| m@), bound))),
            decreases life_years - t,
        {
            let r = self.depreciate(cost, salvage, life_years, t + 1);
            assert(fold_steps(Seq::empty(), (t + 1) as nat, step) == step(
                t as int,
                schedule@.map_values(|m: Money| m@),
            ));
            match r {
                Ok(d) => {
                    let ghost before = schedule@.map_values(|m: Money| m@);
                    schedule.push(d);
                    let ghost after = schedule@.map_values(|m: Money| m@);
                    assert(after =~= before.push(d@));
                    proof {
                        if ddb_exact(cost@, salvage@, life_years) {
                            let bv = fold_steps(cost@, t as nat, bstep)->Ok_0;
                            let p = (t + 1) as u32;
                            assert(book_value_model(cost@, salvage@, life_years, p) == fold_steps(cost@, t as nat, bstep));
                            assert(ddb_year_exact(cost@, salvage@, life_years, p));
                            assert(remaining_exact(bv, salvage@));
                            assert(0 <= d@.units() <= bv.units() - salvage@.units());
                            assert(period_depreciation_model(bv, salvage@, life_years, p) == Ok::<DecimalModel, ErrorModel>(d@));
                            assert(fold_steps(cost@, (t + 1) as nat, bstep) == bstep(t as int, bv));
                            assert(after.drop_last() =~= before);
                            assert forall|k: int| 0 <= k <= after.len() implies #[trigger] sum_units(after.take(k)) <= bound by {
                                if k < after.len() {
                                    assert(after.take(k) =~= before.take(k));
                                } else {
                                    assert(after.take(k) =~= after);
                                }
                            }
                        }
                    }
                },
                Err(e) => {
                    proof {
                        lemma_fold_error_stays(Seq::empty(), (t + 1) as nat, life_years as nat, step);
                    }
                    return Err(e);
                },
            }
            t = t + 1;
        }
        Ok(schedule)
    }
}

} // verus!

verus! {

proof fn lemma_straight_line_prefix(cost: DecimalModel, salvage: DecimalModel, life_years: u32, d: DecimalModel, k: nat)
    requires
        k <= life_years,
        cost.units() >= salvage.units(),
        life_years > 0,
        straight_line_model(cost, salvage, life_years) == Ok::<DecimalModel, ErrorModel>(d),
    ensures
        fold_steps(
            Seq::<DecimalModel>::empty(),
            k,
            schedule_step(|p: u32| StraightLine.depreciation_model(cost, salvage, life_years, p)),
        ) == Ok::<Seq<DecimalModel>, ErrorModel>(Seq::new(k, |i: int| d)),
    decreases k,
{
    let per_period = |p: u32| StraightLine.depreciation_model(cost, salvage, life_years, p);
    if k == 0 {
        assert(Seq::new(0, |i: int| d) =~= Seq::<DecimalModel>::empty());
    } else {
        lemma_straight_line_prefix(cost, salvage, life_years, d, (k - 1) as nat);
        assert(depreciation_args_model(cost, salvage, life_years, k as u32) == Ok::<(), ErrorModel>(()));
        assert(per_period(k as u32) == Ok::<DecimalModel, ErrorModel>(d));
        assert(((k - 1) + 1) as u32 == k as u32);
        assert(Seq::new((k - 1) as nat, |i: int| d).push(d) =~= Seq::new(k, |i: int| d));
    }
}

/// Straight-line depreciation is the same every year: for a valid asset,
/// the schedule holds `life_years` copies of `(cost - salvage) / life_years`.
pub proof fn law_straight_line_schedule_is_constant(cost: DecimalModel, salvage: DecimalModel, life_years: u32)
    requires
        cost.units() >= salvage.units(),
        life_years > 0,
        straight_line_model(cost, salvage, life_years) is Ok,
    ensures
        schedule_model(|p: u32| StraightLine.depreciation_model(cost, salvage, life_years, p), life_years) == Ok::<
            Seq<DecimalModel>,
            ErrorModel,
        >(Seq::new(life_years as nat, |i: int| straight_line_model(cost, salvage, life_years)->Ok_0)),
{
    lemma_straight_line_prefix(
        cost,
        salvage,
        life_years,
        straight_line_model(cost, salvage, life_years)->Ok_0,
        life_years as nat,
    );
}


/// The subtractions of double-declining year `period` are exact: the book
/// value above salvage, the book value left after the year's depreciation,
/// and, in the last year, the straight-line share of what is left over the
/// one remaining year.
pub open spec fn ddb_year_exact(cost: DecimalModel, salvage: DecimalModel, life_years: u32, period: u32) -> bool {
    book_value_model(cost, salvage, life_years, period) matches Ok(bv) ==> {
        &&& decimal_sub(bv, salvage) matches Some(rem) && rem.units() == bv.units() - salvage.units() && (
        period == life_years ==> (decimal_div(rem, int_model(1)) matches Some(q) && q.units() == rem.units()))
        &&& period_depreciation_model(bv, salvage, life_years, period) matches Ok(d) ==> (decimal_sub(
            bv,
            d,
        ) matches Some(nb) && nb.units() == bv.units() - d.units())
    }
}

proof fn lemma_ddb_prefix(cost: DecimalModel, salvage: DecimalModel, life_years: u32, k: nat)
    requires
        k <= life_years,
        cost.units() >= salvage.units(),
        forall|p: u32| 1 <= p <= life_years ==> #[trigger] ddb_year_exact(cost, salvage, life_years, p),
        fold_steps(
            Seq::<DecimalModel>::empty(),
            k,
            schedule_step(|p: u32| ddb_depreciation_model(cost, salvage, life_years, p)),
        ) is Ok,
    ensures
        ({
            let s = fold_steps(
                Seq::<DecimalModel>::empty(),
                k,
                schedule_step(|p: u32| ddb_depreciation_model(cost, salvage, life_years, p)),
            )->Ok_0;
            &&& s.len() == k
            &&& fold_steps(cost, k, book_value_step(salvage, life_years)) matches Ok(bv) && sum_units(s)
                == cost.units() - bv.units()
        }),
    decreases k,
{
    let per_period = |p: u32| ddb_depreciation_model(cost, salvage, life_years, p);
    let step = schedule_step(per_period);
    if k == 0 {
    } else {
        let prev = fold_steps(Seq::<DecimalModel>::empty(), (k - 1) as nat, step);
        if prev is Err {
            lemma_fold_error_stays(Seq::<DecimalModel>::empty(), (k - 1) as nat, k, step);
        }
        lemma_ddb_prefix(cost, salvage, life_years, (k - 1) as nat);
        let s0 = prev->Ok_0;
        let p = k as u32;
        assert(((k - 1) + 1) as u32 == p);
        let bv = book_value_model(cost, salvage, life_years, p)->Ok_0;
        assert(depreciation_args_model(cost, salvage, life_years, p) == Ok::<(), ErrorModel>(()));
        assert(per_period(p) == period_depreciation_model(bv, salvage, life_years, p));
        let d = period_depreciation_model(bv, salvage, life_years, p)->Ok_0;
        assert(ddb_year_exact(cost, salvage, life_years, p));
        let nb = decimal_sub(bv, d)->Some_0;
        assert(book_value_model(cost, salvage, life_years, p) == fold_steps(
            cost,
            (k - 1) as nat,
            book_value_step(salvage, life_years),
        ));
        assert(book_value_step(salvage, life_years)((k - 1) as int, bv) == Ok::<DecimalModel, ErrorModel>(nb));
        let s = s0.push(d);
        assert(s.drop_last() =~= s0);
    }
}

/// Double-declining balance depreciates exactly the depreciable base: when
/// every year's subtractions are exact, the schedule adds up to
/// `cost - salvage`, because the last year takes what is left above the
/// salvage value.
pub proof fn law_ddb_schedule_total(cost: DecimalModel, salvage: DecimalModel, life_years: u32)
    requires
        cost.units() >= salvage.units(),
        life_years > 0,
        schedule_model(|p: u32| DoubleDecliningBalance.depreciation_model(cost, salvage, life_years, p), life_years) is Ok,
        forall|p: u32| 1 <= p <= life_years ==> #[trigger] ddb_year_exact(cost, salvage, life_years, p),
    ensures
        ({
            let s = schedule_model(
                |p: u32| DoubleDecliningBalance.depreciation_model(cost, salvage, life_years, p),
                life_years,
            )->Ok_0;
            s.len() == life_years && sum_units(s) == cost.units() - salvage.units()
        }),
{
    let per_period = |p: u32| ddb_depreciation_model(cost, salvage, life_years, p);
    assert((|p: u32| DoubleDecliningBalance.depreciation_model(cost, salvage, life_years, p)) =~= per_period);
    lemma_ddb_prefix(cost, salvage, life_years, life_years as nat);
    // The last year takes the whole book value above salvage.
    let n = life_years;
    assert(ddb_year_exact(cost, salvage, life_years, n));
    let bv = book_value_model(cost, salvage, life_years, n)->Ok_0;
    let rem = decimal_sub(bv, salvage)->Some_0;
    let q = decimal_div(rem, int_model(1))->Some_0;
    assert(int_model(1) == int_model(life_years - n + 1));
    let d = period_depreciation_model(bv, salvage, life_years, n)->Ok_0;
    assert(d.units() == rem.units());
    assert(book_value_model(cost, salvage, life_years, n) == fold_steps(
        cost,
        (n - 1) as nat,
        book_value_step(salvage, life_years),
    ));
}

} // verus!

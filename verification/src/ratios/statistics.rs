//! Statistics: coefficient of variation, weighted and harmonic means, and
//! sampling error.

use vstd::prelude::*;

use crate::decimal::{decimal_add, decimal_div, decimal_mul, decimal_sqrt, int_model, one_model, zero_model, Decimal, DecimalModel};
use crate::error::{
    div_zero_model, fold_steps, invalid_input_model, lemma_fold_error_stays, ok_or_div_zero, ok_or_overflow,
    or_div_zero, or_overflow, result_view, then, CasifinError, ErrorModel,
};
use crate::ratios::return_metrics::decimals_view;
use crate::ratios::{ratio, ratio_model};

verus! {

/// Coefficient of variation: `sigma / mean`.  A zero mean is refused.
pub fn coefficient_of_variation(mean: Decimal, std_dev: Decimal) -> (res: Result<Decimal, CasifinError>)
    ensures
        result_view(res) == ratio_model(std_dev@, mean@, "coefficient_of_variation"),
{
    ratio(std_dev, mean, "coefficient_of_variation")
}

/// Coefficient of variance: `sigma / mean`, as [`coefficient_of_variation`]
/// with its own error name.  A zero mean is refused.
pub fn coefficient_of_variance(mean: Decimal, std_dev: Decimal) -> (res: Result<Decimal, CasifinError>)
    ensures
        result_view(res) == ratio_model(std_dev@, mean@, "coefficient_of_variance"),
{
    ratio(std_dev, mean, "coefficient_of_variance")
}

/// Step `t` of a weighted mean: add `values[t] * weights[t]` to the
/// weighted sum and `weights[t]` to the sum of weights.
pub open spec fn weighted_step(values: Seq<DecimalModel>, weights: Seq<DecimalModel>) -> spec_fn(
    int,
    (DecimalModel, DecimalModel),
) -> Result<(DecimalModel, DecimalModel), ErrorModel> {
    |t: int, acc: (DecimalModel, DecimalModel)|
        then(
            or_overflow(decimal_mul(values[t], weights[t]), "weighted_mean: weighted term overflow"),
            |term: DecimalModel|
                then(
                    or_overflow(decimal_add(acc.0, term), "weighted_mean: weighted sum overflow"),
                    |weighted_sum: DecimalModel|
                        then(
                            or_overflow(decimal_add(acc.1, weights[t]), "weighted_mean: weight sum overflow"),
                            |weight_sum: DecimalModel| Ok((weighted_sum, weight_sum)),
                        ),
                ),
        )
}

/// What [`weighted_mean`] returns: lists of different lengths are refused;
/// otherwise `sum(w_i x_i) / sum(w_i)`, refused when the weights add up to zero.
pub open spec fn weighted_mean_model(values: Seq<DecimalModel>, weights: Seq<DecimalModel>) -> Result<
    DecimalModel,
    ErrorModel,
> {
    if values.len() != weights.len() {
        Err(invalid_input_model("values and weights must have the same length"))
    } else {
        then(
            fold_steps((zero_model(), zero_model()), values.len(), weighted_step(values, weights)),
            |sums: (DecimalModel, DecimalModel)| ratio_model(sums.0, sums.1, "weighted_mean"),
        )
    }
}

/// Weighted mean: `sum(w_i x_i) / sum(w_i)`.
pub fn weighted_mean(values: &[Decimal], weights: &[Decimal]) -> (res: Result<Decimal, CasifinError>)
    ensures
        result_view(res) == weighted_mean_model(decimals_view(values), decimals_view(weights)),
{
    if values.len() != weights.len() {
        return Err(CasifinError::invalid_input("values and weights must have the same length"));
    }
    let ghost step = weighted_step(decimals_view(values), decimals_view(weights));
    let ghost init = (zero_model(), zero_model());
    let mut weighted_sum = Decimal::zero();
    let mut weight_sum = Decimal::zero();
    let mut t: usize = 0;
    while t < values.len()
        invariant
            values@.len() == weights@.len(),
            0 <= t <= values.len(),
            step == weighted_step(decimals_view(values), decimals_view(weights)),
            init == (zero_model(), zero_model()),
            fold_steps(init, t as nat, step) == Ok::<(DecimalModel, DecimalModel), ErrorModel>(
                (weighted_sum@, weight_sum@),
            ),
        decreases values.len() - t,
    {
        assert(decimals_view(values)[t as int] == values@[t as int]@);
        assert(decimals_view(weights)[t as int] == weights@[t as int]@);
        assert(fold_steps(init, (t + 1) as nat, step) == step(t as int, (weighted_sum@, weight_sum@)));
        let next = weighted_one(values[t], weights[t], weighted_sum, weight_sum);
        match next {
            Ok(x) => {
                weighted_sum = x.0;
                weight_sum = x.1;
            },
            Err(e) => {
                proof {
                    lemma_fold_error_stays(init, (t + 1) as nat, values@.len(), step);
                }
                return Err(e);
            },
        }
        t = t + 1;
    }
    ratio(weighted_sum, weight_sum, "weighted_mean")
}

fn weighted_one(value: Decimal, weight: Decimal, weighted_sum: Decimal, weight_sum: Decimal) -> (res: Result<
    (Decimal, Decimal),
    CasifinError,
>)
    ensures
        result_view(res) == weighted_step(seq![value@], seq![weight@])(0, (weighted_sum@, weight_sum@)),
{
    let term = ok_or_overflow(value.checked_mul(weight), "weighted_mean: weighted term overflow")?;
    let ws = ok_or_overflow(weighted_sum.checked_add(term), "weighted_mean: weighted sum overflow")?;
    let w = ok_or_overflow(weight_sum.checked_add(weight), "weighted_mean: weight sum overflow")?;
    Ok((ws, w))
}

/// Step `t` of a harmonic mean: a zero value is refused; otherwise add
/// `1 / values[t]`.
pub open spec fn reciprocal_step(values: Seq<DecimalModel>) -> spec_fn(int, DecimalModel) -> Result<
    DecimalModel,
    ErrorModel,
> {
    |t: int, total: DecimalModel|
        if values[t].units() == 0 {
            Err(div_zero_model("harmonic_mean"))
        } else {
            then(
                or_div_zero(decimal_div(one_model(), values[t]), "harmonic_mean reciprocal"),
                |reciprocal: DecimalModel|
                    or_overflow(decimal_add(total, reciprocal), "harmonic_mean: reciprocal sum overflow"),
            )
        }
}

/// What [`harmonic_mean`] returns: an empty list and a zero value are
/// refused; otherwise `n / sum(1 / x_i)`.
pub open spec fn harmonic_mean_model(values: Seq<DecimalModel>) -> Result<DecimalModel, ErrorModel> {
    if values.len() == 0 {
        Err(ErrorModel::InsufficientCashFlows)
    } else {
        then(
            fold_steps(zero_model(), values.len(), reciprocal_step(values)),
            |sum: DecimalModel|
                or_div_zero(decimal_div(int_model(values.len() as int), sum), "harmonic_mean"),
        )
    }
}

/// Harmonic mean: `n / sum(1 / x_i)`.
pub fn harmonic_mean(values: &[Decimal]) -> (res: Result<Decimal, CasifinError>)
    ensures
        result_view(res) == harmonic_mean_model(decimals_view(values)),
{
    if values.len() == 0 {
        return Err(CasifinError::InsufficientCashFlows);
    }
    let n = Decimal::from_usize(values.len());
    let ghost step = reciprocal_step(decimals_view(values));
    let mut total = Decimal::zero();
    let mut t: usize = 0;
    while t < values.len()
        invariant
            0 <= t <= values.len(),
            step == reciprocal_step(decimals_view(values)),
            fold_steps(zero_model(), t as nat, step) == Ok::<DecimalModel, ErrorModel>(total@),
        decreases values.len() - t,
    {
        assert(decimals_view(values)[t as int] == values@[t as int]@);
        assert(fold_steps(zero_model(), (t + 1) as nat, step) == step(t as int, total@));
        let next = if values[t].is_zero() {
            Err(CasifinError::div_zero("harmonic_mean"))
        } else {
            match Decimal::one().checked_div(values[t]) {
                Some(reciprocal) => match total.checked_add(reciprocal) {
                    Some(x) => Ok(x),
                    None => Err(CasifinError::overflow("harmonic_mean: reciprocal sum overflow")),
                },
                None => Err(CasifinError::div_zero("harmonic_mean reciprocal")),
            }
        };
        match next {
            Ok(x) => {
                total = x;
            },
            Err(e) => {
                proof {
                    lemma_fold_error_stays(zero_model(), (t + 1) as nat, values@.len(), step);
                }
                return Err(e);
            },
        }
        t = t + 1;
    }
    ok_or_div_zero(n.checked_div(total), "harmonic_mean")
}

/// What [`sampling_error`] returns: a zero sample is refused; otherwise
/// `sigma / sqrt(n)`.
pub open spec fn sampling_error_model(population_std_dev: DecimalModel, sample_size: u32) -> Result<
    DecimalModel,
    ErrorModel,
> {
    if sample_size == 0 {
        Err(div_zero_model("sampling_error"))
    } else {
        match decimal_sqrt(int_model(sample_size as int)) {
            None => Err(invalid_input_model("sampling_error: sqrt failed")),
            Some(root) => or_div_zero(decimal_div(population_std_dev, root), "sampling_error"),
        }
    }
}

/// Sampling error: `sigma / sqrt(n)`.
pub fn sampling_error(population_std_dev: Decimal, sample_size: u32) -> (res: Result<Decimal, CasifinError>)
    ensures
        result_view(res) == sampling_error_model(population_std_dev@, sample_size),
{
    if sample_size == 0 {
        return Err(CasifinError::div_zero("sampling_error"));
    }
    let root = match Decimal::sqrt_of_count(sample_size) {
        Some(r) => r,
        None => {
            return Err(CasifinError::invalid_input("sampling_error: sqrt failed"));
        },
    };
    ok_or_div_zero(population_std_dev.checked_div(root), "sampling_error")
}

/// Standard error of the mean: `sigma / sqrt(n)`, as [`sampling_error`].
pub fn standard_error(std_dev: Decimal, sample_size: u32) -> (res: Result<Decimal, CasifinError>)
    ensures
        result_view(res) == sampling_error_model(std_dev@, sample_size),
{
    sampling_error(std_dev, sample_size)
}

} // verus!

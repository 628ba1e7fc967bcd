//! The error type of every fallible operation, and its mathematical model.

use vstd::prelude::*;

use crate::decimal::{Decimal, DecimalModel};
use crate::money::Money;

verus! {

broadcast use vstd::string::group_string_axioms;

/// The error type for all operations of this library.
#[derive(Debug, Clone, PartialEq)]
pub enum CasifinError {
    /// The rate provided is invalid (negative).
    InvalidRate(Decimal),
    /// A discrete compounding frequency of zero.
    InvalidCompounding,
    /// The period provided is invalid (zero, or beyond the asset's life).
    InvalidPeriod(u32),
    /// An iterative solver did not converge within the allowed iterations.
    IrrConvergenceFailure { max_iter: u32, eps: Decimal },
    /// Division by zero occurred during a calculation.
    DivisionByZero { operation: &'static str },
    /// A calculation overflowed, or a schedule failed its consistency checks.
    ScheduleOverflow { detail: String },
    /// A date value is missing or outside the valid range.
    DateOutOfRange(String),
    /// An invalid monetary amount was provided.
    InvalidAmount(Money),
    /// The number of periods is invalid.
    InvalidNper(i64),
    /// The payment amount is invalid.
    InvalidPayment(Decimal),
    /// The cash flow stream is empty.
    EmptyCashFlowStream,
    /// At least one positive and one negative cash flow are required.
    XirrSignRequirement,
    /// Invalid day count convention for the operation.
    InvalidDayCountConvention,
    /// A rate conversion failed.
    RateConversionFailure(String),
    /// A depreciation calculation failed.
    DepreciationError(String),
    /// An inventory calculation failed.
    InventoryError(String),
    /// Too few cash flows, or no sign change among them.
    InsufficientCashFlows,
    /// An argument is outside the accepted range.
    InvalidInput { reason: String },
}

/// The mathematical content of a [`CasifinError`].
pub enum ErrorModel {
    InvalidRate(DecimalModel),
    InvalidCompounding,
    InvalidPeriod(u32),
    IrrConvergenceFailure { max_iter: u32, eps: DecimalModel },
    DivisionByZero { operation: Seq<char> },
    ScheduleOverflow { detail: Seq<char> },
    DateOutOfRange(Seq<char>),
    InvalidAmount(DecimalModel),
    InvalidNper(i64),
    InvalidPayment(DecimalModel),
    EmptyCashFlowStream,
    XirrSignRequirement,
    InvalidDayCountConvention,
    RateConversionFailure(Seq<char>),
    DepreciationError(Seq<char>),
    InventoryError(Seq<char>),
    InsufficientCashFlows,
    InvalidInput { reason: Seq<char> },
}

impl View for CasifinError {
    type V = ErrorModel;

    open spec fn view(&self) -> ErrorModel {
        match self {
            CasifinError::InvalidRate(d) => ErrorModel::InvalidRate(d@),
            CasifinError::InvalidCompounding => ErrorModel::InvalidCompounding,
            CasifinError::InvalidPeriod(p) => ErrorModel::InvalidPeriod(*p),
            CasifinError::IrrConvergenceFailure { max_iter, eps } => ErrorModel::IrrConvergenceFailure {
                max_iter: *max_iter,
                eps: eps@,
            },
            CasifinError::DivisionByZero { operation } => ErrorModel::DivisionByZero {
                operation: operation@,
            },
            CasifinError::ScheduleOverflow { detail } => ErrorModel::ScheduleOverflow {
                detail: detail@,
            },
            CasifinError::DateOutOfRange(s) => ErrorModel::DateOutOfRange(s@),
            CasifinError::InvalidAmount(m) => ErrorModel::InvalidAmount(m@),
            CasifinError::InvalidNper(n) => ErrorModel::InvalidNper(*n),
            CasifinError::InvalidPayment(d) => ErrorModel::InvalidPayment(d@),
            CasifinError::EmptyCashFlowStream => ErrorModel::EmptyCashFlowStream,
            CasifinError::XirrSignRequirement => ErrorModel::XirrSignRequirement,
            CasifinError::InvalidDayCountConvention => ErrorModel::InvalidDayCountConvention,
            CasifinError::RateConversionFailure(s) => ErrorModel::RateConversionFailure(s@),
            CasifinError::DepreciationError(s) => ErrorModel::DepreciationError(s@),
            CasifinError::InventoryError(s) => ErrorModel::InventoryError(s@),
            CasifinError::InsufficientCashFlows => ErrorModel::InsufficientCashFlows,
            CasifinError::InvalidInput { reason } => ErrorModel::InvalidInput { reason: reason@ },
        }
    }
}

/// `Ok(x@)` or `Err(e@)`.
pub open spec fn result_view<T: View>(r: Result<T, CasifinError>) -> Result<T::V, ErrorModel> {
    match r {
        Ok(x) => Ok(x@),
        Err(e) => Err(e@),
    }
}

/// The overflow error with the given detail.
pub open spec fn overflow_model(detail: &str) -> ErrorModel {
    ErrorModel::ScheduleOverflow { detail: detail@ }
}

/// The division-by-zero error for the given operation.
pub open spec fn div_zero_model(operation: &str) -> ErrorModel {
    ErrorModel::DivisionByZero { operation: operation@ }
}

/// The invalid-input error with the given reason.
pub open spec fn invalid_input_model(reason: &str) -> ErrorModel {
    ErrorModel::InvalidInput { reason: reason@ }
}

/// The date error with the given detail.
pub open spec fn date_error_model(detail: &str) -> ErrorModel {
    ErrorModel::DateOutOfRange(detail@)
}

/// Feeds a successful result to the next step; an error passes through.
pub open spec fn then<A, B>(r: Result<A, ErrorModel>, next: spec_fn(A) -> Result<B, ErrorModel>) -> Result<
    B,
    ErrorModel,
> {
    match r {
        Ok(x) => next(x),
        Err(e) => Err(e),
    }
}

/// `n` steps from `init`: step `t` takes the value left by step `t - 1`;
/// the first error ends the run.
pub open spec fn fold_steps<A>(init: A, n: nat, step: spec_fn(int, A) -> Result<A, ErrorModel>) -> Result<
    A,
    ErrorModel,
>
    decreases n,
{
    if n == 0 {
        Ok(init)
    } else {
        then(fold_steps(init, (n - 1) as nat, step), |acc: A| step(n - 1, acc))
    }
}

/// Once a run of steps fails, every longer run fails with the same error.
pub proof fn lemma_fold_error_stays<A>(
    init: A,
    k: nat,
    m: nat,
    step: spec_fn(int, A) -> Result<A, ErrorModel>,
)
    requires
        k <= m,
        fold_steps(init, k, step) is Err,
    ensures
        fold_steps(init, m, step) == fold_steps(init, k, step),
    decreases m - k,
{
    if k < m {
        lemma_fold_error_stays(init, k, (m - 1) as nat, step);
    }
}

/// `Ok(x)` when present, else an overflow error with the given detail.
pub open spec fn or_overflow(o: Option<DecimalModel>, detail: &str) -> Result<DecimalModel, ErrorModel> {
    match o {
        Some(x) => Ok(x),
        None => Err(overflow_model(detail)),
    }
}

/// `Ok(x)` when present, else a division-by-zero error for the given operation.
pub open spec fn or_div_zero(o: Option<DecimalModel>, operation: &str) -> Result<
    DecimalModel,
    ErrorModel,
> {
    match o {
        Some(x) => Ok(x),
        None => Err(div_zero_model(operation)),
    }
}

impl CasifinError {
    /// An overflow error carrying `detail`.
    pub fn overflow(detail: &str) -> (e: CasifinError)
        ensures
            e@ == overflow_model(detail),
    {
        CasifinError::ScheduleOverflow { detail: detail.to_string() }
    }

    /// A division-by-zero error for `operation`.
    pub fn div_zero(operation: &'static str) -> (e: CasifinError)
        ensures
            e@ == div_zero_model(operation),
    {
        CasifinError::DivisionByZero { operation }
    }

    /// A date error carrying `detail`.
    pub fn date_out_of_range(detail: &str) -> (e: CasifinError)
        ensures
            e@ == date_error_model(detail),
    {
        CasifinError::DateOutOfRange(detail.to_string())
    }

    /// An invalid-input error carrying `reason`.
    pub fn invalid_input(reason: &str) -> (e: CasifinError)
        ensures
            e@ == invalid_input_model(reason),
    {
        CasifinError::InvalidInput { reason: reason.to_string() }
    }
}

/// `Some(x)` becomes `Ok(x)`, `None` an overflow error carrying `detail`.
pub fn ok_or_overflow(o: Option<Decimal>, detail: &str) -> (r: Result<Decimal, CasifinError>)
    ensures
        result_view(r) == or_overflow(crate::decimal::opt_view(o), detail),
{
    match o {
        Some(x) => Ok(x),
        None => Err(CasifinError::overflow(detail)),
    }
}

/// `Some(x)` becomes `Ok(x)`, `None` a division-by-zero error for `operation`.
pub fn ok_or_div_zero(o: Option<Decimal>, operation: &'static str) -> (r: Result<
    Decimal,
    CasifinError,
>)
    ensures
        result_view(r) == or_div_zero(crate::decimal::opt_view(o), operation),
{
    match o {
        Some(x) => Ok(x),
        None => Err(CasifinError::div_zero(operation)),
    }
}

} // verus!

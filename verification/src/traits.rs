//! Interfaces that users implement for their own financial items.

use vstd::prelude::*;

use crate::error::CasifinError;
use crate::money::Money;

verus! {

/// A calculation that produces a monetary result.
pub trait FinancialCalculation {
    /// Computes the result of the calculation.
    fn compute(&self) -> Result<Money, CasifinError>;
}

/// An item scheduled at a period, such as a payment or a cash flow.
pub trait Schedulable {
    /// The period of the item.
    fn period(&self) -> u32;

    /// The scheduled amount.
    fn amount(&self) -> Money;
}

/// A sequence of scheduled items.
pub trait CashFlowStream {
    /// The number of items.
    fn len(&self) -> usize;

    /// Whether there is no item: whether [`CashFlowStream::len`] gives zero.
    fn is_empty(&self) -> (b: bool)
        ensures
            exists|n: usize| #[trigger] call_ensures(Self::len, (self,), n) && b == (n == 0),
    {
        let n = self.len();
        n == 0
    }

    /// The item at `index`, if any.
    fn cash_flow(&self, index: usize) -> Option<&dyn Schedulable>;
}

} // verus!

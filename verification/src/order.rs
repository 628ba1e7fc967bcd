//! Equality and ordering of decimals and amounts by value.

use core::cmp::Ordering;
use vstd::prelude::*;
use vstd::std_specs::cmp::{PartialEqSpecImpl, PartialOrdSpecImpl};

use crate::decimal::Decimal;
use crate::money::Money;

verus! {

/// The ordering of two values given in `10^-28` units.
pub open spec fn order_of_units(a: int, b: int) -> Option<Ordering> {
    if a < b {
        Some(Ordering::Less)
    } else if a == b {
        Some(Ordering::Equal)
    } else {
        Some(Ordering::Greater)
    }
}

impl PartialEq for Decimal {
    fn eq(&self, other: &Self) -> (r: bool) {
        self.eq_value(other)
    }
}

impl PartialEqSpecImpl for Decimal {
    open spec fn obeys_eq_spec() -> bool {
        true
    }

    open spec fn eq_spec(&self, other: &Decimal) -> bool {
        self@.units() == other@.units()
    }
}

impl PartialOrd for Decimal {
    fn partial_cmp(&self, other: &Self) -> (r: Option<Ordering>) {
        if self.lt(other) {
            Some(Ordering::Less)
        } else if self.eq_value(other) {
            Some(Ordering::Equal)
        } else {
            Some(Ordering::Greater)
        }
    }
}

impl PartialOrdSpecImpl for Decimal {
    open spec fn obeys_partial_cmp_spec() -> bool {
        true
    }

    open spec fn partial_cmp_spec(&self, other: &Decimal) -> Option<Ordering> {
        order_of_units(self@.units(), other@.units())
    }
}

impl PartialEq for Money {
    fn eq(&self, other: &Self) -> (r: bool) {
        self.eq_value(other)
    }
}

impl PartialEqSpecImpl for Money {
    open spec fn obeys_eq_spec() -> bool {
        true
    }

    open spec fn eq_spec(&self, other: &Money) -> bool {
        self@.units() == other@.units()
    }
}

impl PartialOrd for Money {
    fn partial_cmp(&self, other: &Self) -> (r: Option<Ordering>) {
        if self.lt(other) {
            Some(Ordering::Less)
        } else if self.eq_value(other) {
            Some(Ordering::Equal)
        } else {
            Some(Ordering::Greater)
        }
    }
}

impl PartialOrdSpecImpl for Money {
    open spec fn obeys_partial_cmp_spec() -> bool {
        true
    }

    open spec fn partial_cmp_spec(&self, other: &Money) -> Option<Ordering> {
        order_of_units(self@.units(), other@.units())
    }
}

} // verus!

//! A single `(price, amount)` level of an order book.

use vstd::prelude::*;

verus! {

/// Represents a single `<price, amount>` pair.
///
/// Both fields hold a fixed-point decimal: a signed count of `10^-8` units,
/// the resolution venues quote at (see [`crate::numeric`]).  Equality of
/// levels is exact equality of the two counts, and the numeric order of the
/// counts is the numeric order of the quoted values.
#[derive(Copy, Clone, Debug, PartialEq, Eq, Structural, Hash)]
pub struct Level {
    pub price: i64,
    pub amount: i64,
}

impl Level {
    /// Constructs a new [`Level`].
    pub fn new(price: i64, amount: i64) -> (r: Self)
        ensures
            r == (Level { price, amount }),
    {
        Level { price, amount }
    }

    /// Lexicographic order: by price, then by amount.
    pub open spec fn lt_spec(self, other: Self) -> bool {
        ||| self.price < other.price
        ||| (self.price == other.price && self.amount < other.amount)
    }
}

impl PartialOrd for Level {
    fn partial_cmp(&self, other: &Self) -> (r: Option<core::cmp::Ordering>) {
        if self.price < other.price {
            Some(core::cmp::Ordering::Less)
        } else if other.price < self.price {
            Some(core::cmp::Ordering::Greater)
        } else if self.amount < other.amount {
            Some(core::cmp::Ordering::Less)
        } else if other.amount < self.amount {
            Some(core::cmp::Ordering::Greater)
        } else {
            Some(core::cmp::Ordering::Equal)
        }
    }
}

impl vstd::std_specs::cmp::PartialOrdSpecImpl for Level {
    open spec fn obeys_partial_cmp_spec() -> bool {
        true
    }

    open spec fn partial_cmp_spec(&self, other: &Self) -> Option<core::cmp::Ordering> {
        if self.lt_spec(*other) {
            Some(core::cmp::Ordering::Less)
        } else if other.lt_spec(*self) {
            Some(core::cmp::Ordering::Greater)
        } else {
            Some(core::cmp::Ordering::Equal)
        }
    }
}

} // verus!

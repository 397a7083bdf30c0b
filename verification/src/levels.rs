//! The bids and asks of one venue's order book.

use vstd::prelude::*;

pub use crate::level::Level;

verus! {

/// Represents the bids and asks of an order book.
#[derive(Clone, Debug, PartialEq)]
pub struct Levels {
    pub bids: Vec<Level>,
    pub asks: Vec<Level>,
}

/// The mathematical content of a [`Levels`]: the two sides as sequences.
pub struct LevelsView {
    pub bids: Seq<Level>,
    pub asks: Seq<Level>,
}

impl View for Levels {
    type V = LevelsView;

    open spec fn view(&self) -> LevelsView {
        LevelsView { bids: self.bids@, asks: self.asks@ }
    }
}

impl Levels {
    /// Constructs a new [`Levels`].
    pub fn new(bids: Vec<Level>, asks: Vec<Level>) -> (r: Self)
        ensures
            r@.bids == bids@,
            r@.asks == asks@,
    {
        Levels { bids, asks }
    }
}

} // verus!

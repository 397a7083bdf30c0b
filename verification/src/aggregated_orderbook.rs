//! The merged order book across all venues.

use vstd::prelude::*;

use crate::exchange_level::ExchangeLevel;

verus! {

/// Represents the aggregated order book: the union of the latest snapshots
/// across venues, attributed by venue, best bid and best ask first.
#[derive(Clone, Debug, PartialEq)]
pub struct AggregatedOrderbook {
    pub bids: Vec<ExchangeLevel>,
    pub asks: Vec<ExchangeLevel>,
}

/// The spread of a book: best ask price minus best bid price, in `10^-8`
/// units, when both sides are non-empty and the difference fits in an
/// `i64`.
pub open spec fn spec_spread(bids: Seq<ExchangeLevel>, asks: Seq<ExchangeLevel>) -> Option<i64> {
    if bids.len() > 0 && asks.len() > 0 {
        let d = asks[0].level.price - bids[0].level.price;
        if i64::MIN <= d <= i64::MAX {
            Some(d as i64)
        } else {
            None
        }
    } else {
        None
    }
}

impl AggregatedOrderbook {
    /// Constructs a new [`AggregatedOrderbook`].  Called in the
    /// initialization of the order-book aggregator.
    pub fn new(bids: Vec<ExchangeLevel>, asks: Vec<ExchangeLevel>) -> (r: Self)
        ensures
            r.bids@ == bids@,
            r.asks@ == asks@,
    {
        AggregatedOrderbook { bids, asks }
    }

    /// The spread: best ask price minus best bid price, exactly.
    pub fn spread(&self) -> (r: Option<i64>)
        ensures
            r == spec_spread(self.bids@, self.asks@),
    {
        if self.bids.len() > 0 && self.asks.len() > 0 {
            let a: i128 = self.asks[0].level.price as i128;
            let b: i128 = self.bids[0].level.price as i128;
            let d: i128 = a - b;
            if i64::MIN as i128 <= d && d <= i64::MAX as i128 {
                Some(d as i64)
            } else {
                None
            }
        } else {
            None
        }
    }
}

} // verus!

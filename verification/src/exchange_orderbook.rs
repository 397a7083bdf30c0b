//! A venue's full order-book snapshot, as published to the aggregator.

use vstd::prelude::*;

use crate::exchange::Exchange;
use crate::levels::{Levels, LevelsView};

verus! {

/// Contains a given exchange's order-book snapshot.  It is published by the
/// exchange client(s) and is consumed by the order-book aggregator.
#[derive(Clone, Debug, PartialEq)]
pub struct OrderbookSnapshot {
    pub exchange: Exchange,
    pub symbol: String,
    pub levels: Levels,
}

/// The mathematical content of an [`OrderbookSnapshot`].
pub struct SnapshotView {
    pub exchange: Exchange,
    pub symbol: Seq<char>,
    pub levels: LevelsView,
}

impl View for OrderbookSnapshot {
    type V = SnapshotView;

    open spec fn view(&self) -> SnapshotView {
        SnapshotView { exchange: self.exchange, symbol: self.symbol@, levels: self.levels@ }
    }
}

impl OrderbookSnapshot {
    /// Constructs a new [`OrderbookSnapshot`].
    pub fn new(exchange: Exchange, symbol: String, levels: Levels) -> (r: OrderbookSnapshot)
        ensures
            r@.exchange == exchange,
            r@.symbol == symbol@,
            r@.levels == levels@,
    {
        OrderbookSnapshot { exchange, symbol, levels }
    }
}

} // verus!

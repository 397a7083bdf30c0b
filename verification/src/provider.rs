//! The provider that hands out an order-book aggregator.

use vstd::prelude::*;

use crate::aggregator::{OrderbookSnapshotAggregator, VenueBookView};
use crate::hashmap_aggregator::HashMapAggregator;

verus! {

/// The available aggregator implementations.
#[derive(Copy, Clone, Debug)]
pub enum AggregatorType {
    HashMapOrderbookAggegator,
}

/// Instantiates a fresh aggregator of the requested kind.
pub fn get(aggregator: AggregatorType) -> (r: impl OrderbookSnapshotAggregator)
    ensures
        r.model() == Seq::<(Seq<char>, VenueBookView)>::empty(),
{
    match aggregator {
        AggregatorType::HashMapOrderbookAggegator => HashMapAggregator::new(),
    }
}

} // verus!

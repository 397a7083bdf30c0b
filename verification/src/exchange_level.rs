//! A price level attributed to the exchange that quoted it.

use vstd::prelude::*;

pub use crate::exchange::Exchange;
pub use crate::level::Level;

verus! {

/// Contains a single [`Level`] of the order book of a given [`Exchange`].
#[derive(Copy, Clone, Debug, PartialEq, Eq, Structural, Hash)]
pub struct ExchangeLevel {
    pub exchange: Exchange,
    pub level: Level,
}

impl ExchangeLevel {
    /// Constructs a new [`ExchangeLevel`].
    pub fn new(exchange: Exchange, level: Level) -> (r: ExchangeLevel)
        ensures
            r == (ExchangeLevel { exchange, level }),
    {
        ExchangeLevel { exchange, level }
    }
}

} // verus!

//! Configuration for the exchange clients.

use vstd::prelude::*;

verus! {

/// The exchange client configuration supplied by the process entry point.
///
/// The base URL is carried as text; whether it is a well-formed URL is
/// checked where the connection is opened.
#[derive(Clone, Debug)]
pub struct ExchangeClientConfig {
    pub base_url: String,
    pub depth: usize,
    pub symbol: String,
}

impl ExchangeClientConfig {
    /// Constructs a new [`ExchangeClientConfig`].
    pub fn new(base_url: String, depth: usize, symbol: String) -> (r: Self)
        ensures
            r.base_url@ == base_url@,
            r.depth == depth,
            r.symbol@ == symbol@,
    {
        ExchangeClientConfig { base_url, depth, symbol }
    }
}

} // verus!

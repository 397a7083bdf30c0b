//! The Bitstamp adapter's venue-specific rules: the bare base URL, the
//! subscription handshake message, and the payload layout.

use vstd::prelude::*;

use crate::configuration::ExchangeClientConfig;
use crate::deserialization::DecodeError;
use crate::exchange::Exchange;
use crate::exchange_orderbook::OrderbookSnapshot;
use crate::json::json_wf;
use crate::subscription::Subscription;

verus! {

/// The compute side of the Bitstamp exchange client: its connection and
/// publishing loop lives with the transport, outside the library.
pub struct Bitstamp {
    pub config: ExchangeClientConfig,
    pub exchange: Exchange,
}

impl Bitstamp {
    /// Constructs a new Bitstamp client.
    pub fn new(config: ExchangeClientConfig) -> (r: Self)
        ensures
            r.config == config,
            r.exchange == Exchange::Bitstamp,
    {
        Bitstamp { config, exchange: Exchange::Bitstamp }
    }

    /// The connection URL: the bare base URL; the symbol is chosen by the
    /// subscription message after connecting.
    pub fn build_url(&self) -> (r: String)
        ensures
            r@ == self.config.base_url@,
    {
        self.config.base_url.clone()
    }

    /// The subscription message sent once after the connection opens; the
    /// server acknowledges it with one frame before payloads follow.
    pub fn subscription_message(&self) -> (r: String)
        ensures
            r@ == crate::subscription::spec_subscription_message(
                "bts:subscribe"@,
                "order_book_"@ + self.config.symbol@,
            ),
    {
        Subscription::new(&self.config.symbol).serialize()
    }

    /// Decodes one text frame: the sides sit under the `data` object, at
    /// `data.bids` and `data.asks`.
    pub fn deserialize(&self, message: &String) -> (r: Result<OrderbookSnapshot, DecodeError>)
        ensures
            r matches Ok(os) ==> {
                &&& os@.exchange == Exchange::Bitstamp
                &&& os@.symbol == self.config.symbol@
                &&& os@.levels.bids.len() == self.config.depth
                &&& os@.levels.asks.len() == self.config.depth
            },
            r matches Err(e) && e == DecodeError::Json <==> !json_wf(message@),
    {
        let mut bids_path: Vec<String> = Vec::new();
        bids_path.push("data".to_owned());
        bids_path.push("bids".to_owned());
        let mut asks_path: Vec<String> = Vec::new();
        asks_path.push("data".to_owned());
        asks_path.push("asks".to_owned());
        match crate::deserialization::deserialize(
            self.config.depth,
            message,
            &bids_path,
            &asks_path,
        ) {
            Ok(levels) => Ok(
                OrderbookSnapshot::new(Exchange::Bitstamp, self.config.symbol.clone(), levels),
            ),
            Err(e) => Err(e),
        }
    }
}

} // verus!

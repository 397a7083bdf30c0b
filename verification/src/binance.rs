//! The Binance adapter's venue-specific rules: the stream URL and the
//! payload layout.

use vstd::prelude::*;
use vstd::string::StringExecFns;

use crate::configuration::ExchangeClientConfig;
use crate::deserialization::DecodeError;
use crate::exchange::Exchange;
use crate::exchange_orderbook::OrderbookSnapshot;
use crate::json::json_wf;
use crate::numeric::{append_decimal, spec_dec_digits};

verus! {

/// The compute side of the Binance exchange client: its connection and
/// publishing loop lives with the transport, outside the library.
pub struct Binance {
    pub config: ExchangeClientConfig,
    pub exchange: Exchange,
}

/// The Binance stream URL: `{base}/{symbol}@depth{d}@100ms`.
pub open spec fn spec_binance_url(base: Seq<char>, symbol: Seq<char>, depth: int) -> Seq<char> {
    base + "/"@ + symbol + "@depth"@ + spec_dec_digits(depth) + "@100ms"@
}

impl Binance {
    /// Constructs a new Binance client.
    pub fn new(config: ExchangeClientConfig) -> (r: Self)
        ensures
            r.config == config,
            r.exchange == Exchange::Binance,
    {
        Binance { config, exchange: Exchange::Binance }
    }

    /// The connection URL for the configured symbol and depth; no
    /// subscription handshake is needed on this venue.
    pub fn build_url(&self) -> (r: String)
        ensures
            r@ == spec_binance_url(
                self.config.base_url@,
                self.config.symbol@,
                self.config.depth as int,
            ),
    {
        let mut url = self.config.base_url.clone();
        url.append("/");
        url.append(self.config.symbol.as_str());
        url.append("@depth");
        append_decimal(&mut url, self.config.depth);
        url.append("@100ms");
        url
    }

    /// Decodes one text frame: the sides sit at the top level of the
    /// document, under `bids` and `asks`.
    pub fn deserialize(&self, message: &String) -> (r: Result<OrderbookSnapshot, DecodeError>)
        ensures
            r matches Ok(os) ==> {
                &&& os@.exchange == Exchange::Binance
                &&& os@.symbol == self.config.symbol@
                &&& os@.levels.bids.len() == self.config.depth
                &&& os@.levels.asks.len() == self.config.depth
            },
            r matches Err(e) && e == DecodeError::Json <==> !json_wf(message@),
    {
        let mut bids_path: Vec<String> = Vec::new();
        bids_path.push("bids".to_owned());
        let mut asks_path: Vec<String> = Vec::new();
        asks_path.push("asks".to_owned());
        match crate::deserialization::deserialize(
            self.config.depth,
            message,
            &bids_path,
            &asks_path,
        ) {
            Ok(levels) => Ok(
                OrderbookSnapshot::new(Exchange::Binance, self.config.symbol.clone(), levels),
            ),
            Err(e) => Err(e),
        }
    }
}

} // verus!

//! Venue URLs, the subscription handshake message, and the enum names.

use orderbook_aggregator::binance::Binance;
use orderbook_aggregator::bitstamp::Bitstamp;
use orderbook_aggregator::configuration::ExchangeClientConfig;
use orderbook_aggregator::exchange::Exchange;
use orderbook_aggregator::subscription::Subscription;
use orderbook_aggregator::symbol::Symbol;

#[test]
fn binance_url_carries_symbol_and_depth() {
    let client = Binance::new(ExchangeClientConfig::new(
        "wss://stream.binance.com:9443/ws".to_string(),
        10,
        "ethbtc".to_string(),
    ));
    assert_eq!(
        client.build_url(),
        "wss://stream.binance.com:9443/ws/ethbtc@depth10@100ms"
    );
}

#[test]
fn bitstamp_url_is_the_bare_base() {
    let client = Bitstamp::new(ExchangeClientConfig::new(
        "wss://ws.bitstamp.net".to_string(),
        10,
        "btcusdt".to_string(),
    ));
    assert_eq!(client.build_url(), "wss://ws.bitstamp.net");
}

#[test]
fn subscription_message_is_the_json_encoding() {
    let message = Subscription::new(&"ethbtc".to_string()).serialize();
    assert_eq!(
        message,
        r#"{"event":"bts:subscribe","data":{"channel":"order_book_ethbtc"}}"#
    );
    // The hand-built text is exactly what a JSON serializer produces.
    let parsed: serde_json::Value = serde_json::from_str(&message).unwrap();
    assert_eq!(parsed["event"], "bts:subscribe");
    assert_eq!(parsed["data"]["channel"], "order_book_ethbtc");
}

#[test]
fn bitstamp_client_builds_its_subscription() {
    let client = Bitstamp::new(ExchangeClientConfig::new(
        "wss://ws.bitstamp.net".to_string(),
        10,
        "btcusdt".to_string(),
    ));
    assert_eq!(
        client.subscription_message(),
        r#"{"event":"bts:subscribe","data":{"channel":"order_book_btcusdt"}}"#
    );
}

#[test]
fn exchange_names_round_trip() {
    assert_eq!(Exchange::Binance.name(), "Binance");
    assert_eq!(Exchange::Bitstamp.name(), "Bitstamp");
    assert_eq!(Exchange::from_str("Binance"), Ok(Exchange::Binance));
    assert_eq!(Exchange::from_str("Bitstamp"), Ok(Exchange::Bitstamp));
    assert_eq!(Exchange::from_str("Kraken"), Err(()));
}

#[test]
fn symbol_names_round_trip() {
    assert_eq!(Symbol::ETHBTC.wire_name(), "ethbtc");
    assert_eq!(Symbol::BTCUSDT.wire_name(), "btcusdt");
    assert_eq!(Symbol::from_str("ethbtc"), Ok(Symbol::ETHBTC));
    assert_eq!(Symbol::from_str("btcusdt"), Ok(Symbol::BTCUSDT));
    assert_eq!(Symbol::from_str("ETHBTC"), Err(()));
}

#[test]
fn url_depth_uses_all_digits() {
    let client = Binance::new(ExchangeClientConfig::new(
        "wss://example".to_string(),
        2071,
        "btcusdt".to_string(),
    ));
    assert_eq!(client.build_url(), "wss://example/btcusdt@depth2071@100ms");
}

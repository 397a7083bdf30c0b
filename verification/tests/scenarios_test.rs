//! End-to-end scenarios: payload text in, summaries out.

use orderbook_aggregator::aggregator::OrderbookSnapshotAggregator;
use orderbook_aggregator::binance::Binance;
use orderbook_aggregator::bitstamp::Bitstamp;
use orderbook_aggregator::configuration::ExchangeClientConfig;
use orderbook_aggregator::exchange::Exchange;
use orderbook_aggregator::exchange_level::ExchangeLevel;
use orderbook_aggregator::exchange_orderbook::OrderbookSnapshot;
use orderbook_aggregator::levels::Levels;
use orderbook_aggregator::hashmap_aggregator::HashMapAggregator;
use orderbook_aggregator::level::Level;
use orderbook_aggregator::summary::{Summary, SUMMARY_DEPTH};

const UNIT: i64 = 100_000_000;

fn binance_client() -> Binance {
    Binance::new(ExchangeClientConfig::new(
        "wss://stream.binance.com:9443/ws".to_string(),
        1,
        "ethbtc".to_string(),
    ))
}

fn bitstamp_client() -> Bitstamp {
    Bitstamp::new(ExchangeClientConfig::new(
        "wss://ws.bitstamp.net".to_string(),
        1,
        "ethbtc".to_string(),
    ))
}

#[test]
fn single_venue_single_update() {
    // One Binance update: spread 1.0, one level on each side.
    let mut aggregator = HashMapAggregator::new();
    let snapshot = binance_client()
        .deserialize(&r#"{"bids":[["100","1"]],"asks":[["101","1"]]}"#.to_string())
        .unwrap();
    let book = aggregator.on_orderbook_snapshot(snapshot);
    let summary = Summary::of_book(&book, SUMMARY_DEPTH);
    assert_eq!(summary.spread, Some(UNIT));
    assert_eq!(
        summary.bids,
        vec![ExchangeLevel::new(Exchange::Binance, Level::new(100 * UNIT, UNIT))]
    );
    assert_eq!(
        summary.asks,
        vec![ExchangeLevel::new(Exchange::Binance, Level::new(101 * UNIT, UNIT))]
    );
}

#[test]
fn second_venue_narrows_the_spread() {
    // Binance, then Bitstamp inside it: the spread becomes exactly 0.4.
    let mut aggregator = HashMapAggregator::new();
    aggregator.on_orderbook_snapshot(
        binance_client()
            .deserialize(&r#"{"bids":[["100","1"]],"asks":[["101","1"]]}"#.to_string())
            .unwrap(),
    );
    let book = aggregator.on_orderbook_snapshot(
        bitstamp_client()
            .deserialize(
                &r#"{"data":{"bids":[["100.5","2"]],"asks":[["100.9","2"]]}}"#.to_string(),
            )
            .unwrap(),
    );
    let summary = Summary::of_book(&book, SUMMARY_DEPTH);
    assert_eq!(
        summary.bids,
        vec![
            ExchangeLevel::new(Exchange::Bitstamp, Level::new(100 * UNIT + UNIT / 2, 2 * UNIT)),
            ExchangeLevel::new(Exchange::Binance, Level::new(100 * UNIT, UNIT)),
        ]
    );
    assert_eq!(
        summary.asks,
        vec![
            ExchangeLevel::new(
                Exchange::Bitstamp,
                Level::new(100 * UNIT + 9 * UNIT / 10, 2 * UNIT)
            ),
            ExchangeLevel::new(Exchange::Binance, Level::new(101 * UNIT, UNIT)),
        ]
    );
    assert_eq!(summary.spread, Some(4 * UNIT / 10));
}

#[test]
fn malformed_payload_is_dropped_silently() {
    // A malformed payload between two valid ones produces no summary and
    // leaves the aggregator state untouched.
    let client = binance_client();
    let valid = r#"{"bids":[["100","1"]],"asks":[["101","1"]]}"#.to_string();
    let malformed = r#"{"bids":[["abc","1"]],"asks":[["101","1"]]}"#.to_string();

    let mut aggregator = HashMapAggregator::new();
    let mut summaries: Vec<Summary> = Vec::new();
    for payload in [&valid, &malformed, &valid] {
        match client.deserialize(payload) {
            Ok(snapshot) => {
                let book = aggregator.on_orderbook_snapshot(snapshot);
                summaries.push(Summary::of_book(&book, SUMMARY_DEPTH));
            }
            Err(_) => {
                // Non-fatal: log and continue reading.
            }
        }
    }
    assert_eq!(summaries.len(), 2);
    assert_eq!(summaries[0], summaries[1]);
}

#[test]
fn summary_is_cut_to_depth() {
    // Twelve levels per side: the summary keeps the best ten of each.
    let mut payload = String::from(r#"{"bids":["#);
    for i in 0..12 {
        if i > 0 {
            payload.push(',');
        }
        payload.push_str(&format!(r#"["{}","1"]"#, 100 + i));
    }
    payload.push_str(r#"],"asks":["#);
    for i in 0..12 {
        if i > 0 {
            payload.push(',');
        }
        payload.push_str(&format!(r#"["{}","1"]"#, 200 + i));
    }
    payload.push_str(r#"]}"#);
    let client = Binance::new(ExchangeClientConfig::new(
        "wss://stream.binance.com:9443/ws".to_string(),
        12,
        "ethbtc".to_string(),
    ));
    let snapshot = client.deserialize(&payload).unwrap();
    let mut aggregator = HashMapAggregator::new();
    let book = aggregator.on_orderbook_snapshot(snapshot);
    assert_eq!(book.bids.len(), 12);
    assert_eq!(book.asks.len(), 12);
    let summary = Summary::of_book(&book, SUMMARY_DEPTH);
    assert_eq!(summary.bids.len(), 10);
    assert_eq!(summary.asks.len(), 10);
    // Best first on both sides: highest bid, lowest ask.
    assert_eq!(summary.bids[0].level.price, 111 * UNIT);
    assert_eq!(summary.bids[9].level.price, 102 * UNIT);
    assert_eq!(summary.asks[0].level.price, 200 * UNIT);
    assert_eq!(summary.asks[9].level.price, 209 * UNIT);
    assert_eq!(summary.spread, Some(89 * UNIT));
}

#[test]
fn empty_side_still_makes_a_summary() {
    let mut aggregator = HashMapAggregator::new();
    let book = aggregator.on_orderbook_snapshot(OrderbookSnapshot::new(
        Exchange::Binance,
        "ethbtc".to_string(),
        Levels::new(vec![Level::new(100 * UNIT, UNIT)], vec![]),
    ));
    let summary = Summary::of_book(&book, SUMMARY_DEPTH);
    assert_eq!(summary.bids.len(), 1);
    assert_eq!(summary.asks.len(), 0);
    assert_eq!(summary.spread, None);
}

//! The side sort and the flattening, on their own.

use orderbook_aggregator::aggregated_orderbook::AggregatedOrderbook;
use orderbook_aggregator::exchange::Exchange;
use orderbook_aggregator::exchange_level::ExchangeLevel;
use orderbook_aggregator::hashmap_aggregator::{
    aggregate_exchange_levels, sort_aggregated_orderbook, VenueBook,
};
use orderbook_aggregator::level::Level;
use orderbook_aggregator::levels::Levels;
use orderbook_aggregator::sort::{sort_exchange_levels, Order};

const UNIT: i64 = 100_000_000;

fn binance_at(price: i64, amount: i64) -> ExchangeLevel {
    ExchangeLevel::new(Exchange::Binance, Level::new(price * UNIT, amount * UNIT))
}

#[test]
fn ascending_price_descending_amount() {
    let mut levels = vec![binance_at(2, 100), binance_at(1, 100)];
    sort_exchange_levels(&mut levels, Order::ASCENDING, Order::DESCENDING);
    assert_eq!(levels, vec![binance_at(1, 100), binance_at(2, 100)]);

    let mut levels = vec![binance_at(1, 100), binance_at(1, 101)];
    sort_exchange_levels(&mut levels, Order::ASCENDING, Order::DESCENDING);
    assert_eq!(levels, vec![binance_at(1, 101), binance_at(1, 100)]);

    let mut levels = vec![binance_at(2, 100), binance_at(1, 101)];
    sort_exchange_levels(&mut levels, Order::ASCENDING, Order::DESCENDING);
    assert_eq!(levels, vec![binance_at(1, 101), binance_at(2, 100)]);
}

#[test]
fn descending_price_descending_amount() {
    let mut levels = vec![binance_at(1, 100), binance_at(2, 100)];
    sort_exchange_levels(&mut levels, Order::DESCENDING, Order::DESCENDING);
    assert_eq!(levels, vec![binance_at(2, 100), binance_at(1, 100)]);

    let mut levels = vec![binance_at(1, 100), binance_at(1, 101)];
    sort_exchange_levels(&mut levels, Order::DESCENDING, Order::DESCENDING);
    assert_eq!(levels, vec![binance_at(1, 101), binance_at(1, 100)]);

    let mut levels = vec![binance_at(1, 100), binance_at(2, 101)];
    sort_exchange_levels(&mut levels, Order::DESCENDING, Order::DESCENDING);
    assert_eq!(levels, vec![binance_at(2, 101), binance_at(1, 100)]);
}

#[test]
fn sort_orderbook_sorts_both_sides() {
    let bitstamp_at = |price: i64, amount: i64| {
        ExchangeLevel::new(Exchange::Bitstamp, Level::new(price * UNIT, amount * UNIT))
    };
    let mut book = AggregatedOrderbook::new(
        vec![binance_at(1, 10), bitstamp_at(3, 30), bitstamp_at(2, 20)],
        vec![bitstamp_at(10, 110), bitstamp_at(12, 130), binance_at(11, 120)],
    );
    sort_aggregated_orderbook(&mut book);
    assert_eq!(book.bids, vec![bitstamp_at(3, 30), bitstamp_at(2, 20), binance_at(1, 10)]);
    assert_eq!(book.asks, vec![bitstamp_at(10, 110), binance_at(11, 120), bitstamp_at(12, 130)]);
}

#[test]
fn flattening_attributes_each_venue() {
    let book = VenueBook {
        binance: Some(Levels::new(
            vec![Level::new(UNIT, 101 * UNIT)],
            vec![Level::new(7 * UNIT, 107 * UNIT)],
        )),
        bitstamp: Some(Levels::new(
            vec![Level::new(2 * UNIT, 102 * UNIT)],
            vec![Level::new(8 * UNIT, 108 * UNIT)],
        )),
    };
    let flat = aggregate_exchange_levels(&book);
    assert_eq!(
        flat.bids,
        vec![
            ExchangeLevel::new(Exchange::Binance, Level::new(UNIT, 101 * UNIT)),
            ExchangeLevel::new(Exchange::Bitstamp, Level::new(2 * UNIT, 102 * UNIT)),
        ]
    );
    assert_eq!(
        flat.asks,
        vec![
            ExchangeLevel::new(Exchange::Binance, Level::new(7 * UNIT, 107 * UNIT)),
            ExchangeLevel::new(Exchange::Bitstamp, Level::new(8 * UNIT, 108 * UNIT)),
        ]
    );
}

#[test]
fn spread_is_exact_and_checked() {
    let book = AggregatedOrderbook::new(vec![binance_at(100, 1)], vec![binance_at(101, 1)]);
    assert_eq!(book.spread(), Some(UNIT));

    let empty_side = AggregatedOrderbook::new(vec![], vec![binance_at(101, 1)]);
    assert_eq!(empty_side.spread(), None);

    // A difference that cannot be carried is reported as undefined rather
    // than wrapped around.
    let extremes = AggregatedOrderbook::new(
        vec![ExchangeLevel::new(Exchange::Binance, Level::new(i64::MIN, 1))],
        vec![ExchangeLevel::new(Exchange::Binance, Level::new(i64::MAX, 1))],
    );
    assert_eq!(extremes.spread(), None);
}

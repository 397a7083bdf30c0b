//! Decoding payloads: the number grammar, the entry rules, and the depths.

use orderbook_aggregator::binance::Binance;
use orderbook_aggregator::bitstamp::Bitstamp;
use orderbook_aggregator::configuration::ExchangeClientConfig;
use orderbook_aggregator::deserialization::{
    decode_side, deserialize, deserialize_level, DecodeError, LevelField, RawEntry, RawField,
    SideError,
};
use orderbook_aggregator::level::Level;
use orderbook_aggregator::numeric::parse_fixed;

const UNIT: i64 = 100_000_000;

fn text(s: &str) -> RawField {
    RawField::Text(s.to_string())
}

fn entry(price: RawField, amount: RawField) -> RawEntry {
    RawEntry { price, amount }
}

#[test]
fn parse_fixed_reads_decimals_exactly() {
    assert_eq!(parse_fixed("100.5"), Some(100 * UNIT + UNIT / 2));
    assert_eq!(parse_fixed("0.1"), Some(UNIT / 10));
    assert_eq!(parse_fixed("1"), Some(UNIT));
    assert_eq!(parse_fixed("0.00000001"), Some(1));
    assert_eq!(parse_fixed("-1.0"), Some(-UNIT));
    assert_eq!(parse_fixed("+2."), Some(2 * UNIT));
    assert_eq!(parse_fixed(".5"), Some(UNIT / 2));
    assert_eq!(parse_fixed("92233720368.54775807"), Some(i64::MAX));
}

#[test]
fn parse_fixed_rejects_what_it_cannot_hold() {
    assert_eq!(parse_fixed(""), None);
    assert_eq!(parse_fixed("abc"), None);
    assert_eq!(parse_fixed("."), None);
    assert_eq!(parse_fixed("-"), None);
    assert_eq!(parse_fixed("1e5"), None);
    assert_eq!(parse_fixed("inf"), None);
    assert_eq!(parse_fixed("1.2.3"), None);
    assert_eq!(parse_fixed("0.000000001"), None); // ninth fractional digit
    assert_eq!(parse_fixed("92233720368.54775808"), None); // one unit past i64::MAX
    assert_eq!(parse_fixed("99999999999999999999"), None);
}

#[test]
fn decode_side_takes_exactly_depth_entries() {
    // Depth many entries: depth levels out.  One fewer: InvalidLength.
    let entries = vec![
        entry(text("1.0"), text("100")),
        entry(text("0.9"), text("98")),
    ];
    let levels = decode_side(2, &entries).unwrap();
    assert_eq!(
        levels,
        vec![
            Level::new(UNIT, 100 * UNIT),
            Level::new(9 * UNIT / 10, 98 * UNIT),
        ]
    );
    assert_eq!(
        decode_side(3, &entries),
        Err(SideError::InvalidLength { got: 2, expected: 3 })
    );
    // Extra entries beyond the depth are left unread.
    assert_eq!(decode_side(1, &entries).unwrap(), vec![Level::new(UNIT, 100 * UNIT)]);
}

#[test]
fn decode_side_reports_missing_fields() {
    assert_eq!(
        decode_side(1, &vec![entry(RawField::Missing, RawField::Missing)]),
        Err(SideError::MissingField(LevelField::Price))
    );
    assert_eq!(
        decode_side(1, &vec![entry(text("100"), RawField::Missing)]),
        Err(SideError::MissingField(LevelField::Amount))
    );
}

#[test]
fn decode_side_reports_invalid_types() {
    // A malformed price, a malformed amount, and a non-string element.
    assert_eq!(
        decode_side(1, &vec![entry(text("invalid-float"), text("1"))]),
        Err(SideError::InvalidType)
    );
    assert_eq!(
        decode_side(1, &vec![entry(text("100"), text("abc"))]),
        Err(SideError::InvalidType)
    );
    assert_eq!(
        decode_side(1, &vec![entry(RawField::NotText, text("1"))]),
        Err(SideError::InvalidType)
    );
}

#[test]
fn deserialize_level_walks_the_document() {
    let doc: serde_json::Value = serde_json::from_str(r#"[["1.0", "100"], ["-1.0", "-100"]]"#).unwrap();
    assert_eq!(
        deserialize_level(1, &doc).unwrap(),
        vec![Level::new(UNIT, 100 * UNIT)]
    );
    assert_eq!(
        deserialize_level(2, &doc).unwrap(),
        vec![
            Level::new(UNIT, 100 * UNIT),
            Level::new(-UNIT, -100 * UNIT),
        ]
    );
    assert_eq!(
        deserialize_level(3, &doc),
        Err(SideError::InvalidLength { got: 2, expected: 3 })
    );
}

#[test]
fn deserialize_reads_both_sides() {
    let payload = r#"{ "bids": [["1.0", "99"]], "asks": [["2.0", "101"]] }"#.to_string();
    let bids_path = vec!["bids".to_string()];
    let asks_path = vec!["asks".to_string()];
    let levels = deserialize(1, &payload, &bids_path, &asks_path).unwrap();
    assert_eq!(levels.bids, vec![Level::new(UNIT, 99 * UNIT)]);
    assert_eq!(levels.asks, vec![Level::new(2 * UNIT, 101 * UNIT)]);
}

#[test]
fn deserialize_reports_each_failing_side() {
    let bids_path = vec!["bids".to_string()];
    let asks_path = vec!["asks".to_string()];
    let asks_bad = r#"{ "bids": [["1.0", "99"]], "asks": [["2.0"]] }"#.to_string();
    assert_eq!(
        deserialize(1, &asks_bad, &bids_path, &asks_path),
        Err(DecodeError::Asks(SideError::MissingField(LevelField::Amount)))
    );
    let bids_bad = r#"{ "bids": [["1.0"]], "asks": [["2.0", "100"]] }"#.to_string();
    assert_eq!(
        deserialize(1, &bids_bad, &bids_path, &asks_path),
        Err(DecodeError::Bids(SideError::MissingField(LevelField::Amount)))
    );
    let both_bad = r#"{ "bids": [["1.0"]], "asks": [["2.0"]] }"#.to_string();
    assert_eq!(
        deserialize(1, &both_bad, &bids_path, &asks_path),
        Err(DecodeError::BothSides(
            SideError::MissingField(LevelField::Amount),
            SideError::MissingField(LevelField::Amount),
        ))
    );
    let not_json = "{ bids".to_string();
    assert_eq!(
        deserialize(1, &not_json, &bids_path, &asks_path),
        Err(DecodeError::Json)
    );
}

#[test]
fn binance_payload_sits_at_the_top_level() {
    let client = Binance::new(ExchangeClientConfig::new(
        "wss://example".to_string(),
        1,
        "ethbtc".to_string(),
    ));
    let snapshot = client
        .deserialize(&r#"{"bids":[["100","1"]],"asks":[["101","1"]]}"#.to_string())
        .unwrap();
    assert_eq!(snapshot.symbol, "ethbtc");
    assert_eq!(snapshot.levels.bids, vec![Level::new(100 * UNIT, UNIT)]);
    assert_eq!(snapshot.levels.asks, vec![Level::new(101 * UNIT, UNIT)]);
}

#[test]
fn bitstamp_payload_sits_under_data() {
    let client = Bitstamp::new(ExchangeClientConfig::new(
        "wss://example".to_string(),
        1,
        "ethbtc".to_string(),
    ));
    let snapshot = client
        .deserialize(&r#"{"data":{"bids":[["100.5","2"]],"asks":[["100.9","2"]]}}"#.to_string())
        .unwrap();
    assert_eq!(snapshot.levels.bids, vec![Level::new(100 * UNIT + UNIT / 2, 2 * UNIT)]);
    // A Bitstamp acknowledgement frame has no data.bids: every side is too
    // short, whatever the depth.
    let ack = r#"{"event":"bts:subscribe"}"#.to_string();
    assert_eq!(
        client.deserialize(&ack),
        Err(DecodeError::BothSides(
            SideError::InvalidLength { got: 0, expected: 1 },
            SideError::InvalidLength { got: 0, expected: 1 },
        ))
    );
}

//! Aggregation of cryptocurrency order-book snapshots across venues.
//!
//! Exchange adapters decode venue depth snapshots into a uniform form, an
//! aggregator keeps the latest snapshot per `(symbol, venue)` pair and merges
//! them into one globally sorted book, and a summary (top-N levels plus the
//! spread) is derived from every merged book.  Prices and amounts are carried
//! as fixed-point decimals (signed counts of `10^-8` units), so that
//! equality, ordering and the spread are exact and deterministic.

pub mod aggregated_orderbook;
pub mod aggregator;
pub mod binance;
pub mod bitstamp;
pub mod configuration;
pub mod deserialization;
pub mod events;
pub mod exchange;
pub mod exchange_level;
pub mod exchange_orderbook;
pub mod hashmap_aggregator;
pub mod json;
pub mod level;
pub mod levels;
pub mod numeric;
pub mod provider;
pub mod sort;
pub mod subscription;
pub mod summary;
pub mod symbol;

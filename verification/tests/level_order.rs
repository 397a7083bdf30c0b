//! Ordering of price levels, in fixed-point units (1 unit = 10^-8).

use std::cmp::Ordering;

use orderbook_aggregator::level::Level;

const ONE: i64 = 100_000_000;
const TWO: i64 = 200_000_000;

#[test]
fn order_eq() {
    let l1 = Level::new(ONE, ONE);
    let l2 = Level::new(ONE, ONE);
    assert_eq!(l1.partial_cmp(&l2).unwrap(), Ordering::Equal);
}

#[test]
fn order_gt() {
    let l1 = Level::new(ONE, TWO);
    let l2 = Level::new(ONE, ONE);
    assert_eq!(l1.partial_cmp(&l2).unwrap(), Ordering::Greater);

    let l1 = Level::new(TWO, ONE);
    let l2 = Level::new(ONE, ONE);
    assert_eq!(l1.partial_cmp(&l2).unwrap(), Ordering::Greater);

    let l1 = Level::new(TWO, TWO);
    let l2 = Level::new(ONE, ONE);
    assert_eq!(l1.partial_cmp(&l2).unwrap(), Ordering::Greater);
}

#[test]
fn order_lt() {
    let l1 = Level::new(ONE, ONE);
    let l2 = Level::new(TWO, ONE);
    assert_eq!(l1.partial_cmp(&l2).unwrap(), Ordering::Less);

    let l1 = Level::new(ONE, ONE);
    let l2 = Level::new(ONE, TWO);
    assert_eq!(l1.partial_cmp(&l2).unwrap(), Ordering::Less);

    let l1 = Level::new(ONE, ONE);
    let l2 = Level::new(TWO, TWO);
    assert_eq!(l1.partial_cmp(&l2).unwrap(), Ordering::Less);
}

#[test]
fn order_negative_levels() {
    let l1 = Level::new(-TWO, ONE);
    let l2 = Level::new(-ONE, ONE);
    assert_eq!(l1.partial_cmp(&l2).unwrap(), Ordering::Less);
}

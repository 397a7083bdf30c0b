//! The bounded summary streamed to subscribers: the top levels of each side
//! and the spread.

use vstd::prelude::*;

use crate::aggregated_orderbook::{spec_spread, AggregatedOrderbook};
use crate::exchange_level::ExchangeLevel;

verus! {

/// Number of levels kept per side in a summary.
pub const SUMMARY_DEPTH: usize = 10;

/// The top of the aggregated book, as published to subscribers.
#[derive(Clone, Debug, PartialEq)]
pub struct Summary {
    pub spread: Option<i64>,
    pub bids: Vec<ExchangeLevel>,
    pub asks: Vec<ExchangeLevel>,
}

/// The first `n` entries of a side, or all of them if there are fewer.
pub open spec fn spec_top(s: Seq<ExchangeLevel>, n: int) -> Seq<ExchangeLevel> {
    if s.len() <= n {
        s
    } else {
        s.take(n)
    }
}

/// Copies the first `n` entries of a side.
fn take_top(src: &Vec<ExchangeLevel>, n: usize) -> (r: Vec<ExchangeLevel>)
    ensures
        r@ == spec_top(src@, n as int),
{
    let m: usize = if n < src.len() {
        n
    } else {
        src.len()
    };
    let mut r: Vec<ExchangeLevel> = Vec::new();
    proof {
        assert(r@ =~= src@.take(0));
    }
    let mut i: usize = 0;
    while i < m
        invariant
            0 <= i <= m <= src.len(),
            r@ == src@.take(i as int),
        decreases m - i,
    {
        let level = src[i];
        r.push(level);
        proof {
            assert(src@.take(i + 1) =~= src@.take(i as int).push(src@[i as int]));
        }
        i = i + 1;
    }
    proof {
        assert(spec_top(src@, n as int) =~= src@.take(m as int));
    }
    r
}

impl Summary {
    /// Derives the summary of a merged book: both sides cut to `depth`
    /// levels and the spread, computed here once, exactly.
    pub fn of_book(book: &AggregatedOrderbook, depth: usize) -> (r: Summary)
        ensures
            r.spread == spec_spread(book.bids@, book.asks@),
            r.bids@ == spec_top(book.bids@, depth as int),
            r.asks@ == spec_top(book.asks@, depth as int),
            r.bids@.len() <= depth && r.asks@.len() <= depth,
            book.bids@.len() >= depth ==> r.bids@.len() == depth,
            book.asks@.len() >= depth ==> r.asks@.len() == depth,
            r.bids@.len() > 0 && r.asks@.len() > 0 ==> r.spread == spec_spread(r.bids@, r.asks@),
    {
        let spread = book.spread();
        let bids = take_top(&book.bids, depth);
        let asks = take_top(&book.asks, depth);
        Summary { spread, bids, asks }
    }
}

} // verus!

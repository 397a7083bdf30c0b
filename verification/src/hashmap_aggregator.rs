//! The aggregator implementation: latest snapshot per `(symbol, venue)`,
//! merged book rebuilt on every input.

use vstd::prelude::*;

use crate::aggregated_orderbook::AggregatedOrderbook;
use crate::aggregator::{
    spec_apply, spec_attach, spec_book_at, spec_empty_book, spec_flat_asks, spec_flat_bids,
    spec_merge_asks, spec_merge_bids, spec_set_entry, OrderbookSnapshotAggregator, VenueBookView,
};
use crate::exchange::Exchange;
use crate::exchange_level::ExchangeLevel;
use crate::exchange_orderbook::{OrderbookSnapshot, SnapshotView};
use crate::level::Level;
use crate::levels::Levels;
use crate::sort::{lemma_sort_levels, sort_exchange_levels, Order};

verus! {

/// The latest known sides per venue, for one symbol.
pub struct VenueBook {
    pub binance: Option<Levels>,
    pub bitstamp: Option<Levels>,
}

impl View for VenueBook {
    type V = VenueBookView;

    open spec fn view(&self) -> VenueBookView {
        VenueBookView {
            binance: match self.binance {
                Some(l) => Some(l@),
                None => None,
            },
            bitstamp: match self.bitstamp {
                Some(l) => Some(l@),
                None => None,
            },
        }
    }
}

impl VenueBook {
    /// A book with no venue present.
    fn empty() -> (r: Self)
        ensures
            r@ == spec_empty_book(),
    {
        VenueBook { binance: None, bitstamp: None }
    }

    /// Overwrites one venue's sides.
    fn set_entry(&mut self, e: Exchange, l: Levels)
        ensures
            final(self)@ == spec_set_entry(old(self)@, e, l@),
    {
        match e {
            Exchange::Binance => {
                self.binance = Some(l);
            },
            Exchange::Bitstamp => {
                self.bitstamp = Some(l);
            },
        }
    }
}

/// Appends one venue's side to a flattened side, attributing each level.
fn push_attached(dst: &mut Vec<ExchangeLevel>, e: Exchange, src: &Vec<Level>)
    ensures
        final(dst)@ == old(dst)@ + spec_attach(e, src@),
{
    let ghost orig = dst@;
    let n = src.len();
    proof {
        assert(orig + spec_attach(e, src@.take(0)) =~= orig);
    }
    let mut i: usize = 0;
    while i < n
        invariant
            0 <= i <= n,
            n == src.len(),
            dst@ == orig + spec_attach(e, src@.take(i as int)),
        decreases n - i,
    {
        let level = src[i];
        dst.push(ExchangeLevel::new(e, level));
        proof {
            assert(orig + spec_attach(e, src@.take(i + 1)) =~= (orig + spec_attach(
                e,
                src@.take(i as int),
            )).push(ExchangeLevel { exchange: e, level: src@[i as int] }));
        }
        i = i + 1;
    }
    proof {
        assert(src@.take(n as int) =~= src@);
    }
}

/// Flattens a venue book into one unsorted [`AggregatedOrderbook`], venue by
/// venue in enumeration order.
pub fn aggregate_exchange_levels(exchange_levels: &VenueBook) -> (r: AggregatedOrderbook)
    ensures
        r.bids@ == spec_flat_bids(exchange_levels@),
        r.asks@ == spec_flat_asks(exchange_levels@),
{
    let mut bids: Vec<ExchangeLevel> = Vec::new();
    let mut asks: Vec<ExchangeLevel> = Vec::new();
    if let Some(l) = &exchange_levels.binance {
        push_attached(&mut bids, Exchange::Binance, &l.bids);
        push_attached(&mut asks, Exchange::Binance, &l.asks);
    }
    if let Some(l) = &exchange_levels.bitstamp {
        push_attached(&mut bids, Exchange::Bitstamp, &l.bids);
        push_attached(&mut asks, Exchange::Bitstamp, &l.asks);
    }
    proof {
        assert(bids@ =~= spec_flat_bids(exchange_levels@));
        assert(asks@ =~= spec_flat_asks(exchange_levels@));
    }
    AggregatedOrderbook::new(bids, asks)
}

/// Sorts a freshly flattened book: bids by price descending, asks by price
/// ascending, amounts descending on equal prices, stably.
pub fn sort_aggregated_orderbook(aggregated_orderbook: &mut AggregatedOrderbook)
    ensures
        final(aggregated_orderbook).bids@ == crate::sort::spec_sort_levels(
            Order::DESCENDING,
            Order::DESCENDING,
            old(aggregated_orderbook).bids@,
        ),
        final(aggregated_orderbook).asks@ == crate::sort::spec_sort_levels(
            Order::ASCENDING,
            Order::DESCENDING,
            old(aggregated_orderbook).asks@,
        ),
{
    sort_exchange_levels(&mut aggregated_orderbook.bids, Order::DESCENDING, Order::DESCENDING);
    sort_exchange_levels(&mut aggregated_orderbook.asks, Order::ASCENDING, Order::DESCENDING);
}

/// Applying a snapshot whose symbol sits at position `i` updates that entry
/// in place.
proof fn lemma_apply_found(m: Seq<(Seq<char>, VenueBookView)>, os: SnapshotView, i: int)
    requires
        0 <= i < m.len(),
        m[i].0 == os.symbol,
        forall|j: int| 0 <= j < i ==> (#[trigger] m[j]).0 != os.symbol,
    ensures
        spec_apply(m, os) == m.update(
            i,
            (os.symbol, spec_set_entry(m[i].1, os.exchange, os.levels)),
        ),
    decreases i,
{
    if i == 0 {
        assert(spec_apply(m, os) =~= m.update(
            0,
            (os.symbol, spec_set_entry(m[0].1, os.exchange, os.levels)),
        ));
    } else {
        assert(m[0].0 != os.symbol);
        lemma_apply_found(m.drop_first(), os, i - 1);
        assert(seq![m.first()] + m.drop_first().update(
            i - 1,
            (os.symbol, spec_set_entry(m[i].1, os.exchange, os.levels)),
        ) =~= m.update(i, (os.symbol, spec_set_entry(m[i].1, os.exchange, os.levels))));
    }
}

/// Applying a snapshot of an unknown symbol appends a fresh entry.
proof fn lemma_apply_absent(m: Seq<(Seq<char>, VenueBookView)>, os: SnapshotView)
    requires
        forall|j: int| 0 <= j < m.len() ==> (#[trigger] m[j]).0 != os.symbol,
    ensures
        spec_apply(m, os) == m.push(
            (os.symbol, spec_set_entry(spec_empty_book(), os.exchange, os.levels)),
        ),
    decreases m.len(),
{
    let entry = (os.symbol, spec_set_entry(spec_empty_book(), os.exchange, os.levels));
    if m.len() == 0 {
        assert(spec_apply(m, os) =~= m.push(entry));
    } else {
        lemma_apply_absent(m.drop_first(), os);
        assert(seq![m.first()] + m.drop_first().push(entry) =~= m.push(entry));
    }
}

/// The book at a symbol that sits first at position `i` is that entry.
proof fn lemma_book_at_found(m: Seq<(Seq<char>, VenueBookView)>, sym: Seq<char>, i: int)
    requires
        0 <= i < m.len(),
        m[i].0 == sym,
        forall|j: int| 0 <= j < i ==> (#[trigger] m[j]).0 != sym,
    ensures
        spec_book_at(m, sym) == m[i].1,
    decreases i,
{
    if i > 0 {
        assert(m[0].0 != sym);
        lemma_book_at_found(m.drop_first(), sym, i - 1);
    }
}

/// The aggregator: for each symbol, the latest sides per venue, in first-
/// seen symbol order.
pub struct HashMapAggregator {
    orderbook_snapshots: Vec<(String, VenueBook)>,
}

impl HashMapAggregator {
    /// The association list of the aggregator, viewed mathematically.
    spec fn spec_model(&self) -> Seq<(Seq<char>, VenueBookView)> {
        self.orderbook_snapshots@.map_values(|p: (String, VenueBook)| (p.0@, p.1@))
    }
}

impl OrderbookSnapshotAggregator for HashMapAggregator {
    closed spec fn model(&self) -> Seq<(Seq<char>, VenueBookView)> {
        self.spec_model()
    }

    fn new() -> (r: Self) {
        let r = HashMapAggregator { orderbook_snapshots: Vec::new() };
        proof {
            assert(r.spec_model() =~= Seq::<(Seq<char>, VenueBookView)>::empty());
        }
        r
    }

    fn on_orderbook_snapshot(&mut self, orderbook_snapshot: OrderbookSnapshot) -> (r:
        AggregatedOrderbook) {
        let ghost m0 = self.spec_model();
        let ghost osv = orderbook_snapshot@;
        let OrderbookSnapshot { exchange, symbol, levels } = orderbook_snapshot;

        // Locate the first entry of this symbol, if any.
        let n = self.orderbook_snapshots.len();
        let mut idx: usize = 0;
        let mut found: bool = false;
        while idx < n && !found
            invariant
                0 <= idx <= n,
                n == self.orderbook_snapshots.len(),
                m0 == self.spec_model(),
                osv.symbol == symbol@,
                !found ==> forall|j: int| 0 <= j < idx ==> (#[trigger] m0[j]).0 != symbol@,
                found ==> {
                    &&& idx < n
                    &&& m0[idx as int].0 == symbol@
                    &&& forall|j: int| 0 <= j < idx ==> (#[trigger] m0[j]).0 != symbol@
                },
            decreases n - idx, (if found { 0int } else { 1 }),
        {
            if self.orderbook_snapshots[idx].0 == symbol {
                found = true;
            } else {
                idx = idx + 1;
            }
        }

        // Overwrite the venue's entry, or append a fresh symbol entry.
        let updated: AggregatedOrderbook;
        if found {
            let pair = self.orderbook_snapshots.remove(idx);
            let symbol_key = pair.0;
            let mut book = pair.1;
            book.set_entry(exchange, levels);
            updated = aggregate_exchange_levels(&book);
            proof {
                assert(spec_book_at(spec_apply(m0, osv), osv.symbol) == book@) by {
                    lemma_apply_found(m0, osv, idx as int);
                    lemma_book_at_found(spec_apply(m0, osv), osv.symbol, idx as int);
                }
            }
            self.orderbook_snapshots.insert(idx, (symbol_key, book));
            proof {
                assert(self.spec_model() =~= spec_apply(m0, osv)) by {
                    lemma_apply_found(m0, osv, idx as int);
                }
            }
        } else {
            let mut book = VenueBook::empty();
            book.set_entry(exchange, levels);
            updated = aggregate_exchange_levels(&book);
            self.orderbook_snapshots.push((symbol, book));
            proof {
                assert(self.spec_model() =~= spec_apply(m0, osv)) by {
                    lemma_apply_absent(m0, osv);
                }
                assert(spec_book_at(spec_apply(m0, osv), osv.symbol) == book@) by {
                    lemma_apply_absent(m0, osv);
                    lemma_book_at_found(spec_apply(m0, osv), osv.symbol, m0.len() as int);
                }
            }
        }

        // Sort the rebuilt book.
        let mut aggregated_orderbook = updated;
        sort_aggregated_orderbook(&mut aggregated_orderbook);
        proof {
            lemma_sort_levels(
                Order::DESCENDING,
                Order::DESCENDING,
                spec_flat_bids(spec_book_at(spec_apply(m0, osv), osv.symbol)),
            );
            lemma_sort_levels(
                Order::ASCENDING,
                Order::DESCENDING,
                spec_flat_asks(spec_book_at(spec_apply(m0, osv), osv.symbol)),
            );
        }
        aggregated_orderbook
    }
}

} // verus!

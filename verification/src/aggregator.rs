//! The order-book aggregation contract.
//!
//! The aggregator's state is modelled as an association list from symbol to
//! the latest [`LevelsView`] per venue.  Applying a snapshot overwrites that
//! venue's entry under the snapshot's symbol ("latest wins"), and the merged
//! book of a symbol is the venue-by-venue flattening of its entry, sorted:
//! bids by price descending, asks by price ascending, amounts descending on
//! equal prices, stably, with venues flattened in enumeration order.

use vstd::prelude::*;

use crate::aggregated_orderbook::AggregatedOrderbook;
use crate::exchange::Exchange;
use crate::exchange_level::ExchangeLevel;
use crate::exchange_orderbook::{OrderbookSnapshot, SnapshotView};
use crate::level::Level;
use crate::levels::LevelsView;
use crate::sort::{spec_sort_levels, spec_sorted, Order};

verus! {

/// The latest known sides per venue, for one symbol.
pub struct VenueBookView {
    pub binance: Option<LevelsView>,
    pub bitstamp: Option<LevelsView>,
}

/// A venue book with no venue present.
pub open spec fn spec_empty_book() -> VenueBookView {
    VenueBookView { binance: None, bitstamp: None }
}

/// The entry of one venue in a venue book.
pub open spec fn spec_entry(vb: VenueBookView, e: Exchange) -> Option<LevelsView> {
    match e {
        Exchange::Binance => vb.binance,
        Exchange::Bitstamp => vb.bitstamp,
    }
}

/// Overwrites the entry of one venue in a venue book.
pub open spec fn spec_set_entry(vb: VenueBookView, e: Exchange, l: LevelsView) -> VenueBookView {
    match e {
        Exchange::Binance => VenueBookView { binance: Some(l), ..vb },
        Exchange::Bitstamp => VenueBookView { bitstamp: Some(l), ..vb },
    }
}

/// Attributes every level of one side to the venue that quoted it.
pub open spec fn spec_attach(e: Exchange, ls: Seq<Level>) -> Seq<ExchangeLevel> {
    ls.map_values(|l: Level| ExchangeLevel { exchange: e, level: l })
}

/// One venue's contribution to a flattened side.
pub open spec fn spec_side_of(o: Option<LevelsView>, e: Exchange, bids: bool) -> Seq<
    ExchangeLevel,
> {
    match o {
        None => Seq::empty(),
        Some(l) => spec_attach(
            e,
            if bids {
                l.bids
            } else {
                l.asks
            },
        ),
    }
}

/// All bids of a venue book, venue by venue in enumeration order, unsorted.
pub open spec fn spec_flat_bids(vb: VenueBookView) -> Seq<ExchangeLevel> {
    spec_side_of(vb.binance, Exchange::Binance, true) + spec_side_of(
        vb.bitstamp,
        Exchange::Bitstamp,
        true,
    )
}

/// All asks of a venue book, venue by venue in enumeration order, unsorted.
pub open spec fn spec_flat_asks(vb: VenueBookView) -> Seq<ExchangeLevel> {
    spec_side_of(vb.binance, Exchange::Binance, false) + spec_side_of(
        vb.bitstamp,
        Exchange::Bitstamp,
        false,
    )
}

/// The merged bids: flattened, then stably sorted, price descending and
/// amount descending on equal prices.
pub open spec fn spec_merge_bids(vb: VenueBookView) -> Seq<ExchangeLevel> {
    spec_sort_levels(Order::DESCENDING, Order::DESCENDING, spec_flat_bids(vb))
}

/// The merged asks: flattened, then stably sorted, price ascending and
/// amount descending on equal prices.
pub open spec fn spec_merge_asks(vb: VenueBookView) -> Seq<ExchangeLevel> {
    spec_sort_levels(Order::ASCENDING, Order::DESCENDING, spec_flat_asks(vb))
}

/// Applies one snapshot to the aggregator state: the first entry of the
/// snapshot's symbol has that venue overwritten; a missing symbol is
/// appended.
pub open spec fn spec_apply(
    m: Seq<(Seq<char>, VenueBookView)>,
    os: SnapshotView,
) -> Seq<(Seq<char>, VenueBookView)>
    decreases m.len(),
{
    if m.len() == 0 {
        seq![(os.symbol, spec_set_entry(spec_empty_book(), os.exchange, os.levels))]
    } else if m.first().0 == os.symbol {
        seq![(m.first().0, spec_set_entry(m.first().1, os.exchange, os.levels))] + m.drop_first()
    } else {
        seq![m.first()] + spec_apply(m.drop_first(), os)
    }
}

/// The venue book held for a symbol; empty when the symbol is unknown.
pub open spec fn spec_book_at(m: Seq<(Seq<char>, VenueBookView)>, sym: Seq<char>) -> VenueBookView
    decreases m.len(),
{
    if m.len() == 0 {
        spec_empty_book()
    } else if m.first().0 == sym {
        m.first().1
    } else {
        spec_book_at(m.drop_first(), sym)
    }
}

/// The predicate that keeps one venue's levels of a merged side.
pub open spec fn spec_from_venue(e: Exchange) -> spec_fn(ExchangeLevel) -> bool {
    |al: ExchangeLevel| al.exchange == e
}

/// Latest wins: for every venue present in a venue book, the sublist of the
/// merged bids (resp. asks) attributed to that venue is exactly that
/// venue's latest side, attributed and resorted on its own.
pub proof fn lemma_latest_wins(vb: VenueBookView, e: Exchange)
    requires
        spec_entry(vb, e) is Some,
    ensures
        spec_merge_bids(vb).filter(spec_from_venue(e)) == spec_sort_levels(
            Order::DESCENDING,
            Order::DESCENDING,
            spec_attach(e, spec_entry(vb, e)->0.bids),
        ),
        spec_merge_asks(vb).filter(spec_from_venue(e)) == spec_sort_levels(
            Order::ASCENDING,
            Order::DESCENDING,
            spec_attach(e, spec_entry(vb, e)->0.asks),
        ),
{
    let pred = spec_from_venue(e);
    lemma_flat_filter(vb, e, true);
    lemma_flat_filter(vb, e, false);
    crate::sort::lemma_sort_filter_commute(
        Order::DESCENDING,
        Order::DESCENDING,
        spec_flat_bids(vb),
        pred,
    );
    crate::sort::lemma_sort_filter_commute(
        Order::ASCENDING,
        Order::DESCENDING,
        spec_flat_asks(vb),
        pred,
    );
}

/// Filtering a flattened side down to one present venue leaves exactly that
/// venue's attributed side.
proof fn lemma_flat_filter(vb: VenueBookView, e: Exchange, bids: bool)
    requires
        spec_entry(vb, e) is Some,
    ensures
        bids ==> spec_flat_bids(vb).filter(spec_from_venue(e)) == spec_attach(
            e,
            spec_entry(vb, e)->0.bids,
        ),
        !bids ==> spec_flat_asks(vb).filter(spec_from_venue(e)) == spec_attach(
            e,
            spec_entry(vb, e)->0.asks,
        ),
{
    let pred = spec_from_venue(e);
    let sb = spec_side_of(vb.binance, Exchange::Binance, bids);
    let st = spec_side_of(vb.bitstamp, Exchange::Bitstamp, bids);
    Seq::filter_distributes_over_add(sb, st, pred);
    assert(forall|i: int| 0 <= i < sb.len() ==> (#[trigger] sb[i]).exchange == Exchange::Binance);
    assert(forall|i: int| 0 <= i < st.len() ==> (#[trigger] st[i]).exchange == Exchange::Bitstamp);
    match e {
        Exchange::Binance => {
            crate::sort::lemma_filter_all(sb, pred);
            crate::sort::lemma_filter_none(st, pred);
            assert(sb.filter(pred) + st.filter(pred) =~= sb);
        },
        Exchange::Bitstamp => {
            crate::sort::lemma_filter_none(sb, pred);
            crate::sort::lemma_filter_all(st, pred);
            assert(sb.filter(pred) + st.filter(pred) =~= st);
        },
    }
}

/// After a snapshot is applied, the venue's entry under the snapshot's
/// symbol is exactly that snapshot's sides: together with
/// [`lemma_latest_wins`], each venue's sublist of the merged book is its
/// latest snapshot, attributed and resorted.
pub proof fn lemma_apply_latest(m: Seq<(Seq<char>, VenueBookView)>, os: SnapshotView)
    ensures
        spec_entry(spec_book_at(spec_apply(m, os), os.symbol), os.exchange) == Some(os.levels),
    decreases m.len(),
{
    if m.len() == 0 {
    } else if m.first().0 == os.symbol {
    } else {
        lemma_apply_latest(m.drop_first(), os);
        assert((seq![m.first()] + spec_apply(m.drop_first(), os)).drop_first() =~= spec_apply(
            m.drop_first(),
            os,
        ));
    }
}

/// Idempotence: applying the same snapshot twice leaves the same state as
/// applying it once, so re-sending a snapshot does not change the merged
/// book.
pub proof fn lemma_resend_unchanged(m: Seq<(Seq<char>, VenueBookView)>, os: SnapshotView)
    ensures
        spec_apply(spec_apply(m, os), os) == spec_apply(m, os),
    decreases m.len(),
{
    let once = spec_apply(m, os);
    if m.len() == 0 {
        assert(once.first().0 == os.symbol);
        assert(spec_apply(once, os) =~= once);
    } else if m.first().0 == os.symbol {
        assert(once.first().0 == os.symbol);
        assert(once.drop_first() =~= m.drop_first());
        assert(spec_apply(once, os) =~= once);
    } else {
        lemma_resend_unchanged(m.drop_first(), os);
        assert(once.first() == m.first());
        assert(once.drop_first() =~= spec_apply(m.drop_first(), os));
        assert(spec_apply(once, os) =~= seq![once.first()] + spec_apply(once.drop_first(), os));
        assert(spec_apply(once, os) =~= once);
    }
}

/// A consumer of venue order-book snapshots that maintains the merged book.
pub trait OrderbookSnapshotAggregator: Sized {
    /// The aggregator's state: symbol to latest sides per venue.
    spec fn model(&self) -> Seq<(Seq<char>, VenueBookView)>;

    /// Constructs an aggregator that has seen no snapshot.
    fn new() -> (r: Self)
        ensures
            r.model() == Seq::<(Seq<char>, VenueBookView)>::empty(),
    ;

    /// Called when any exchange client publishes an order-book snapshot.
    ///
    /// Overwrites the venue's entry under the snapshot's symbol and returns
    /// the merged [`AggregatedOrderbook`] of that symbol: a pure function of
    /// the updated state, sorted as the model prescribes.
    fn on_orderbook_snapshot(&mut self, orderbook_snapshot: OrderbookSnapshot) -> (r:
        AggregatedOrderbook)
        ensures
            final(self).model() == spec_apply(old(self).model(), orderbook_snapshot@),
            r.bids@ == spec_merge_bids(
                spec_book_at(final(self).model(), orderbook_snapshot@.symbol),
            ),
            r.asks@ == spec_merge_asks(
                spec_book_at(final(self).model(), orderbook_snapshot@.symbol),
            ),
            spec_sorted(Order::DESCENDING, Order::DESCENDING, r.bids@),
            spec_sorted(Order::ASCENDING, Order::DESCENDING, r.asks@),
    ;
}

} // verus!

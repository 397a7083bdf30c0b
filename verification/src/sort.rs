//! Stable sorting of attributed levels.
//!
//! The merged book is sorted by price and, on equal prices, by amount; each
//! key may run ascending or descending.  The sort is stable: levels whose
//! price and amount are both equal keep their original relative order, so
//! the earlier-encountered venue wins exact ties.  The specification-level
//! sort is an insertion sort that places each element after all elements it
//! does not strictly precede, which pins the output down as a function of
//! the input.

use vstd::prelude::*;

use crate::exchange_level::ExchangeLevel;

verus! {

/// Direction of one key of the sort comparator.
#[allow(non_camel_case_types)]
#[derive(Copy, Clone, Debug, PartialEq, Eq, Structural)]
pub enum Order {
    ASCENDING,
    DESCENDING,
}

/// Whether `a` must come strictly before `b`: by price in the given price
/// order, and on equal prices by amount in the given amount order.
pub open spec fn spec_level_before(
    price_order: Order,
    amount_order: Order,
    a: ExchangeLevel,
    b: ExchangeLevel,
) -> bool {
    if a.level.price != b.level.price {
        match price_order {
            Order::ASCENDING => a.level.price < b.level.price,
            Order::DESCENDING => a.level.price > b.level.price,
        }
    } else {
        match amount_order {
            Order::ASCENDING => a.level.amount < b.level.amount,
            Order::DESCENDING => a.level.amount > b.level.amount,
        }
    }
}

/// A sequence is sorted when no element strictly precedes an earlier one.
pub open spec fn spec_sorted(po: Order, ao: Order, s: Seq<ExchangeLevel>) -> bool {
    forall|i: int, j: int|
        0 <= i < j < s.len() ==> !spec_level_before(po, ao, #[trigger] s[j], #[trigger] s[i])
}

/// Inserts `x` into `s` after every element that `x` does not strictly
/// precede.
pub open spec fn spec_insert_level(
    po: Order,
    ao: Order,
    s: Seq<ExchangeLevel>,
    x: ExchangeLevel,
) -> Seq<ExchangeLevel>
    decreases s.len(),
{
    if s.len() == 0 {
        seq![x]
    } else if spec_level_before(po, ao, x, s.last()) {
        spec_insert_level(po, ao, s.drop_last(), x).push(s.last())
    } else {
        s.push(x)
    }
}

/// Stable insertion sort: elements are inserted in input order, each after
/// its equals.
pub open spec fn spec_sort_levels(po: Order, ao: Order, s: Seq<ExchangeLevel>) -> Seq<
    ExchangeLevel,
>
    decreases s.len(),
{
    if s.len() == 0 {
        Seq::empty()
    } else {
        spec_insert_level(po, ao, spec_sort_levels(po, ao, s.drop_last()), s.last())
    }
}

/// Inserting into a sorted sequence keeps it sorted, adds exactly the new
/// element, and grows the length by one.
pub proof fn lemma_insert_level(po: Order, ao: Order, s: Seq<ExchangeLevel>, x: ExchangeLevel)
    requires
        spec_sorted(po, ao, s),
    ensures
        spec_sorted(po, ao, spec_insert_level(po, ao, s, x)),
        spec_insert_level(po, ao, s, x).len() == s.len() + 1,
        spec_insert_level(po, ao, s, x).to_multiset() == s.to_multiset().insert(x),
        forall|i: int|
            0 <= i < spec_insert_level(po, ao, s, x).len() ==> (#[trigger] spec_insert_level(
                po,
                ao,
                s,
                x,
            )[i] == x || s.contains(spec_insert_level(po, ao, s, x)[i])),
    decreases s.len(),
{
    broadcast use vstd::seq_lib::group_to_multiset_ensures;

    let r = spec_insert_level(po, ao, s, x);
    if s.len() == 0 {
        assert(seq![x].to_multiset() =~= s.to_multiset().insert(x));
    } else if spec_level_before(po, ao, x, s.last()) {
        let sd = s.drop_last();
        assert(spec_sorted(po, ao, sd));
        lemma_insert_level(po, ao, sd, x);
        let rd = spec_insert_level(po, ao, sd, x);
        assert(r == rd.push(s.last()));
        // Every element of rd is x or an element of sd; the last element of s
        // does not strictly precede any of them.
        assert forall|i: int, j: int| 0 <= i < j < r.len() implies !spec_level_before(
            po,
            ao,
            r[j],
            r[i],
        ) by {
            if j == r.len() - 1 {
                assert(r[j] == s.last());
                assert(rd[i] == x || sd.contains(rd[i]));
                if rd[i] == x {
                    assert(!spec_level_before(po, ao, s.last(), x));
                } else {
                    let k = choose|k: int| 0 <= k < sd.len() && sd[k] == rd[i];
                    assert(!spec_level_before(po, ao, s.last(), sd[k]));
                }
            } else {
                assert(!spec_level_before(po, ao, rd[j], rd[i]));
            }
        }
        assert(r.to_multiset() =~= s.to_multiset().insert(x)) by {
            assert(rd.to_multiset() == sd.to_multiset().insert(x));
            assert(r.to_multiset() == rd.to_multiset().insert(s.last()));
            assert(sd.push(s.last()) =~= s);
            assert(sd.push(s.last()).to_multiset() == sd.to_multiset().insert(s.last()));
        }
        assert forall|i: int| 0 <= i < r.len() implies (r[i] == x || s.contains(r[i])) by {
            if i < r.len() - 1 {
                assert(rd[i] == x || sd.contains(rd[i]));
                if rd[i] != x {
                    let k = choose|k: int| 0 <= k < sd.len() && sd[k] == rd[i];
                    assert(s[k] == rd[i]);
                }
            } else {
                assert(r[i] == s.last());
                assert(s[s.len() - 1] == s.last());
            }
        }
    } else {
        assert(r == s.push(x));
        assert forall|i: int, j: int| 0 <= i < j < r.len() implies !spec_level_before(
            po,
            ao,
            r[j],
            r[i],
        ) by {
            if j == r.len() - 1 {
                // x does not strictly precede s.last(), and by sortedness and
                // transitivity it does not strictly precede anything before it.
                assert(!spec_level_before(po, ao, x, s.last()));
                assert(!spec_level_before(po, ao, s.last(), s[i]));
            }
        }
        assert(r.to_multiset() =~= s.to_multiset().insert(x));
    }
}

/// The sorted sequence: sorted, the same multiset, the same length.
pub proof fn lemma_sort_levels(po: Order, ao: Order, s: Seq<ExchangeLevel>)
    ensures
        spec_sorted(po, ao, spec_sort_levels(po, ao, s)),
        spec_sort_levels(po, ao, s).len() == s.len(),
        spec_sort_levels(po, ao, s).to_multiset() == s.to_multiset(),
    decreases s.len(),
{
    broadcast use vstd::seq_lib::group_to_multiset_ensures;

    if s.len() > 0 {
        lemma_sort_levels(po, ao, s.drop_last());
        lemma_insert_level(po, ao, spec_sort_levels(po, ao, s.drop_last()), s.last());
        assert(s.drop_last().push(s.last()) =~= s);
        assert(s.drop_last().push(s.last()).to_multiset() == s.drop_last().to_multiset().insert(
            s.last(),
        ));
    }
}

/// Where the scan of the in-place insertion stops, the insertion
/// specification splits the sequence.
proof fn lemma_insert_level_position(
    po: Order,
    ao: Order,
    s: Seq<ExchangeLevel>,
    x: ExchangeLevel,
    p: int,
)
    requires
        spec_sorted(po, ao, s),
        0 <= p <= s.len(),
        forall|k: int| p <= k < s.len() ==> spec_level_before(po, ao, x, #[trigger] s[k]),
        p > 0 ==> !spec_level_before(po, ao, x, s[p - 1]),
    ensures
        spec_insert_level(po, ao, s, x) == s.take(p) + seq![x] + s.skip(p),
    decreases s.len(),
{
    if p == s.len() {
        if s.len() == 0 {
            assert(spec_insert_level(po, ao, s, x) =~= s.take(p) + seq![x] + s.skip(p));
        } else {
            assert(!spec_level_before(po, ao, x, s.last()));
            assert(spec_insert_level(po, ao, s, x) =~= s.take(p) + seq![x] + s.skip(p));
        }
    } else {
        assert(spec_level_before(po, ao, x, s.last()));
        let sd = s.drop_last();
        assert(spec_sorted(po, ao, sd));
        lemma_insert_level_position(po, ao, sd, x, p);
        assert(spec_insert_level(po, ao, s, x) == spec_insert_level(po, ao, sd, x).push(s.last()));
        assert((sd.take(p) + seq![x] + sd.skip(p)).push(s.last()) =~= s.take(p) + seq![x] + s.skip(
            p,
        ));
    }
}

/// Sorts the attributed levels of one book side.
///
/// The price runs in `price_order`; on equal prices the amount runs in
/// `amount_order`, which the callers always pass as descending.  The sort is
/// stable, so exact ties keep their input order.
pub fn sort_exchange_levels(el: &mut Vec<ExchangeLevel>, price_order: Order, amount_order: Order)
    requires
        amount_order is DESCENDING,
    ensures
        final(el)@ == spec_sort_levels(price_order, amount_order, old(el)@),
{
    let ghost orig = el@;
    let n = el.len();
    let mut out: Vec<ExchangeLevel> = Vec::new();
    proof {
        assert(orig.take(0) =~= Seq::<ExchangeLevel>::empty());
    }
    let mut i: usize = 0;
    while i < n
        invariant
            0 <= i <= n,
            n == el.len(),
            el@ == orig,
            orig.len() == n,
            out@ == spec_sort_levels(price_order, amount_order, orig.take(i as int)),
            out@.len() == i,
        decreases n - i,
    {
        proof {
            lemma_sort_levels(price_order, amount_order, orig.take(i as int));
        }
        let x = el[i];
        let mut p: usize = out.len();
        while p > 0 && level_before(price_order, amount_order, &x, &out[p - 1])
            invariant
                0 <= p <= out.len(),
                forall|k: int|
                    p <= k < out@.len() ==> spec_level_before(
                        price_order,
                        amount_order,
                        x,
                        #[trigger] out@[k],
                    ),
            decreases p,
        {
            p = p - 1;
        }
        proof {
            lemma_insert_level_position(price_order, amount_order, out@, x, p as int);
        }
        let ghost before = out@;
        out.insert(p, x);
        proof {
            assert(out@ =~= before.take(p as int) + seq![x] + before.skip(p as int));
            assert(orig.take(i + 1).drop_last() =~= orig.take(i as int));
            assert(orig.take(i + 1).last() == orig[i as int]);
            assert(out@ == spec_sort_levels(price_order, amount_order, orig.take(i + 1)));
        }
        i = i + 1;
    }
    proof {
        assert(orig.take(n as int) =~= orig);
    }
    *el = out;
}

/// The strict order composes with the non-strict one: if `a` comes strictly
/// before `b`, and `c` does not, then `a` comes strictly before `c`.
proof fn lemma_before_compose(po: Order, ao: Order, a: ExchangeLevel, b: ExchangeLevel, c: ExchangeLevel)
    requires
        spec_level_before(po, ao, a, b),
        !spec_level_before(po, ao, c, b),
    ensures
        spec_level_before(po, ao, a, c),
{
}

/// The position at which [`spec_insert_level`] places the new element.
pub open spec fn spec_insert_position(
    po: Order,
    ao: Order,
    s: Seq<ExchangeLevel>,
    x: ExchangeLevel,
) -> int
    decreases s.len(),
{
    if s.len() == 0 {
        0
    } else if spec_level_before(po, ao, x, s.last()) {
        spec_insert_position(po, ao, s.drop_last(), x)
    } else {
        s.len() as int
    }
}

/// The insertion position: everything from it on is strictly preceded by
/// the new element, and the element just before it is not.
proof fn lemma_insert_position_props(po: Order, ao: Order, s: Seq<ExchangeLevel>, x: ExchangeLevel)
    ensures
        0 <= spec_insert_position(po, ao, s, x) <= s.len(),
        forall|k: int|
            spec_insert_position(po, ao, s, x) <= k < s.len() ==> spec_level_before(
                po,
                ao,
                x,
                #[trigger] s[k],
            ),
        spec_insert_position(po, ao, s, x) > 0 ==> !spec_level_before(
            po,
            ao,
            x,
            s[spec_insert_position(po, ao, s, x) - 1],
        ),
    decreases s.len(),
{
    if s.len() > 0 && spec_level_before(po, ao, x, s.last()) {
        lemma_insert_position_props(po, ao, s.drop_last(), x);
        assert forall|k: int|
            spec_insert_position(po, ao, s, x) <= k < s.len() implies spec_level_before(
            po,
            ao,
            x,
            #[trigger] s[k],
        ) by {
            if k < s.len() - 1 {
                assert(s.drop_last()[k] == s[k]);
            }
        }
    }
}

/// Every element of a filtered sequence is an element of the original.
proof fn lemma_filter_subset(s: Seq<ExchangeLevel>, pred: spec_fn(ExchangeLevel) -> bool)
    ensures
        forall|i: int| 0 <= i < s.filter(pred).len() ==> s.contains(#[trigger] s.filter(pred)[i]),
    decreases s.len(),
{
    reveal(Seq::filter);
    if s.len() > 0 {
        lemma_filter_subset(s.drop_last(), pred);
        let f = s.filter(pred);
        let fd = s.drop_last().filter(pred);
        assert forall|i: int| 0 <= i < f.len() implies s.contains(#[trigger] f[i]) by {
            if pred(s.last()) && i == f.len() - 1 {
                assert(s[s.len() - 1] == s.last());
            } else {
                assert(f[i] == fd[i]);
                assert(s.drop_last().contains(fd[i]));
                let k = choose|k: int| 0 <= k < s.drop_last().len() && s.drop_last()[k] == fd[i];
                assert(s[k] == fd[i]);
            }
        }
    }
}

/// Filtering a sorted sequence keeps it sorted.
proof fn lemma_filter_sorted(
    po: Order,
    ao: Order,
    s: Seq<ExchangeLevel>,
    pred: spec_fn(ExchangeLevel) -> bool,
)
    requires
        spec_sorted(po, ao, s),
    ensures
        spec_sorted(po, ao, s.filter(pred)),
    decreases s.len(),
{
    reveal(Seq::filter);
    if s.len() > 0 {
        assert(spec_sorted(po, ao, s.drop_last()));
        lemma_filter_sorted(po, ao, s.drop_last(), pred);
        if pred(s.last()) {
            let fd = s.drop_last().filter(pred);
            let f = s.filter(pred);
            lemma_filter_subset(s.drop_last(), pred);
            assert forall|i: int, j: int| 0 <= i < j < f.len() implies !spec_level_before(
                po,
                ao,
                f[j],
                f[i],
            ) by {
                if j == f.len() - 1 {
                    assert(f[i] == fd[i]);
                    assert(s.drop_last().contains(fd[i]));
                    let k = choose|k: int|
                        0 <= k < s.drop_last().len() && s.drop_last()[k] == fd[i];
                    assert(!spec_level_before(po, ao, s.last(), s[k]));
                } else {
                    assert(f[i] == fd[i] && f[j] == fd[j]);
                }
            }
        }
    }
}

/// Filtering keeps everything when every element satisfies the predicate.
pub proof fn lemma_filter_all(s: Seq<ExchangeLevel>, pred: spec_fn(ExchangeLevel) -> bool)
    requires
        forall|i: int| 0 <= i < s.len() ==> pred(#[trigger] s[i]),
    ensures
        s.filter(pred) == s,
    decreases s.len(),
{
    reveal(Seq::filter);
    if s.len() > 0 {
        assert(forall|i: int| 0 <= i < s.drop_last().len() ==> pred(#[trigger] s.drop_last()[i]));
        lemma_filter_all(s.drop_last(), pred);
        assert(pred(s[s.len() - 1]));
        assert(s.filter(pred) =~= s);
    }
}

/// Filtering drops everything when no element satisfies the predicate.
pub proof fn lemma_filter_none(s: Seq<ExchangeLevel>, pred: spec_fn(ExchangeLevel) -> bool)
    requires
        forall|i: int| 0 <= i < s.len() ==> !pred(#[trigger] s[i]),
    ensures
        s.filter(pred) == Seq::<ExchangeLevel>::empty(),
    decreases s.len(),
{
    reveal(Seq::filter);
    if s.len() > 0 {
        assert(forall|i: int| 0 <= i < s.drop_last().len() ==> !pred(#[trigger] s.drop_last()[i]));
        lemma_filter_none(s.drop_last(), pred);
        assert(!pred(s[s.len() - 1]));
    }
}

/// Filtering commutes with inserting: the new element lands among its own.
proof fn lemma_insert_filter(
    po: Order,
    ao: Order,
    t: Seq<ExchangeLevel>,
    x: ExchangeLevel,
    pred: spec_fn(ExchangeLevel) -> bool,
)
    requires
        spec_sorted(po, ao, t),
    ensures
        pred(x) ==> spec_insert_level(po, ao, t, x).filter(pred) == spec_insert_level(
            po,
            ao,
            t.filter(pred),
            x,
        ),
        !pred(x) ==> spec_insert_level(po, ao, t, x).filter(pred) == t.filter(pred),
{
    let p = spec_insert_position(po, ao, t, x);
    lemma_insert_position_props(po, ao, t, x);
    lemma_insert_level_position(po, ao, t, x, p);
    let a = t.take(p).filter(pred);
    let b = t.skip(p).filter(pred);
    let xs = seq![x].filter(pred);
    assert(xs == if pred(x) {
        seq![x]
    } else {
        Seq::<ExchangeLevel>::empty()
    }) by {
        reveal(Seq::filter);
        assert(seq![x].drop_last() =~= Seq::<ExchangeLevel>::empty());
        assert(Seq::<ExchangeLevel>::empty().filter(pred) == Seq::<ExchangeLevel>::empty());
        assert(seq![x].last() == x);
        if pred(x) {
            assert(Seq::<ExchangeLevel>::empty().push(x) =~= seq![x]);
        }
    }
    // The insertion splits; filtering distributes over the three pieces.
    assert(spec_insert_level(po, ao, t, x).filter(pred) == a + xs + b) by {
        assert(t.take(p) + seq![x] + t.skip(p) =~= (t.take(p) + seq![x]) + t.skip(p));
        Seq::filter_distributes_over_add(t.take(p) + seq![x], t.skip(p), pred);
        Seq::filter_distributes_over_add(t.take(p), seq![x], pred);
    }
    assert(t.filter(pred) == a + b) by {
        assert(t =~= t.take(p) + t.skip(p));
        Seq::filter_distributes_over_add(t.take(p), t.skip(p), pred);
    }
    if pred(x) {
        let tf = t.filter(pred);
        let pp = a.len() as int;
        lemma_filter_sorted(po, ao, t, pred);
        lemma_filter_subset(t.take(p), pred);
        lemma_filter_subset(t.skip(p), pred);
        assert forall|k: int| pp <= k < tf.len() implies spec_level_before(
            po,
            ao,
            x,
            #[trigger] tf[k],
        ) by {
            assert(tf[k] == b[k - pp]);
            assert(t.skip(p).contains(b[k - pp]));
            let m = choose|m: int| 0 <= m < t.skip(p).len() && t.skip(p)[m] == b[k - pp];
            assert(t.skip(p)[m] == t[p + m]);
            assert(spec_level_before(po, ao, x, t[p + m]));
        }
        if pp > 0 {
            assert(!spec_level_before(po, ao, x, tf[pp - 1])) by {
                assert(tf[pp - 1] == a[pp - 1]);
                assert(t.take(p).contains(a[pp - 1]));
                let m = choose|m: int| 0 <= m < t.take(p).len() && t.take(p)[m] == a[pp - 1];
                assert(t.take(p)[m] == t[m]);
                if spec_level_before(po, ao, x, t[m]) {
                    assert(!spec_level_before(po, ao, t[p - 1], t[m]));
                    lemma_before_compose(po, ao, x, t[m], t[p - 1]);
                }
            }
        }
        lemma_insert_level_position(po, ao, tf, x, pp);
        assert(tf.take(pp) =~= a);
        assert(tf.skip(pp) =~= b);
        assert(a + xs + b =~= tf.take(pp) + seq![x] + tf.skip(pp));
    } else {
        assert(a + xs + b =~= a + b);
    }
}

/// Filtering commutes with the stable sort: sorting and then keeping one
/// venue's levels gives the same sequence as sorting that venue's levels
/// alone.
pub proof fn lemma_sort_filter_commute(
    po: Order,
    ao: Order,
    s: Seq<ExchangeLevel>,
    pred: spec_fn(ExchangeLevel) -> bool,
)
    ensures
        spec_sort_levels(po, ao, s).filter(pred) == spec_sort_levels(po, ao, s.filter(pred)),
    decreases s.len(),
{
    reveal(Seq::filter);
    if s.len() == 0 {
        assert(spec_sort_levels(po, ao, s).filter(pred) =~= Seq::<ExchangeLevel>::empty());
        assert(s.filter(pred) =~= Seq::<ExchangeLevel>::empty());
    } else {
        let t = spec_sort_levels(po, ao, s.drop_last());
        lemma_sort_levels(po, ao, s.drop_last());
        lemma_sort_filter_commute(po, ao, s.drop_last(), pred);
        lemma_insert_filter(po, ao, t, s.last(), pred);
        if pred(s.last()) {
            assert(s.filter(pred) == s.drop_last().filter(pred).push(s.last()));
            assert(s.filter(pred).drop_last() =~= s.drop_last().filter(pred));
            assert(s.filter(pred).len() > 0);
            assert(s.filter(pred).last() == s.last());
        } else {
            assert(s.filter(pred) == s.drop_last().filter(pred));
        }
    }
}

/// Executable twin of [`spec_level_before`].
pub fn level_before(
    price_order: Order,
    amount_order: Order,
    a: &ExchangeLevel,
    b: &ExchangeLevel,
) -> (r: bool)
    ensures
        r == spec_level_before(price_order, amount_order, *a, *b),
{
    if a.level.price != b.level.price {
        match price_order {
            Order::ASCENDING => a.level.price < b.level.price,
            Order::DESCENDING => a.level.price > b.level.price,
        }
    } else {
        match amount_order {
            Order::ASCENDING => a.level.amount < b.level.amount,
            Order::DESCENDING => a.level.amount > b.level.amount,
        }
    }
}

} // verus!

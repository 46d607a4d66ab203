//! What holds of order books and of what is emitted of them.

use crate::book::ask_kept;
use crate::book::bid_kept;
use crate::book::crossed;
use crate::book::emitted_asks;
use crate::book::emitted_bids;
use crate::book::filled;
use crate::book::filled_is_ordered;
use crate::book::filtered_item;
use crate::book::filters;
use crate::book::first_levels;
use crate::book::full_item;
use crate::book::last_levels;
use crate::book::lob_item;
use crate::book::threshold;
use crate::book::DepthView;
use crate::book::Side;
use crate::items::LobLevel;
use crate::items::LobView;
use crate::ladder::best_ask;
use crate::ladder::best_bid;
use crate::ladder::erase_is_local;
use crate::ladder::prices_are_numbers;
use crate::ladder::size_at;
use crate::ladder::sorted;
use crate::ladder::upsert_is_local;
use crate::num::answer;
use crate::num::order_key;
use crate::num::FloatOp;
use crate::num::Num;
use crate::num::HUNDRED;
use vstd::prelude::*;

verus! {

proof fn lemma_filter(s: Seq<LobLevel>, keep: spec_fn(LobLevel) -> bool)
    requires
        sorted(s),
    ensures
        sorted(s.filter(keep)),
        s.filter(keep).len() <= s.len(),
        forall|i: int|
            0 <= i < s.filter(keep).len() ==> keep(#[trigger] s.filter(keep)[i]) && s.contains(
                s.filter(keep)[i],
            ),
        s.len() > 0 && keep(s.last()) ==> s.filter(keep).len() > 0 && s.filter(keep).last()
            == s.last(),
        s.len() > 0 && keep(s[0]) ==> s.filter(keep).len() > 0 && s.filter(keep)[0] == s[0],
    decreases s.len(),
{
    reveal(Seq::filter);
    if s.len() > 0 {
        let t = s.drop_last();
        let f = s.filter(keep);
        let g = t.filter(keep);
        lemma_filter(t, keep);
        assert forall|i: int| 0 <= i < f.len() implies keep(#[trigger] f[i]) && s.contains(
            f[i],
        ) by {
            if i < g.len() {
                assert(f[i] == g[i]);
                let k = choose|k: int| 0 <= k < t.len() && t[k] == g[i];
                assert(s[k] == f[i]);
            } else {
                assert(f[i] == s.last());
                assert(s[s.len() - 1] == f[i]);
            }
        }
        if keep(s.last()) {
            assert forall|i: int, j: int| 0 <= i < j < f.len() implies (
            #[trigger] f[i]).price.key() < (#[trigger] f[j]).price.key() by {
                if j == f.len() - 1 {
                    assert(f[i] == g[i]);
                    let k = choose|k: int| 0 <= k < t.len() && t[k] == g[i];
                    assert(s[k] == g[i]);
                    assert(s[k].price.key() < s[s.len() - 1].price.key());
                } else {
                    assert(f[i] == g[i] && f[j] == g[j]);
                }
            }
        }
        if keep(s[0]) {
            if t.len() > 0 {
                assert(t[0] == s[0]);
                assert(f[0] == g[0]);
            }
        }
    }
}

/// What is emitted is in ascending order on both sides, holds at least one
/// and at most `max` levels of each, and only levels of the book that have a
/// size and lie within the price filter.
pub proof fn item_is_well_formed(
    d: DepthView,
    ts: u64,
    exchange: Seq<char>,
    max: Option<usize>,
    floor: Option<Num>,
    ceiling: Option<Num>,
)
    requires
        d.wf(),
    ensures
        lob_item(d.bids, d.asks, ts, exchange, max, floor, ceiling) matches Some(item) ==> {
            &&& sorted(item.bids) && sorted(item.asks)
            &&& item.bids.len() > 0 && item.asks.len() > 0
            &&& max matches Some(n) ==> item.bids.len() <= n && item.asks.len() <= n
            &&& forall|i: int|
                0 <= i < item.bids.len() ==> bid_kept(#[trigger] item.bids[i], floor)
                    && d.bids.contains(item.bids[i])
            &&& forall|i: int|
                0 <= i < item.asks.len() ==> ask_kept(#[trigger] item.asks[i], ceiling)
                    && d.asks.contains(item.asks[i])
        },
{
    let kb = |l: LobLevel| bid_kept(l, floor);
    let ka = |l: LobLevel| ask_kept(l, ceiling);
    lemma_filter(d.bids, kb);
    lemma_filter(d.asks, ka);
    let fb = d.bids.filter(kb);
    let fa = d.asks.filter(ka);
    let eb = emitted_bids(d.bids, floor, max);
    let ea = emitted_asks(d.asks, ceiling, max);
    let cut = if max matches Some(n) && n < fb.len() {
        fb.len() - max->0
    } else {
        0
    };
    assert forall|i: int| 0 <= i < eb.len() implies #[trigger] eb[i] == fb[i + cut] by {}
    assert forall|i: int| 0 <= i < eb.len() implies bid_kept(#[trigger] eb[i], floor)
        && d.bids.contains(eb[i]) by {
        assert(eb[i] == fb[i + cut]);
        assert(kb(fb[i + cut]));
    }
    assert forall|i: int, j: int| 0 <= i < j < eb.len() implies (#[trigger] eb[i]).price.key() < (
    #[trigger] eb[j]).price.key() by {
        assert(fb[i + cut].price.key() < fb[j + cut].price.key());
    }
    assert forall|i: int| 0 <= i < ea.len() implies ask_kept(#[trigger] ea[i], ceiling)
        && d.asks.contains(ea[i]) by {
        assert(ea[i] == fa[i]);
        assert(ka(fa[i]));
    }
    assert forall|i: int, j: int| 0 <= i < j < ea.len() implies (#[trigger] ea[i]).price.key() < (
    #[trigger] ea[j]).price.key() by {
        assert(fa[i].price.key() < fa[j].price.key());
    }
}

/// The best levels stay the best: a best bid that is kept is the last bid of
/// the item, and a best ask that is kept is its first ask.
pub proof fn item_keeps_the_best(
    d: DepthView,
    ts: u64,
    exchange: Seq<char>,
    max: Option<usize>,
    floor: Option<Num>,
    ceiling: Option<Num>,
)
    requires
        d.wf(),
        d.bids.len() > 0,
        d.asks.len() > 0,
        bid_kept(d.bids.last(), floor),
        ask_kept(d.asks[0], ceiling),
        max != Some(0usize),
    ensures
        lob_item(d.bids, d.asks, ts, exchange, max, floor, ceiling) matches Some(item)
            && item.bids.last() == d.bids.last() && item.asks[0] == d.asks[0],
{
    lemma_filter(d.bids, |l: LobLevel| bid_kept(l, floor));
    lemma_filter(d.asks, |l: LobLevel| ask_kept(l, ceiling));
}

/// A limit on the number of levels keeps the best of what would be emitted
/// without it: the last bids and the first asks.
pub proof fn limit_keeps_the_best_levels(
    d: DepthView,
    ts: u64,
    exchange: Seq<char>,
    n: usize,
    floor: Option<Num>,
    ceiling: Option<Num>,
)
    requires
        n > 0,
    ensures
        match (
            lob_item(d.bids, d.asks, ts, exchange, Some(n), floor, ceiling),
            lob_item(d.bids, d.asks, ts, exchange, None, floor, ceiling),
        ) {
            (Some(limited), Some(all)) => limited.bids == last_levels(all.bids, n as int)
                && limited.asks == first_levels(all.asks, n as int),
            (None, None) => true,
            _ => false,
        },
{
}

proof fn lemma_filter_all(s: Seq<LobLevel>, keep: spec_fn(LobLevel) -> bool)
    requires
        forall|i: int| 0 <= i < s.len() ==> keep(#[trigger] s[i]),
    ensures
        s.filter(keep) == s,
    decreases s.len(),
{
    reveal(Seq::filter);
    if s.len() > 0 {
        let t = s.drop_last();
        assert forall|i: int| 0 <= i < t.len() implies keep(#[trigger] t[i]) by {
            assert(t[i] == s[i]);
        }
        lemma_filter_all(t, keep);
        assert(keep(s[s.len() - 1]));
        assert(t.push(s.last()) =~= s);
    }
}

/// Without filters every level that the book holds is emitted.
pub proof fn full_item_holds_every_level(d: DepthView, ts: u64, exchange: Seq<char>)
    requires
        d.bids.len() > 0,
        d.asks.len() > 0,
        forall|i: int| 0 <= i < d.bids.len() ==> !(#[trigger] d.bids[i]).size.zero(),
        forall|i: int| 0 <= i < d.asks.len() ==> !(#[trigger] d.asks[i]).size.zero(),
    ensures
        full_item(d, ts, exchange) == Some(
            LobView { ts, exchange, bids: d.bids, asks: d.asks },
        ),
{
    lemma_filter_all(d.bids, |l: LobLevel| bid_kept(l, None));
    lemma_filter_all(d.asks, |l: LobLevel| ask_kept(l, None));
}

/// A percentage of 0, of 100 or more, or one that is no number filters
/// nothing: without a limit the item is the full one.
pub proof fn no_filter_means_full<A: Fn(FloatOp, Num, Num) -> Num>(
    unit: A,
    d: DepthView,
    ts: u64,
    exchange: Seq<char>,
    pct: Num,
)
    requires
        !filters(pct),
    ensures
        filtered_item(unit, d.bids, d.asks, ts, exchange, None, pct) == full_item(d, ts, exchange),
{
}

/// From a book that is not crossed and whose prices are numbers, what is
/// emitted is not crossed either: its best bid is below its best ask.
pub proof fn item_is_not_crossed(
    d: DepthView,
    ts: u64,
    exchange: Seq<char>,
    max: Option<usize>,
    floor: Option<Num>,
    ceiling: Option<Num>,
)
    requires
        d.wf(),
        !d.is_crossed(),
        prices_are_numbers(d.bids),
        prices_are_numbers(d.asks),
    ensures
        lob_item(d.bids, d.asks, ts, exchange, max, floor, ceiling) matches Some(item)
            ==> item.bids.last().price.below(item.asks[0].price),
{
    item_is_well_formed(d, ts, exchange, max, floor, ceiling);
    match lob_item(d.bids, d.asks, ts, exchange, max, floor, ceiling) {
        Some(item) => {
            let b = item.bids[item.bids.len() - 1];
            let a = item.asks[0];
            let i = choose|i: int| 0 <= i < d.bids.len() && d.bids[i] == b;
            let j = choose|j: int| 0 <= j < d.asks.len() && d.asks[j] == a;
            if i < d.bids.len() - 1 {
                assert(d.bids[i].price.key() < d.bids[d.bids.len() - 1].price.key());
            }
            if j > 0 {
                assert(d.asks[0].price.key() < d.asks[j].price.key());
            }
            assert(!d.bids[i].price.nan() && !d.bids[d.bids.len() - 1].price.nan());
            assert(!d.asks[j].price.nan() && !d.asks[0].price.nan());
        },
        None => {},
    }
}

/// The size that is given for a price last, among the positive ones.
pub open spec fn size_given(levels: Seq<LobLevel>, key: int) -> Option<Num>
    decreases levels.len(),
{
    if levels.len() == 0 {
        None
    } else if levels.last().price.key() == key && levels.last().size.positive() {
        Some(levels.last().size)
    } else {
        size_given(levels.drop_last(), key)
    }
}

proof fn lemma_filled_sizes(levels: Seq<LobLevel>, key: int)
    ensures
        size_at(filled(levels), key) == size_given(levels, key),
    decreases levels.len(),
{
    if levels.len() > 0 {
        let t = levels.drop_last();
        lemma_filled_sizes(t, key);
        filled_is_ordered(t);
        upsert_is_local(filled(t), levels.last().price, levels.last().size);
    }
}

/// A snapshot of the bids replaces them: at each price stands the size that
/// was given for it last among the positive ones, and nothing of what stood
/// before. The asks are left as they are.
pub proof fn snapshot_replaces_bids(d: DepthView, levels: Seq<LobLevel>)
    ensures
        sorted(d.replaced(Side::Bid, levels).bids),
        forall|key: int| #[trigger]
            size_at(d.replaced(Side::Bid, levels).bids, key) == size_given(levels, key),
        d.replaced(Side::Bid, levels).asks == d.asks,
{
    filled_is_ordered(levels);
    assert forall|key: int| #[trigger]
        size_at(d.replaced(Side::Bid, levels).bids, key) == size_given(levels, key) by {
        lemma_filled_sizes(levels, key);
    }
}

/// A snapshot of the asks replaces them: at each price stands the size that
/// was given for it last among the positive ones, and nothing of what stood
/// before. The bids are left as they are.
pub proof fn snapshot_replaces_asks(d: DepthView, levels: Seq<LobLevel>)
    ensures
        sorted(d.replaced(Side::Ask, levels).asks),
        forall|key: int| #[trigger]
            size_at(d.replaced(Side::Ask, levels).asks, key) == size_given(levels, key),
        d.replaced(Side::Ask, levels).bids == d.bids,
{
    filled_is_ordered(levels);
    assert forall|key: int| #[trigger]
        size_at(d.replaced(Side::Ask, levels).asks, key) == size_given(levels, key) by {
        lemma_filled_sizes(levels, key);
    }
}

/// The size that a change leaves at its price: none where it is zero.
pub open spec fn size_left(level: LobLevel) -> Option<Num> {
    if level.size.zero() {
        None
    } else {
        Some(level.size)
    }
}

/// One change to the bids: size zero leaves nothing at the price, any other
/// size stands there afterwards, every other price keeps its size, and so do
/// the asks.
pub proof fn bid_change_is_local(d: DepthView, level: LobLevel)
    requires
        d.wf(),
    ensures
        d.stepped(Side::Bid, level).wf(),
        size_at(d.stepped(Side::Bid, level).bids, level.price.key()) == size_left(level),
        forall|key: int|
            key != level.price.key() ==> #[trigger] size_at(
                d.stepped(Side::Bid, level).bids,
                key,
            ) == size_at(d.bids, key),
        d.stepped(Side::Bid, level).asks == d.asks,
{
    upsert_is_local(d.bids, level.price, level.size);
    erase_is_local(d.bids, level.price.key());
}

/// One change to the asks: size zero leaves nothing at the price, any other
/// size stands there afterwards, every other price keeps its size, and so do
/// the bids.
pub proof fn ask_change_is_local(d: DepthView, level: LobLevel)
    requires
        d.wf(),
    ensures
        d.stepped(Side::Ask, level).wf(),
        size_at(d.stepped(Side::Ask, level).asks, level.price.key()) == size_left(level),
        forall|key: int|
            key != level.price.key() ==> #[trigger] size_at(
                d.stepped(Side::Ask, level).asks,
                key,
            ) == size_at(d.asks, key),
        d.stepped(Side::Ask, level).bids == d.bids,
{
    upsert_is_local(d.asks, level.price, level.size);
    erase_is_local(d.asks, level.price.key());
}

proof fn lemma_filter_contains(s: Seq<LobLevel>, keep: spec_fn(LobLevel) -> bool, i: int)
    requires
        0 <= i < s.len(),
        keep(s[i]),
    ensures
        s.filter(keep).contains(s[i]),
    decreases s.len(),
{
    reveal(Seq::filter);
    let t = s.drop_last();
    let f = s.filter(keep);
    let g = t.filter(keep);
    if i < t.len() {
        lemma_filter_contains(t, keep, i);
        let k = choose|k: int| 0 <= k < g.len() && g[k] == t[i];
        assert(f[k] == s[i]);
    } else {
        assert(f[f.len() - 1] == s[i]);
    }
}

/// Whether a percentage leaves every level in reach: it is zero, it is no
/// number, or it is a hundred or more.
pub open spec fn unbounded(pct: Num) -> bool {
    pct.key() == 0 || pct.nan() || pct.key() >= order_key(HUNDRED)
}

/// Whether a bid has a size and a price that is not below the price that lies
/// the percentage below the highest bid.
pub open spec fn bid_in_reach<A: Fn(FloatOp, Num, Num) -> Num>(
    unit: A,
    bids: Seq<LobLevel>,
    pct: Num,
    level: LobLevel,
) -> bool {
    &&& level.size.key() != 0
    &&& unbounded(pct) || !level.price.below(
        answer(unit, FloatOp::PercentBelow, bids.last().price, pct),
    )
}

/// Whether an ask has a size and a price that is not above the price that lies
/// the percentage above the lowest ask.
pub open spec fn ask_in_reach<A: Fn(FloatOp, Num, Num) -> Num>(
    unit: A,
    asks: Seq<LobLevel>,
    pct: Num,
    level: LobLevel,
) -> bool {
    &&& level.size.key() != 0
    &&& unbounded(pct) || !answer(unit, FloatOp::PercentAbove, asks[0].price, pct).below(
        level.price,
    )
}

/// What is emitted of the bids: levels of the book, in ascending order, that
/// are in reach. At most `max` levels are emitted, and a level in reach is
/// left out only where as many better ones fill the limit.
pub open spec fn emits_bids<A: Fn(FloatOp, Num, Num) -> Num>(
    unit: A,
    bids: Seq<LobLevel>,
    max: Option<usize>,
    pct: Num,
    out: Seq<LobLevel>,
) -> bool {
    &&& sorted(out)
    &&& forall|i: int|
        0 <= i < out.len() ==> bids.contains(#[trigger] out[i]) && bid_in_reach(
            unit,
            bids,
            pct,
            out[i],
        )
    &&& max matches Some(n) ==> out.len() <= n
    &&& forall|j: int|
        0 <= j < bids.len() && bid_in_reach(unit, bids, pct, #[trigger] bids[j]) ==> out.contains(
            bids[j],
        ) || (max == Some(out.len() as usize) && forall|i: int|
            0 <= i < out.len() ==> bids[j].price.key() < (#[trigger] out[i]).price.key())
}

/// What is emitted of the asks: levels of the book, in ascending order, that
/// are in reach. At most `max` levels are emitted, and a level in reach is
/// left out only where as many better ones fill the limit.
pub open spec fn emits_asks<A: Fn(FloatOp, Num, Num) -> Num>(
    unit: A,
    asks: Seq<LobLevel>,
    max: Option<usize>,
    pct: Num,
    out: Seq<LobLevel>,
) -> bool {
    &&& sorted(out)
    &&& forall|i: int|
        0 <= i < out.len() ==> asks.contains(#[trigger] out[i]) && ask_in_reach(
            unit,
            asks,
            pct,
            out[i],
        )
    &&& max matches Some(n) ==> out.len() <= n
    &&& forall|j: int|
        0 <= j < asks.len() && ask_in_reach(unit, asks, pct, #[trigger] asks[j]) ==> out.contains(
            asks[j],
        ) || (max == Some(out.len() as usize) && forall|i: int|
            0 <= i < out.len() ==> (#[trigger] out[i]).price.key() < asks[j].price.key())
}

proof fn lemma_emits_bids<A: Fn(FloatOp, Num, Num) -> Num>(
    unit: A,
    bids: Seq<LobLevel>,
    max: Option<usize>,
    pct: Num,
)
    requires
        sorted(bids),
    ensures
        emits_bids(
            unit,
            bids,
            max,
            pct,
            emitted_bids(
                bids,
                threshold(unit, FloatOp::PercentBelow, best_bid(bids), pct),
                max,
            ),
        ),
{
    let floor = threshold(unit, FloatOp::PercentBelow, best_bid(bids), pct);
    let keep = |l: LobLevel| bid_kept(l, floor);
    let kept = bids.filter(keep);
    let out = emitted_bids(bids, floor, max);
    lemma_filter(bids, keep);
    let cut: int = kept.len() - out.len();
    assert forall|i: int| 0 <= i < out.len() implies out[i] == #[trigger] kept[i + cut] by {}
    assert forall|i: int| 0 <= i < out.len() implies bids.contains(#[trigger] out[i])
        && bid_in_reach(unit, bids, pct, out[i]) by {
        assert(out[i] == kept[i + cut]);
        assert(keep(kept[i + cut]));
    }
    assert(sorted(out)) by {
        assert forall|i: int, j: int| 0 <= i < j < out.len() implies (
        #[trigger] out[i]).price.key() < (#[trigger] out[j]).price.key() by {
            assert(out[i] == kept[i + cut]);
            assert(out[j] == kept[j + cut]);
        }
    }
    assert forall|j: int|
        0 <= j < bids.len() && bid_in_reach(
            unit,
            bids,
            pct,
            #[trigger] bids[j],
        ) implies out.contains(bids[j]) || (max == Some(out.len() as usize) && forall|i: int|
        0 <= i < out.len() ==> bids[j].price.key() < (#[trigger] out[i]).price.key()) by {
        assert(keep(bids[j]));
        lemma_filter_contains(bids, keep, j);
        let k = choose|k: int| 0 <= k < kept.len() && kept[k] == bids[j];
        if k >= cut {
            assert(out[k - cut] == kept[k - cut + cut]);
        } else {
            assert forall|i: int| 0 <= i < out.len() implies bids[j].price.key() < (
            #[trigger] out[i]).price.key() by {
                assert(out[i] == kept[i + cut]);
            }
        }
    }
}

proof fn lemma_emits_asks<A: Fn(FloatOp, Num, Num) -> Num>(
    unit: A,
    asks: Seq<LobLevel>,
    max: Option<usize>,
    pct: Num,
)
    requires
        sorted(asks),
    ensures
        emits_asks(
            unit,
            asks,
            max,
            pct,
            emitted_asks(
                asks,
                threshold(unit, FloatOp::PercentAbove, best_ask(asks), pct),
                max,
            ),
        ),
{
    let ceiling = threshold(unit, FloatOp::PercentAbove, best_ask(asks), pct);
    let keep = |l: LobLevel| ask_kept(l, ceiling);
    let kept = asks.filter(keep);
    let out = emitted_asks(asks, ceiling, max);
    lemma_filter(asks, keep);
    assert forall|i: int| 0 <= i < out.len() implies asks.contains(#[trigger] out[i])
        && ask_in_reach(unit, asks, pct, out[i]) by {
        assert(out[i] == kept[i]);
        assert(keep(kept[i]));
    }
    assert(sorted(out)) by {
        assert forall|i: int, j: int| 0 <= i < j < out.len() implies (
        #[trigger] out[i]).price.key() < (#[trigger] out[j]).price.key() by {
            assert(out[i] == kept[i]);
            assert(out[j] == kept[j]);
        }
    }
    assert forall|j: int|
        0 <= j < asks.len() && ask_in_reach(
            unit,
            asks,
            pct,
            #[trigger] asks[j],
        ) implies out.contains(asks[j]) || (max == Some(out.len() as usize) && forall|i: int|
        0 <= i < out.len() ==> (#[trigger] out[i]).price.key() < asks[j].price.key()) by {
        assert(keep(asks[j]));
        lemma_filter_contains(asks, keep, j);
        let k = choose|k: int| 0 <= k < kept.len() && kept[k] == asks[j];
        if k < out.len() {
            assert(out[k] == kept[k]);
        } else {
            assert forall|i: int| 0 <= i < out.len() implies (#[trigger] out[i]).price.key()
                < asks[j].price.key() by {
                assert(out[i] == kept[i]);
            }
        }
    }
}

/// An item carries the moment and the exchange that it is made for, and of
/// each side the levels in reach, the best of them where there is a limit.
/// There is none exactly where the limit is zero or a side has no level in
/// reach.
pub proof fn item_holds_what_is_in_reach<A: Fn(FloatOp, Num, Num) -> Num>(
    unit: A,
    d: DepthView,
    ts: u64,
    exchange: Seq<char>,
    max: Option<usize>,
    pct: Num,
)
    requires
        d.wf(),
    ensures
        filtered_item(unit, d.bids, d.asks, ts, exchange, max, pct) matches Some(item) ==> {
            &&& item.ts == ts
            &&& item.exchange == exchange
            &&& emits_bids(unit, d.bids, max, pct, item.bids)
            &&& emits_asks(unit, d.asks, max, pct, item.asks)
        },
        filtered_item(unit, d.bids, d.asks, ts, exchange, max, pct) is Some <==> {
            &&& max != Some(0usize)
            &&& exists|i: int|
                0 <= i < d.bids.len() && bid_in_reach(unit, d.bids, pct, #[trigger] d.bids[i])
            &&& exists|i: int|
                0 <= i < d.asks.len() && ask_in_reach(unit, d.asks, pct, #[trigger] d.asks[i])
        },
{
    lemma_emits_bids(unit, d.bids, max, pct);
    lemma_emits_asks(unit, d.asks, max, pct);
    let b = emitted_bids(
        d.bids,
        threshold(unit, FloatOp::PercentBelow, best_bid(d.bids), pct),
        max,
    );
    let a = emitted_asks(
        d.asks,
        threshold(unit, FloatOp::PercentAbove, best_ask(d.asks), pct),
        max,
    );
    if b.len() > 0 {
        assert(d.bids.contains(b[0]) && bid_in_reach(unit, d.bids, pct, b[0]));
        let i = choose|i: int| 0 <= i < d.bids.len() && d.bids[i] == b[0];
        assert(bid_in_reach(unit, d.bids, pct, d.bids[i]));
    }
    if a.len() > 0 {
        assert(d.asks.contains(a[0]) && ask_in_reach(unit, d.asks, pct, a[0]));
        let i = choose|i: int| 0 <= i < d.asks.len() && d.asks[i] == a[0];
        assert(ask_in_reach(unit, d.asks, pct, d.asks[i]));
    }
}

/// Where there is no limit on levels, every level in reach is in the item.
pub proof fn nothing_in_reach_is_left_out<A: Fn(FloatOp, Num, Num) -> Num>(
    unit: A,
    d: DepthView,
    ts: u64,
    exchange: Seq<char>,
    pct: Num,
    level: LobLevel,
)
    requires
        d.wf(),
    ensures
        filtered_item(unit, d.bids, d.asks, ts, exchange, None, pct) matches Some(item) ==> {
            &&& item.bids.contains(level) <==> d.bids.contains(level) && bid_in_reach(
                unit,
                d.bids,
                pct,
                level,
            )
            &&& item.asks.contains(level) <==> d.asks.contains(level) && ask_in_reach(
                unit,
                d.asks,
                pct,
                level,
            )
        },
{
    item_holds_what_is_in_reach(unit, d, ts, exchange, None, pct);
    let out = filtered_item(unit, d.bids, d.asks, ts, exchange, None, pct);
    if out is Some {
        let item = out->0;
        if d.bids.contains(level) && bid_in_reach(unit, d.bids, pct, level) {
            let j = choose|j: int| 0 <= j < d.bids.len() && d.bids[j] == level;
            assert(bid_in_reach(unit, d.bids, pct, d.bids[j]));
        }
        if d.asks.contains(level) && ask_in_reach(unit, d.asks, pct, level) {
            let j = choose|j: int| 0 <= j < d.asks.len() && d.asks[j] == level;
            assert(ask_in_reach(unit, d.asks, pct, d.asks[j]));
        }
        if item.bids.contains(level) {
            let i = choose|i: int| 0 <= i < item.bids.len() && item.bids[i] == level;
            assert(d.bids.contains(item.bids[i]));
        }
        if item.asks.contains(level) {
            let i = choose|i: int| 0 <= i < item.asks.len() && item.asks[i] == level;
            assert(d.asks.contains(item.asks[i]));
        }
    }
}

} // verus!

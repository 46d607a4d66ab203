//! What changes leave in an order book, price by price.

use crate::book::filled;
use crate::book::guarded_keeps_order;
use crate::book::unnamed;
use crate::book::updated_keeps_order;
use crate::book::DepthView;
use crate::book::Note;
use crate::book::Side;
use crate::book::filled_is_ordered;
use crate::items::LobLevel;
use crate::ladder::erase_is_local;
use crate::ladder::size_at;
use crate::ladder::sorted;
use crate::ladder::upsert_is_local;
use crate::num::Num;
use vstd::prelude::*;

verus! {

/// The levels of a side.
pub open spec fn levels_of(d: DepthView, side: Side) -> Seq<LobLevel> {
    match side {
        Side::Bid => d.bids,
        Side::Ask => d.asks,
    }
}

/// The side that a side faces.
pub open spec fn facing(side: Side) -> Side {
    match side {
        Side::Bid => Side::Ask,
        Side::Ask => Side::Bid,
    }
}

/// Whether the level at `i` is the last that names the price.
pub open spec fn names_last(levels: Seq<LobLevel>, i: int, key: int) -> bool {
    &&& 0 <= i < levels.len()
    &&& levels[i].price.key() == key
    &&& forall|j: int| i < j < levels.len() ==> (#[trigger] levels[j]).price.key() != key
}

/// Whether the level at `i` is the last of the price that has a size above
/// zero.
pub open spec fn fills_last(levels: Seq<LobLevel>, i: int, key: int) -> bool {
    &&& 0 <= i < levels.len()
    &&& levels[i].price.key() == key
    &&& levels[i].size.positive()
    &&& forall|j: int|
        i < j < levels.len() && (#[trigger] levels[j]).price.key() == key
            ==> !levels[j].size.positive()
}

/// Whether a price on a side would meet or pass the best price of the side
/// that it faces.
pub open spec fn blocked(d: DepthView, side: Side, price: Num) -> bool {
    match side {
        Side::Bid => d.asks.len() > 0 && !price.nan() && !d.asks[0].price.nan()
            && d.asks[0].price.key() <= price.key(),
        Side::Ask => d.bids.len() > 0 && !price.nan() && !d.bids.last().price.nan()
            && price.key() <= d.bids.last().price.key(),
    }
}

/// Whether the highest bid meets or passes the lowest ask.
pub open spec fn overlaps(full: DepthView) -> bool {
    full.bids.len() > 0 && blocked(full, Side::Bid, full.bids.last().price)
}

/// Whether a guarded change counts: it takes a level away, or its price keeps
/// clear of the other side.
pub open spec fn counts(d: DepthView, side: Side, level: LobLevel) -> bool {
    level.size.key() == 0 || !blocked(d, side, level.price)
}

/// Whether the level at `i` is the last of the price that counts.
pub open spec fn decides(
    d: DepthView,
    side: Side,
    levels: Seq<LobLevel>,
    i: int,
    key: int,
) -> bool {
    &&& 0 <= i < levels.len()
    &&& levels[i].price.key() == key
    &&& counts(d, side, levels[i])
    &&& forall|j: int|
        i < j < levels.len() && (#[trigger] levels[j]).price.key() == key ==> !counts(
            d,
            side,
            levels[j],
        )
}

/// Whether a side, after changes, holds at each price that they name what the
/// last of them to name it says, its size, or nothing where that is zero, and
/// at every other price what it held before.
pub open spec fn holds_changes(
    before: Seq<LobLevel>,
    levels: Seq<LobLevel>,
    after: Seq<LobLevel>,
) -> bool {
    &&& sorted(after)
    &&& forall|i: int, key: int| #[trigger]
        names_last(levels, i, key) && levels[i].size.key() == 0 ==> size_at(after, key) is None
    &&& forall|i: int, key: int| #[trigger]
        names_last(levels, i, key) && levels[i].size.key() != 0 ==> size_at(after, key) == Some(
            levels[i].size,
        )
    &&& forall|key: int| #[trigger]
        unnamed(levels, key) ==> size_at(after, key) == size_at(before, key)
}

/// Whether a side of a book, after guarded changes, holds at each price what
/// the last of them that counts says, its size, or nothing where that is zero,
/// and at a price at which none counts what it held before.
pub open spec fn holds_guarded_changes(
    d: DepthView,
    side: Side,
    levels: Seq<LobLevel>,
    after: Seq<LobLevel>,
) -> bool {
    &&& sorted(after)
    &&& forall|i: int, key: int| #[trigger]
        decides(d, side, levels, i, key) && levels[i].size.key() == 0 ==> size_at(
            after,
            key,
        ) is None
    &&& forall|i: int, key: int| #[trigger]
        decides(d, side, levels, i, key) && levels[i].size.key() != 0 ==> size_at(after, key)
            == Some(levels[i].size)
    &&& forall|key: int|
        (forall|i: int|
            0 <= i < levels.len() && (#[trigger] levels[i]).price.key() == key ==> !counts(
                d,
                side,
                levels[i],
            )) ==> #[trigger] size_at(after, key) == size_at(levels_of(d, side), key)
}

/// Whether a side, after a snapshot, holds at each price the last size above
/// zero that the snapshot gives there, and nothing at any other price.
pub open spec fn holds_snapshot(levels: Seq<LobLevel>, after: Seq<LobLevel>) -> bool {
    &&& sorted(after)
    &&& forall|i: int, key: int| #[trigger]
        fills_last(levels, i, key) ==> size_at(after, key) == Some(levels[i].size)
    &&& forall|key: int|
        (forall|i: int|
            0 <= i < levels.len() && (#[trigger] levels[i]).price.key() == key
                ==> !levels[i].size.positive()) ==> #[trigger] size_at(after, key) is None
}

/// A change leaves its size at its price, or nothing where its size is zero,
/// every other price as it was, and the other side as it was.
pub proof fn one_change_takes_effect(d: DepthView, side: Side, level: LobLevel)
    requires
        d.wf(),
    ensures
        d.stepped(side, level).wf(),
        levels_of(d.stepped(side, level), facing(side)) == levels_of(d, facing(side)),
        level.size.key() == 0 ==> size_at(
            levels_of(d.stepped(side, level), side),
            level.price.key(),
        ) is None,
        level.size.key() != 0 ==> size_at(levels_of(d.stepped(side, level), side), level.price.key())
            == Some(level.size),
        forall|key: int|
            key != level.price.key() ==> #[trigger] size_at(
                levels_of(d.stepped(side, level), side),
                key,
            ) == size_at(levels_of(d, side), key),
{
    upsert_is_local(levels_of(d, side), level.price, level.size);
    erase_is_local(levels_of(d, side), level.price.key());
}

/// Changes to a side leave, at each price that they name, what the last of
/// them to name it says: its size, or nothing where that is zero. Every price
/// that they do not name keeps its size, and the other side stays as it is.
pub proof fn changes_take_effect(d: DepthView, side: Side, levels: Seq<LobLevel>)
    requires
        d.wf(),
    ensures
        d.updated(side, levels).wf(),
        levels_of(d.updated(side, levels), facing(side)) == levels_of(d, facing(side)),
        holds_changes(
            levels_of(d, side),
            levels,
            levels_of(d.updated(side, levels), side),
        ),
    decreases levels.len(),
{
    updated_keeps_order(d, side, levels);
    if levels.len() > 0 {
        let before = levels.drop_last();
        let level = levels.last();
        changes_take_effect(d, side, before);
        let m = d.updated(side, before);
        let after = d.updated(side, levels);
        one_change_takes_effect(m, side, level);
        assert forall|i: int, key: int| #[trigger] names_last(levels, i, key) implies (if levels[i].size.key()
            == 0 {
            size_at(levels_of(after, side), key) is None
        } else {
            size_at(levels_of(after, side), key) == Some(levels[i].size)
        }) by {
            if i < before.len() {
                assert(levels[levels.len() - 1].price.key() != key);
                assert(before[i] == levels[i]);
                assert forall|j: int| i < j < before.len() implies (
                #[trigger] before[j]).price.key() != key by {
                    assert(before[j] == levels[j]);
                }
                assert(names_last(before, i, key));
            }
        }
        assert forall|key: int| #[trigger] unnamed(levels, key) implies size_at(
            levels_of(after, side),
            key,
        ) == size_at(levels_of(d, side), key) by {
            assert(levels[levels.len() - 1].price.key() != key);
            assert forall|j: int| 0 <= j < before.len() implies (
            #[trigger] before[j]).price.key() != key by {
                assert(before[j] == levels[j]);
            }
            assert(unnamed(before, key));
        }
    }
}

/// A guarded change with a size whose price keeps clear of the other side
/// leaves that size at its price, one of size zero leaves nothing there, and
/// one that would meet or pass the other side's best price changes nothing.
pub proof fn one_guarded_change_takes_effect(d: DepthView, side: Side, level: LobLevel)
    requires
        d.wf(),
    ensures
        d.guarded(side, seq![level]).wf(),
        levels_of(d.guarded(side, seq![level]), facing(side)) == levels_of(d, facing(side)),
        level.size.key() != 0 && !blocked(d, side, level.price) ==> size_at(
            levels_of(d.guarded(side, seq![level]), side),
            level.price.key(),
        ) == Some(level.size),
        level.size.key() != 0 && blocked(d, side, level.price) ==> d.guarded(side, seq![level])
            == d,
        level.size.key() == 0 ==> size_at(
            levels_of(d.guarded(side, seq![level]), side),
            level.price.key(),
        ) is None,
        forall|key: int|
            key != level.price.key() ==> #[trigger] size_at(
                levels_of(d.guarded(side, seq![level]), side),
                key,
            ) == size_at(levels_of(d, side), key),
{
    let levels = seq![level];
    assert(levels.drop_last() =~= Seq::<LobLevel>::empty());
    assert(levels.last() == level);
    assert(d.guarded(side, levels.drop_last()) == d);
    assert(d.guarded(side, levels) == d.guarded_step(side, level));
    one_change_takes_effect(d, side, level);
}

/// Guarded changes to a side leave, at each price, what the last of them that
/// counts says: its size, or nothing where that is zero. A price at which none
/// counts keeps its size, and the other side stays as it is.
pub proof fn guarded_changes_take_effect(d: DepthView, side: Side, levels: Seq<LobLevel>)
    requires
        d.wf(),
    ensures
        d.guarded(side, levels).wf(),
        levels_of(d.guarded(side, levels), facing(side)) == levels_of(d, facing(side)),
        holds_guarded_changes(d, side, levels, levels_of(d.guarded(side, levels), side)),
    decreases levels.len(),
{
    guarded_keeps_order(d, side, levels);
    if levels.len() > 0 {
        let before = levels.drop_last();
        let level = levels.last();
        guarded_changes_take_effect(d, side, before);
        let m = d.guarded(side, before);
        let after = d.guarded(side, levels);
        one_change_takes_effect(m, side, level);
        assert(blocked(m, side, level.price) == blocked(d, side, level.price));
        assert(m.crosses(side, level.price) == blocked(d, side, level.price));
        assert(!counts(d, side, level) ==> after == m);
        assert(counts(d, side, level) ==> after == m.stepped(side, level));
        assert forall|i: int, key: int| #[trigger] decides(d, side, levels, i, key) implies (
        if levels[i].size.key() == 0 {
            size_at(levels_of(after, side), key) is None
        } else {
            size_at(levels_of(after, side), key) == Some(levels[i].size)
        }) by {
            if i < before.len() {
                assert(levels[levels.len() - 1] == level);
                assert(before[i] == levels[i]);
                assert forall|j: int|
                    i < j < before.len() && (#[trigger] before[j]).price.key()
                        == key implies !counts(d, side, before[j]) by {
                    assert(before[j] == levels[j]);
                }
                assert(decides(d, side, before, i, key));
            }
        }
        assert forall|key: int|
            (forall|i: int|
                0 <= i < levels.len() && (#[trigger] levels[i]).price.key() == key ==> !counts(
                    d,
                    side,
                    levels[i],
                )) implies #[trigger] size_at(levels_of(after, side), key) == size_at(
            levels_of(d, side),
            key,
        ) by {
            assert(levels[levels.len() - 1] == level);
            assert forall|i: int|
                0 <= i < before.len() && (#[trigger] before[i]).price.key() == key implies !counts(
                d,
                side,
                before[i],
            ) by {
                assert(before[i] == levels[i]);
            }
            assert(size_at(levels_of(m, side), key) == size_at(levels_of(d, side), key));
        }
    }
}

/// A snapshot of a side leaves, at each price, the last size above zero that
/// it gives there, nothing at a price for which it gives none, and the other
/// side as it is.
pub proof fn snapshot_takes_effect(d: DepthView, side: Side, levels: Seq<LobLevel>)
    ensures
        holds_snapshot(levels, levels_of(d.replaced(side, levels), side)),
        levels_of(d.replaced(side, levels), facing(side)) == levels_of(d, facing(side)),
    decreases levels.len(),
{
    filled_is_ordered(levels);
    if levels.len() > 0 {
        let before = levels.drop_last();
        let level = levels.last();
        filled_is_ordered(before);
        snapshot_takes_effect(d, side, before);
        let m = filled(before);
        let after = filled(levels);
        assert(levels_of(d.replaced(side, levels), side) == after);
        assert(levels_of(d.replaced(side, before), side) == m);
        upsert_is_local(m, level.price, level.size);
        assert forall|i: int, key: int| #[trigger] fills_last(levels, i, key) implies size_at(
            after,
            key,
        ) == Some(levels[i].size) by {
            assert(levels[levels.len() - 1] == level);
            if i < before.len() {
                assert(before[i] == levels[i]);
                assert forall|j: int|
                    i < j < before.len() && (#[trigger] before[j]).price.key()
                        == key implies !before[j].size.positive() by {
                    assert(before[j] == levels[j]);
                }
                assert(fills_last(before, i, key));
            }
        }
        assert forall|key: int|
            (forall|i: int|
                0 <= i < levels.len() && (#[trigger] levels[i]).price.key() == key
                    ==> !levels[i].size.positive()) implies #[trigger] size_at(
            after,
            key,
        ) is None by {
            assert(levels[levels.len() - 1] == level);
            assert forall|i: int|
                0 <= i < before.len() && (#[trigger] before[i]).price.key()
                    == key implies !before[i].size.positive() by {
                assert(before[i] == levels[i]);
            }
            assert(size_at(m, key) is None);
        }
    }
}

/// The note that a refused change gives cause for: its side, its price, and
/// the best price of the side that it faces.
pub open spec fn refused_note(d: DepthView, side: Side, price: Num, note: Note) -> bool {
    &&& note matches Note::Refused { side: s, price: p, best }
    &&& note->Refused_side == side
    &&& note->Refused_price == price
    &&& side == Side::Bid ==> note->best == d.asks[0].price
    &&& side == Side::Ask ==> note->best == d.bids.last().price
}

/// One guarded change gives cause for one note where it has a size and would
/// meet or pass the best price of the other side, and for none otherwise.
pub proof fn one_refusal_is_noted(d: DepthView, side: Side, level: LobLevel)
    ensures
        d.refusals(side, Seq::empty()).len() == 0,
        counts(d, side, level) ==> d.refusals(side, seq![level]).len() == 0,
        !counts(d, side, level) ==> d.refusals(side, seq![level]).len() == 1 && refused_note(
            d,
            side,
            level.price,
            d.refusals(side, seq![level])[0],
        ),
{
    let levels = seq![level];
    assert(levels.drop_last() =~= Seq::<LobLevel>::empty());
    assert(levels.last() == level);
    assert(d.guarded(side, levels.drop_last()) == d);
    assert(d.refusals(side, levels.drop_last()) =~= Seq::<Note>::empty());
}

/// Changes made one after the other come to the same, in the book and in the
/// notes, as the changes made at once.
pub proof fn changes_follow_each_other(
    d: DepthView,
    side: Side,
    first: Seq<LobLevel>,
    second: Seq<LobLevel>,
)
    ensures
        d.updated(side, Seq::empty()) == d,
        d.guarded(side, Seq::empty()) == d,
        d.updated(side, first + second) == d.updated(side, first).updated(side, second),
        d.guarded(side, first + second) == d.guarded(side, first).guarded(side, second),
        d.refusals(side, first + second) == d.refusals(side, first) + d.guarded(
            side,
            first,
        ).refusals(side, second),
    decreases second.len(),
{
    if second.len() == 0 {
        assert(first + second =~= first);
        assert(d.refusals(side, first) + Seq::<Note>::empty() =~= d.refusals(side, first));
    } else {
        changes_follow_each_other(d, side, first, second.drop_last());
        assert((first + second).drop_last() =~= first + second.drop_last());
        assert((first + second).last() == second.last());
        assert(d.refusals(side, first + second) =~= d.refusals(side, first) + d.guarded(
            side,
            first,
        ).refusals(side, second));
    }
}

/// A book is cleared where its highest bid meets or passes its lowest ask,
/// and the note of it gives these two prices. Any other book stays as it is.
pub proof fn crossed_book_is_cleared(d: DepthView)
    ensures
        d.bids.len() > 0 && blocked(d, Side::Bid, d.bids.last().price) ==> {
            &&& d.repaired().bids.len() == 0
            &&& d.repaired().asks.len() == 0
            &&& d.clearing() == Some(
                Note::Cleared { bid: d.bids.last().price, ask: d.asks[0].price },
            )
        },
        d.bids.len() == 0 || !blocked(d, Side::Bid, d.bids.last().price) ==> {
            &&& d.repaired() == d
            &&& d.clearing() is None
        },
{
}

} // verus!

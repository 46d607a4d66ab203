//! Emitting order books: an item that repeats the one before is held back.

use crate::items::item_view;
use crate::items::levels_equal;
use crate::items::lob_view;
use crate::items::same_levels;
use crate::items::ItemView;
use crate::items::LobItem;
use crate::items::LobLevel;
use crate::items::LobView;
use crate::items::MarketDataItem;
use vstd::prelude::*;

verus! {

/// The levels are those of the item that was emitted before.
pub open spec fn repeats(item: LobView, previous: Option<LobView>) -> bool {
    previous matches Some(p) && levels_equal(p.bids, item.bids) && levels_equal(p.asks, item.asks)
}

/// What is emitted of an item, given the one that was emitted before.
pub open spec fn emitted(item: Option<LobView>, previous: Option<LobView>) -> Option<ItemView> {
    match item {
        Some(lob) => if repeats(lob, previous) {
            None
        } else {
            Some(ItemView::Lob(lob))
        },
        None => None,
    }
}

/// The item to compare the next one with.
pub open spec fn remembered(item: Option<LobView>, previous: Option<LobView>) -> Option<LobView> {
    match item {
        Some(lob) => if repeats(lob, previous) {
            previous
        } else {
            item
        },
        None => previous,
    }
}

/// Emits an item unless it repeats the one before.
pub fn emit(item: Option<LobItem>, previous: &mut Option<LobItem>) -> (r: Option<MarketDataItem>)
    ensures
        item_view(r) == emitted(lob_view(item), lob_view(*old(previous))),
        lob_view(*final(previous)) == remembered(lob_view(item), lob_view(*old(previous))),
{
    match item {
        Some(lob) => {
            let same: bool = match previous {
                Some(p) => same_levels(&p.bids, &lob.bids) && same_levels(&p.asks, &lob.asks),
                None => false,
            };
            if same {
                return None;
            }
            *previous = Some(lob.clone());
            Some(MarketDataItem::Lob(lob))
        },
        None => None,
    }
}

/// Two items that are emitted one after the other never hold the same levels:
/// what is emitted differs from what is remembered, and is remembered next.
pub proof fn no_repetition(item: Option<LobView>, previous: Option<LobView>)
    ensures
        emitted(item, previous) matches Some(e) ==> item is Some && e == ItemView::Lob(item->0)
            && !repeats(item->0, previous) && remembered(item, previous) == item,
        emitted(item, previous) is None ==> remembered(item, previous) == previous,
{
}

/// An item whose levels are numbers is not emitted twice in a row.
pub proof fn second_emission_is_held_back(item: LobView, previous: Option<LobView>)
    requires
        forall|i: int| 0 <= i < item.bids.len() ==> (#[trigger] item.bids[i]).equals(item.bids[i]),
        forall|i: int| 0 <= i < item.asks.len() ==> (#[trigger] item.asks[i]).equals(item.asks[i]),
        !repeats(item, previous),
    ensures
        emitted(Some(item), previous) == Some(ItemView::Lob(item)),
        emitted(Some(item), remembered(Some(item), previous)) is None,
{
}

/// Whether two sides have the same levels: as many, with prices and sizes that
/// are numbers and equal one by one.
pub open spec fn levels_agree(a: Seq<LobLevel>, b: Seq<LobLevel>) -> bool {
    &&& a.len() == b.len()
    &&& forall|i: int|
        0 <= i < a.len() ==> !(#[trigger] a[i]).price.nan() && !b[i].price.nan()
            && a[i].price.key() == b[i].price.key() && !a[i].size.nan() && !b[i].size.nan()
            && a[i].size.key() == b[i].size.key()
}

/// An item is emitted and remembered unless both its sides have the levels of
/// the one before, whatever the moments of the two are; if so, and where there
/// is no item, nothing is emitted and the one before stays.
pub proof fn item_is_emitted_unless_repeated(item: LobView, previous: Option<LobView>)
    ensures
        emitted(None, previous) is None,
        remembered(None, previous) == previous,
        previous is Some && levels_agree(previous->0.bids, item.bids) && levels_agree(
            previous->0.asks,
            item.asks,
        ) ==> emitted(Some(item), previous) is None && remembered(Some(item), previous) == previous,
        previous is None || !levels_agree(previous->0.bids, item.bids) || !levels_agree(
            previous->0.asks,
            item.asks,
        ) ==> emitted(Some(item), previous) == Some(ItemView::Lob(item)) && remembered(
            Some(item),
            previous,
        ) == Some(item),
{
    if previous is Some {
        let p = previous->0;
        lemma_levels_agree(p.bids, item.bids);
        lemma_levels_agree(p.asks, item.asks);
    }
}

proof fn lemma_levels_agree(a: Seq<LobLevel>, b: Seq<LobLevel>)
    ensures
        levels_agree(a, b) <==> levels_equal(a, b),
{
    if levels_equal(a, b) {
        assert forall|i: int| 0 <= i < a.len() implies !(#[trigger] a[i]).price.nan()
            && !b[i].price.nan() && a[i].price.key() == b[i].price.key() && !a[i].size.nan()
            && !b[i].size.nan() && a[i].size.key() == b[i].size.key() by {
            assert(a[i].equals(b[i]));
        }
    }
}

} // verus!

//! The order book of Bitvavo.
//!
//! The book holds every level that was received. Filters are applied only
//! where an item is made from it. Changes that arrive before the first
//! snapshot are put aside and applied after it.

use crate::bitvavo::types::BookSnapshot;
use crate::bitvavo::types::BookUpdate;
use crate::bitvavo::types::PriceLevel;
use crate::bitvavo::types::SnapshotView;
use crate::bitvavo::types::UpdateView;
use crate::book::asks_within;
use crate::book::best_first;
use crate::book::bids_within;
use crate::book::filled_is_ordered;
use crate::book::filtered_item;
use crate::book::first_levels;
use crate::book::spread;
use crate::book::total;
use crate::book::total_size;
use crate::book::updated_keeps_order;
use crate::book::Depth;
use crate::book::DepthView;
use crate::book::Side;
use crate::display::book_line;
use crate::display::display_book;
use crate::items::lob_view;
use crate::items::LobItem;
use crate::items::LobLevel;
use crate::json::rows_view;
use crate::json::JsonText;
use crate::ladder::best_ask;
use crate::ladder::best_bid;
use crate::line::line;
use crate::line::Piece;
use crate::num::arithmetic;
use crate::num::FloatOp;
use crate::num::Num;
use crate::num::NumView;
use vstd::prelude::*;

verus! {

/// A row can be read: it has a price, and where the price is a number it has
/// a size too.
pub open spec fn readable_row(row: Seq<JsonText>) -> bool {
    row.len() > 0 && (row[0]@.num() is Some ==> row.len() > 1)
}

/// Every row can be read.
pub open spec fn readable(rows: Seq<Seq<JsonText>>) -> bool {
    forall|i: int| 0 <= i < rows.len() ==> readable_row(#[trigger] rows[i])
}

/// The levels among rows: those whose price and size are numbers.
pub open spec fn parsed(rows: Seq<Seq<JsonText>>) -> Seq<LobLevel>
    decreases rows.len(),
{
    if rows.len() == 0 {
        Seq::empty()
    } else {
        let row = rows.last();
        match (row[0]@.num(), row[1]@.num()) {
            (Some(price), Some(size)) => parsed(rows.drop_last()).push(LobLevel { price, size }),
            _ => parsed(rows.drop_last()),
        }
    }
}

/// Whether every row can be read.
pub fn rows_are_readable(rows: &Vec<PriceLevel>) -> (r: bool)
    ensures
        r == readable(rows_view(rows@)),
{
    let ghost model = rows_view(rows@);
    let mut i: usize = 0;
    while i < rows.len()
        invariant
            i <= rows.len(),
            model == rows_view(rows@),
            forall|j: int| 0 <= j < i ==> readable_row(#[trigger] model[j]),
        decreases rows.len() - i,
    {
        assert(model[i as int] == rows@[i as int]@);
        let row: &PriceLevel = &rows[i];
        if row.len() == 0 || (row[0].reading.is_some() && row.len() < 2) {
            assert(!readable_row(model[i as int]));
            return false;
        }
        i += 1;
    }
    true
}

/// Reads the levels among rows.
fn parse_levels(rows: &Vec<PriceLevel>) -> (r: Vec<LobLevel>)
    requires
        readable(rows_view(rows@)),
    ensures
        r@ == parsed(rows_view(rows@)),
{
    let ghost model = rows_view(rows@);
    let mut out: Vec<LobLevel> = Vec::new();
    let mut i: usize = 0;
    assert(model.take(0) =~= Seq::<Seq<JsonText>>::empty());
    while i < rows.len()
        invariant
            i <= rows.len(),
            model == rows_view(rows@),
            readable(model),
            out@ == parsed(model.take(i as int)),
        decreases rows.len() - i,
    {
        proof {
            assert(model.take(i + 1).drop_last() =~= model.take(i as int));
            assert(model[i as int] == rows@[i as int]@);
            assert(readable_row(model[i as int]));
        }
        match rows[i][0].num() {
            Some(price) => match rows[i][1].num() {
                Some(size) => {
                    out.push(LobLevel { price, size });
                },
                None => {},
            },
            None => {},
        }
        i += 1;
    }
    assert(model.take(model.len() as int) =~= model);
    out
}

/// The contents of updates.
pub open spec fn update_views(updates: Seq<BookUpdate>) -> Seq<UpdateView> {
    updates.map_values(|u: BookUpdate| u@)
}

/// The mathematical content of an [`OrderBook`].
#[verifier::ext_equal]
pub struct BookView {
    pub depth: DepthView,
    pub last_mdseq: Option<u64>,
    pub pending: Seq<UpdateView>,
}

impl BookView {
    /// The book after a full snapshot.
    pub open spec fn snapshot(self, snap: SnapshotView) -> BookView {
        BookView {
            depth: self.depth.replaced(Side::Bid, parsed(snap.bids)).replaced(
                Side::Ask,
                parsed(snap.asks),
            ),
            last_mdseq: Some(snap.mdseqno),
            pending: self.pending,
        }
    }

    /// The update is to be applied: there is a snapshot, and the update
    /// begins after what was applied already.
    pub open spec fn is_due(self, update: UpdateView) -> bool {
        self.last_mdseq matches Some(last) && update.start_md_seq_no > last
    }

    /// The book after an update: put aside before the first snapshot, passed
    /// over where it begins with something that was applied already, and
    /// applied otherwise.
    pub open spec fn update(self, update: UpdateView) -> BookView {
        if self.last_mdseq is None {
            BookView { pending: self.pending.push(update), ..self }
        } else if self.is_due(update) {
            BookView {
                depth: self.depth.updated(Side::Bid, parsed(update.bids)).updated(
                    Side::Ask,
                    parsed(update.asks),
                ),
                last_mdseq: Some(update.end_md_seq_no),
                pending: self.pending,
            }
        } else {
            self
        }
    }

    /// The book after updates, one after the other.
    pub open spec fn updates(self, updates: Seq<UpdateView>) -> BookView
        decreases updates.len(),
    {
        if updates.len() == 0 {
            self
        } else {
            self.updates(updates.drop_last()).update(updates.last())
        }
    }

    /// The book after the updates that were put aside.
    pub open spec fn drained(self) -> BookView {
        (BookView { pending: Seq::empty(), ..self }).updates(self.pending)
    }

    /// The update can be taken in: if it is due, its rows can be read.
    pub open spec fn accepts(self, update: UpdateView) -> bool {
        self.is_due(update) ==> readable(update.bids) && readable(update.asks)
    }

    /// The updates can be taken in, one after the other.
    pub open spec fn accepts_all(self, updates: Seq<UpdateView>) -> bool
        decreases updates.len(),
    {
        updates.len() == 0 || (self.accepts_all(updates.drop_last()) && self.updates(
            updates.drop_last(),
        ).accepts(updates.last()))
    }

    /// The updates that were put aside can be taken in.
    pub open spec fn can_drain(self) -> bool {
        (BookView { pending: Seq::empty(), ..self }).accepts_all(self.pending)
    }
}

/// The order book.
#[derive(Debug, Clone)]
pub struct OrderBook {
    pub depth: Depth,
    /// The sequence number of the snapshot or update applied last.
    pub last_mdseq: Option<u64>,
    /// Updates that arrived before the first snapshot.
    pub pending: Vec<BookUpdate>,
}

impl View for OrderBook {
    type V = BookView;

    open spec fn view(&self) -> BookView {
        BookView {
            depth: self.depth@,
            last_mdseq: self.last_mdseq,
            pending: update_views(self.pending@),
        }
    }
}

impl OrderBook {
    /// Both sides are in order.
    pub open spec fn wf(self) -> bool {
        self@.depth.wf()
    }

    /// An empty book.
    pub fn new() -> (r: OrderBook)
        ensures
            r.wf(),
            r@ == (BookView {
                depth: DepthView::empty(),
                last_mdseq: None,
                pending: Seq::empty(),
            }),
    {
        let r = OrderBook { depth: Depth::new(), last_mdseq: None, pending: Vec::new() };
        assert(update_views(r.pending@) =~= Seq::<UpdateView>::empty());
        r
    }

    /// The number of bids.
    pub fn num_bids(&self) -> (r: usize)
        ensures
            r == self@.depth.bids.len(),
    {
        self.depth.bids.len()
    }

    /// The number of asks.
    pub fn num_asks(&self) -> (r: usize)
        ensures
            r == self@.depth.asks.len(),
    {
        self.depth.asks.len()
    }

    /// The best bid.
    pub fn best_bid(&self) -> (r: Option<Num>)
        ensures
            r == best_bid(self@.depth.bids),
    {
        self.depth.bids.highest()
    }

    /// The best ask.
    pub fn best_ask(&self) -> (r: Option<Num>)
        ensures
            r == best_ask(self@.depth.asks),
    {
        self.depth.asks.lowest()
    }

    /// The best ask less the best bid.
    pub fn spread<A: Fn(FloatOp, Num, Num) -> Num>(&self, unit: &A) -> (r: Option<Num>)
        requires
            arithmetic(*unit),
        ensures
            r == spread(*unit, self@.depth.bids, self@.depth.asks),
    {
        self.depth.spread(unit)
    }

    /// The best `n` bids, the best first.
    pub fn top_bids(&self, n: usize) -> (r: Vec<LobLevel>)
        ensures
            r@ == first_levels(best_first(self@.depth.bids), n as int),
    {
        self.depth.top_bids(n)
    }

    /// The best `n` asks, the best first.
    pub fn top_asks(&self, n: usize) -> (r: Vec<LobLevel>)
        ensures
            r@ == first_levels(self@.depth.asks, n as int),
    {
        self.depth.top_asks(n)
    }

    /// The levels of each side within a percentage of the best price.
    pub fn levels_within_pct<A: Fn(FloatOp, Num, Num) -> Num>(&self, pct: &Num, unit: &A) -> (r: (
        Vec<LobLevel>,
        Vec<LobLevel>,
    ))
        requires
            arithmetic(*unit),
        ensures
            r.0@ == bids_within(*unit, self@.depth.bids, *pct),
            r.1@ == asks_within(*unit, self@.depth.asks, *pct),
    {
        self.depth.levels_within_pct(pct, unit)
    }

    /// The sum of the sizes of the bids, the best first.
    pub fn total_bid_size<A: Fn(FloatOp, Num, Num) -> Num>(&self, unit: &A) -> (r: Num)
        requires
            arithmetic(*unit),
        ensures
            match total(*unit, best_first(self@.depth.bids)) {
                Some(t) => r == t,
                None => r@ == (NumView { bits: 0, text: "0"@ }),
            },
    {
        let bids: Vec<LobLevel> = self.depth.top_bids(self.depth.bids.len());
        total_size(&bids, unit)
    }

    /// The sum of the sizes of the asks, the best first.
    pub fn total_ask_size<A: Fn(FloatOp, Num, Num) -> Num>(&self, unit: &A) -> (r: Num)
        requires
            arithmetic(*unit),
        ensures
            match total(*unit, self@.depth.asks) {
                Some(t) => r == t,
                None => r@ == (NumView { bits: 0, text: "0"@ }),
            },
    {
        total_size(self.depth.asks.levels(), unit)
    }

    /// The book as a line of text. The percentage plays no part in it.
    pub fn display<A: Fn(FloatOp, Num, Num) -> Num>(
        &self,
        instrument: &str,
        _top_pct: &Num,
        unit: &A,
    ) -> (r: Vec<Piece>)
        requires
            arithmetic(*unit),
        ensures
            line(r@) == book_line(*unit, self@.depth, instrument@),
    {
        display_book(&self.depth, instrument, unit)
    }

    /// The book as an item, with every level.
    pub fn full_lob_item<A: Fn(FloatOp, Num, Num) -> Num>(
        &self,
        ts: u64,
        exchange: &str,
        unit: &A,
    ) -> (r: Option<LobItem>)
        requires
            arithmetic(*unit),
        ensures
            lob_view(r) == crate::book::full_item(self@.depth, ts, exchange@),
    {
        let none: Num = Num::zero_value();
        let r = self.depth.to_lob_item(ts, exchange, None, &none, unit);
        r
    }

    /// The book as an item, with the filters applied.
    pub fn to_lob_item<A: Fn(FloatOp, Num, Num) -> Num>(
        &self,
        ts: u64,
        exchange: &str,
        max_level: Option<usize>,
        max_level_pct: &Num,
        unit: &A,
    ) -> (r: Option<LobItem>)
        requires
            arithmetic(*unit),
        ensures
            lob_view(r) == filtered_item(
                *unit,
                self@.depth.bids,
                self@.depth.asks,
                ts,
                exchange@,
                max_level,
                *max_level_pct,
            ),
    {
        self.depth.to_lob_item(ts, exchange, max_level, max_level_pct, unit)
    }

    /// Replaces both sides by a snapshot. Levels without a positive size are
    /// passed over.
    pub fn apply_snapshot(&mut self, snap: &BookSnapshot)
        requires
            old(self).wf(),
            readable(snap@.bids),
            readable(snap@.asks),
        ensures
            final(self).wf(),
            final(self)@ == old(self)@.snapshot(snap@),
    {
        let bids: Vec<LobLevel> = parse_levels(&snap.bids);
        let asks: Vec<LobLevel> = parse_levels(&snap.asks);
        self.depth.replace_side(Side::Bid, &bids);
        self.depth.replace_side(Side::Ask, &asks);
        self.last_mdseq = Some(snap.mdseqno);
    }

    /// Takes in an update.
    pub fn apply_update(&mut self, update: &BookUpdate)
        requires
            old(self).wf(),
            old(self)@.accepts(update@),
        ensures
            final(self).wf(),
            final(self)@ == old(self)@.update(update@),
    {
        let last: u64 = match self.last_mdseq {
            Some(last) => last,
            None => {
                self.pending.push(update.clone());
                assert(self@ =~= old(self)@.update(update@));
                return;
            },
        };
        if update.start_md_seq_no <= last {
            return;
        }
        let bids: Vec<LobLevel> = parse_levels(&update.bids);
        let asks: Vec<LobLevel> = parse_levels(&update.asks);
        self.depth.update(Side::Bid, &bids);
        self.depth.update(Side::Ask, &asks);
        self.last_mdseq = Some(update.end_md_seq_no);
    }

    /// Takes in the updates that were put aside.
    pub fn drain_pending(&mut self)
        requires
            old(self).wf(),
            old(self)@.can_drain(),
        ensures
            final(self).wf(),
            final(self)@ == old(self)@.drained(),
    {
        let mut pending: Vec<BookUpdate> = Vec::new();
        std::mem::swap(&mut pending, &mut self.pending);
        let ghost start = self@;
        let ghost model = update_views(pending@);
        proof {
            assert(self@ =~= (BookView { pending: Seq::empty(), ..old(self)@ }));
            assert(model.take(0) =~= Seq::<UpdateView>::empty());
        }
        let mut i: usize = 0;
        while i < pending.len()
            invariant
                i <= pending.len(),
                self.wf(),
                model == update_views(pending@),
                start.accepts_all(model),
                self@ == start.updates(model.take(i as int)),
            decreases pending.len() - i,
        {
            proof {
                lemma_accepts_prefix(start, model, i + 1);
                assert(model.take(i + 1).drop_last() =~= model.take(i as int));
                assert(model.take(i + 1).last() == pending@[i as int]@);
            }
            self.apply_update(&pending[i]);
            i += 1;
        }
        assert(model.take(model.len() as int) =~= model);
    }

    /// Whether a snapshot, and after it the updates that were put aside, can
    /// be taken in: whether every row that would be read can be.
    pub fn can_take_snapshot(&self, snap: &BookSnapshot) -> (r: bool)
        ensures
            r == (readable(snap@.bids) && readable(snap@.asks) && self@.snapshot(
                snap@,
            ).can_drain()),
    {
        if !rows_are_readable(&snap.bids) || !rows_are_readable(&snap.asks) {
            return false;
        }
        let ghost start = BookView { pending: Seq::empty(), ..self@.snapshot(snap@) };
        let ghost model = update_views(self.pending@);
        let mut last: u64 = snap.mdseqno;
        let mut i: usize = 0;
        assert(model.take(0) =~= Seq::<UpdateView>::empty());
        while i < self.pending.len()
            invariant
                i <= self.pending.len(),
                model == update_views(self.pending@),
                model == self@.pending,
                start == (BookView { pending: Seq::empty(), ..self@.snapshot(snap@) }),
                readable(snap@.bids),
                readable(snap@.asks),
                start.accepts_all(model.take(i as int)),
                start.updates(model.take(i as int)).last_mdseq == Some(last),
            decreases self.pending.len() - i,
        {
            let update: &BookUpdate = &self.pending[i];
            proof {
                assert(model.take(i + 1).drop_last() =~= model.take(i as int));
                assert(model.take(i + 1).last() == self.pending@[i as int]@);
            }
            if update.start_md_seq_no > last {
                if !rows_are_readable(&update.bids) || !rows_are_readable(&update.asks) {
                    proof {
                        if start.accepts_all(model) {
                            lemma_accepts_prefix(start, model, i + 1);
                        }
                    }
                    return false;
                }
                last = update.end_md_seq_no;
            }
            i += 1;
        }
        assert(model.take(model.len() as int) =~= model);
        true
    }

    /// Whether an update can be taken in: whether every row that would be
    /// read can be.
    pub fn can_take_update(&self, update: &BookUpdate) -> (r: bool)
        ensures
            r == self@.accepts(update@),
    {
        match self.last_mdseq {
            Some(last) => update.start_md_seq_no <= last || (rows_are_readable(&update.bids)
                && rows_are_readable(&update.asks)),
            None => true,
        }
    }
}

proof fn lemma_accepts_prefix(b: BookView, updates: Seq<UpdateView>, i: int)
    requires
        b.accepts_all(updates),
        0 <= i <= updates.len(),
    ensures
        b.accepts_all(updates.take(i)),
    decreases updates.len() - i,
{
    if i < updates.len() {
        lemma_accepts_prefix(b, updates, i + 1);
        assert(updates.take(i + 1).drop_last() =~= updates.take(i));
    } else {
        assert(updates.take(i) =~= updates);
    }
}

impl Default for OrderBook {
    fn default() -> (r: Self)
        ensures
            r.wf(),
            r@.depth == DepthView::empty(),
            r@.last_mdseq is None,
            r@.pending.len() == 0,
    {
        OrderBook::new()
    }
}

/// Taking in an update a second time changes nothing, as long as its range
/// of sequence numbers is not empty.
pub proof fn update_is_applied_once(b: BookView, update: UpdateView)
    requires
        b.last_mdseq is Some,
        update.start_md_seq_no <= update.end_md_seq_no,
    ensures
        b.update(update).update(update) == b.update(update),
{
}

/// An update that begins at or before what was applied changes nothing.
pub proof fn old_update_changes_nothing(b: BookView, update: UpdateView, last: u64)
    requires
        b.last_mdseq == Some(last),
        update.start_md_seq_no <= last,
    ensures
        b.update(update) == b,
{
}

proof fn lemma_put_aside(b: BookView, updates: Seq<UpdateView>)
    requires
        b.last_mdseq is None,
    ensures
        b.updates(updates) == (BookView { pending: b.pending + updates, ..b }),
    decreases updates.len(),
{
    if updates.len() > 0 {
        lemma_put_aside(b, updates.drop_last());
        assert((b.pending + updates.drop_last()).push(updates.last()) =~= b.pending + updates);
    } else {
        assert(b.pending + updates =~= b.pending);
    }
}

proof fn lemma_nothing_put_aside(b: BookView, updates: Seq<UpdateView>)
    requires
        b.last_mdseq is Some,
    ensures
        b.updates(updates).pending == b.pending,
        b.updates(updates).last_mdseq is Some,
    decreases updates.len(),
{
    if updates.len() > 0 {
        lemma_nothing_put_aside(b, updates.drop_last());
    }
}

/// It makes no difference whether updates arrive before the first snapshot
/// or after it: the book is the same in the end.
pub proof fn early_updates_are_not_lost(
    b: BookView,
    updates: Seq<UpdateView>,
    snap: SnapshotView,
)
    requires
        b.last_mdseq is None,
        b.pending.len() == 0,
    ensures
        b.updates(updates).snapshot(snap).drained() == b.snapshot(snap).updates(updates),
        b.updates(updates).snapshot(snap).drained().pending.len() == 0,
{
    lemma_put_aside(b, updates);
    let early = b.updates(updates).snapshot(snap);
    assert(b.pending + updates =~= updates);
    assert(BookView { pending: Seq::empty(), ..early } =~= b.snapshot(snap));
    lemma_nothing_put_aside(b.snapshot(snap), updates);
}

/// Snapshots and updates keep both sides in order.
pub proof fn updates_keep_order(b: BookView, snap: SnapshotView, updates: Seq<UpdateView>)
    requires
        b.depth.wf(),
    ensures
        b.snapshot(snap).depth.wf(),
        b.updates(updates).depth.wf(),
    decreases updates.len(),
{
    filled_is_ordered(parsed(snap.bids));
    filled_is_ordered(parsed(snap.asks));
    if updates.len() > 0 {
        updates_keep_order(b, snap, updates.drop_last());
        let m = b.updates(updates.drop_last());
        let bids = parsed(updates.last().bids);
        let asks = parsed(updates.last().asks);
        updated_keeps_order(m.depth, Side::Bid, bids);
        updated_keeps_order(m.depth.updated(Side::Bid, bids), Side::Ask, asks);
    }
}

} // verus!

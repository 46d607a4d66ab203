//! The order book of OKX.
//!
//! The book holds every level that was received. Filters are applied only
//! where an item is made from it.

use crate::book::add_note;
use crate::book::asks_within;
use crate::book::best_first;
use crate::book::bids_within;
use crate::book::crossed;
use crate::book::filled;
use crate::book::filled_is_ordered;
use crate::book::filtered_item;
use crate::book::first_levels;
use crate::book::guard_keeps_uncrossed;
use crate::book::guarded_asks_are_local;
use crate::book::guarded_bids_are_local;
use crate::book::guarded_keeps_order;
use crate::book::noted;
use crate::book::spread;
use crate::book::taken_away;
use crate::book::total;
use crate::book::total_size;
use crate::book::unnamed;
use crate::book::Depth;
use crate::book::DepthView;
use crate::book::Note;
pub use crate::book::Side;
use crate::checksum::book_checksum;
use crate::checksum::compute_checksum;
use crate::display::book_line;
use crate::display::display_book;
use crate::items::lob_view;
use crate::items::LobItem;
use crate::items::LobLevel;
use crate::json::rows_view;
use crate::json::Json;
use crate::json::JsonText;
use crate::ladder::best_ask;
use crate::ladder::best_bid;
use crate::ladder::prices_are_numbers;
use crate::ladder::size_at;
use crate::line::line;
use crate::line::Piece;
use crate::num::arithmetic;
use crate::num::FloatOp;
use crate::num::Num;
use crate::num::NumView;
use crate::okx::types::extract_levels;
use crate::okx::types::level_numbers;
use crate::okx::types::levels_at;
use crate::okx::types::parse_price_level;
use crate::okx::types::OkxView;
use crate::okx::types::OkxWsMessage;
use crate::okx::types::PriceLevel;
use vstd::prelude::*;

verus! {

/// The levels among rows of texts: those whose price and size are numbers.
pub open spec fn parsed(rows: Seq<Seq<JsonText>>) -> Seq<LobLevel>
    decreases rows.len(),
{
    if rows.len() == 0 {
        Seq::empty()
    } else {
        match level_numbers(rows.last()) {
            Some((price, size)) => parsed(rows.drop_last()).push(LobLevel { price, size }),
            None => parsed(rows.drop_last()),
        }
    }
}

fn parse_levels(rows: &Vec<PriceLevel>) -> (r: Vec<LobLevel>)
    ensures
        r@ == parsed(rows_view(rows@)),
{
    let ghost model = rows_view(rows@);
    let mut out: Vec<LobLevel> = Vec::new();
    let mut i: usize = 0;
    assert(model.take(0) =~= Seq::<Seq<JsonText>>::empty());
    while i < rows.len()
        invariant
            i <= rows.len(),
            model == rows_view(rows@),
            out@ == parsed(model.take(i as int)),
        decreases rows.len() - i,
    {
        proof {
            assert(model.take(i + 1).drop_last() =~= model.take(i as int));
            assert(model[i as int] == rows@[i as int]@);
        }
        match parse_price_level(&rows[i]) {
            Some((price, size)) => {
                out.push(LobLevel { price, size });
            },
            None => {},
        }
        i += 1;
    }
    assert(model.take(model.len() as int) =~= model);
    out
}

/// The mathematical content of an [`OrderBook`].
#[verifier::ext_equal]
pub struct BookView {
    pub depth: DepthView,
    pub needs_resync: bool,
    pub awaiting_snapshot: bool,
    pub checksum_failed: bool,
    pub checksum_log: bool,
}

impl BookView {
    /// The book with a crossed one cleared, which asks for a resync and awaits a snapshot.
    pub open spec fn repaired(self) -> BookView {
        BookView {
            depth: self.depth.repaired(),
            needs_resync: self.needs_resync || self.depth.is_crossed(),
            awaiting_snapshot: self.awaiting_snapshot || self.depth.is_crossed(),
            ..self
        }
    }

    /// The book with a side replaced by that of a snapshot. The asks, which
    /// come after the bids, set the book right again.
    pub open spec fn seeded(self, rows: Seq<Seq<JsonText>>, side: Side) -> BookView {
        let depth = self.depth.replaced(side, parsed(rows));
        match side {
            Side::Bid => BookView { depth, awaiting_snapshot: false, ..self },
            Side::Ask => BookView {
                depth,
                needs_resync: false,
                awaiting_snapshot: false,
                checksum_failed: false,
                ..self
            },
        }
    }

    /// The book after a snapshot of one side.
    pub open spec fn snapshot(self, rows: Seq<Seq<JsonText>>, side: Side) -> BookView {
        self.seeded(rows, side).repaired()
    }

    /// The book after a snapshot: each side that it holds is replaced, and
    /// only then is the book held against crossing.
    pub open spec fn loaded(self, bids: Seq<Seq<JsonText>>, asks: Seq<Seq<JsonText>>) -> BookView {
        if bids.len() == 0 && asks.len() == 0 {
            BookView { awaiting_snapshot: false, ..self }
        } else {
            self.unrepaired(bids, asks).repaired()
        }
    }

    /// The book with each side replaced that a snapshot holds.
    pub open spec fn unrepaired(self, bids: Seq<Seq<JsonText>>, asks: Seq<Seq<JsonText>>) -> BookView {
        let start = BookView { awaiting_snapshot: false, ..self };
        let with_bids = if bids.len() > 0 {
            start.seeded(bids, Side::Bid)
        } else {
            start
        };
        if asks.len() > 0 {
            with_bids.seeded(asks, Side::Ask)
        } else {
            with_bids
        }
    }

    /// The book after changes to a side.
    pub open spec fn update(self, rows: Seq<Seq<JsonText>>, side: Side) -> BookView {
        (BookView { depth: self.depth.guarded(side, parsed(rows)), ..self }).repaired()
    }

    /// The notes on changes to a side.
    pub open spec fn update_notes(self, rows: Seq<Seq<JsonText>>, side: Side) -> Seq<Note> {
        self.depth.refusals(side, parsed(rows)) + noted(
            self.depth.guarded(side, parsed(rows)).clearing(),
        )
    }

    /// The book after the changes that a message holds to a side.
    pub open spec fn changed(self, rows: Seq<Seq<JsonText>>, side: Side) -> BookView {
        if rows.len() == 0 {
            self
        } else {
            self.update(rows, side)
        }
    }

    /// The notes on the changes that a message holds to a side.
    pub open spec fn change_notes(self, rows: Seq<Seq<JsonText>>, side: Side) -> Seq<Note> {
        if rows.len() == 0 {
            Seq::empty()
        } else {
            self.update_notes(rows, side)
        }
    }

    /// The checksum of the exchange agrees with the book; one that is not
    /// positive says nothing.
    pub open spec fn agrees(self, checksum: i64) -> bool {
        checksum <= 0 || book_checksum(self.depth, 10) == checksum
    }

    /// The book after a checksum: whether it fails is what the last one told.
    pub open spec fn verified(self, checksum: i64) -> BookView {
        BookView { checksum_failed: !self.agrees(checksum), ..self }
    }

    /// The book with the levels of a message taken in.
    pub open spec fn levelled(self, msg: OkxView) -> BookView {
        if msg.is_snapshot() {
            self.loaded(levels_at(msg.data[0], "bids"@), levels_at(msg.data[0], "asks"@))
        } else if msg.is_update() {
            self.changed(levels_at(msg.data[0], "bids"@), Side::Bid).changed(
                levels_at(msg.data[0], "asks"@),
                Side::Ask,
            )
        } else {
            self
        }
    }

    /// The notes on the levels of a message.
    pub open spec fn level_notes(self, msg: OkxView) -> Seq<Note> {
        let bids = levels_at(msg.data[0], "bids"@);
        let asks = levels_at(msg.data[0], "asks"@);
        if msg.is_snapshot() {
            if bids.len() == 0 && asks.len() == 0 {
                Seq::empty()
            } else {
                noted(self.unrepaired(bids, asks).depth.clearing())
            }
        } else if msg.is_update() {
            self.change_notes(bids, Side::Bid) + self.changed(bids, Side::Bid).change_notes(
                asks,
                Side::Ask,
            )
        } else {
            Seq::empty()
        }
    }

    /// The book with a message taken in, before its checksum.
    pub open spec fn unverified(self, msg: OkxView) -> BookView {
        self.levelled(msg)
    }

    /// The book after a message.
    pub open spec fn processed(self, msg: OkxView) -> BookView {
        if msg.data.len() == 0 {
            self
        } else {
            match msg.checksum() {
                Some(n) => self.unverified(msg).verified(n),
                None => self.unverified(msg),
            }
        }
    }

    /// The note on a checksum: that it is not that of the book.
    pub open spec fn checksum_note(self, checksum: Option<i64>) -> Option<Note> {
        match checksum {
            Some(n) => if self.agrees(n) {
                None
            } else {
                Some(Note::Mismatch { computed: book_checksum(self.depth, 10), checksum: n })
            },
            None => None,
        }
    }

    /// The notes on a message.
    pub open spec fn notes(self, msg: OkxView) -> Seq<Note> {
        if msg.data.len() == 0 {
            Seq::empty()
        } else {
            self.level_notes(msg) + noted(
                self.unverified(msg).checksum_note(msg.checksum()),
            )
        }
    }

    /// The book without levels and without memory of what it received.
    pub open spec fn fresh(self) -> BookView {
        BookView {
            depth: DepthView::empty(),
            needs_resync: false,
            awaiting_snapshot: true,
            checksum_failed: false,
            ..self
        }
    }
}

/// The order book.
#[derive(Debug, Clone)]
pub struct OrderBook {
    pub depth: Depth,
    /// A crossed book was cleared.
    needs_resync: bool,
    /// No snapshot has come since the book was empty.
    awaiting_snapshot: bool,
    /// The last checksum did not match.
    checksum_failed: bool,
    /// Whether to log a checksum that does not match.
    checksum_log: bool,
}

impl View for OrderBook {
    type V = BookView;

    closed spec fn view(&self) -> BookView {
        BookView {
            depth: self.depth@,
            needs_resync: self.needs_resync,
            awaiting_snapshot: self.awaiting_snapshot,
            checksum_failed: self.checksum_failed,
            checksum_log: self.checksum_log,
        }
    }
}

impl OrderBook {
    /// Both sides are in order.
    pub open spec fn wf(self) -> bool {
        self@.depth.wf()
    }

    /// An empty book.
    pub fn new() -> (r: OrderBook)
        ensures
            r.wf(),
            r@ == (BookView {
                depth: DepthView::empty(),
                needs_resync: false,
                awaiting_snapshot: true,
                checksum_failed: false,
                checksum_log: false,
            }),
    {
        OrderBook {
            depth: Depth::new(),
            needs_resync: false,
            awaiting_snapshot: true,
            checksum_failed: false,
            checksum_log: false,
        }
    }

    /// The number of bids.
    pub fn num_bids(&self) -> (r: usize)
        ensures
            r == self@.depth.bids.len(),
    {
        self.depth.bids.len()
    }

    /// The number of asks.
    pub fn num_asks(&self) -> (r: usize)
        ensures
            r == self@.depth.asks.len(),
    {
        self.depth.asks.len()
    }

    /// The best bid.
    pub fn best_bid(&self) -> (r: Option<Num>)
        ensures
            r == best_bid(self@.depth.bids),
    {
        self.depth.bids.highest()
    }

    /// The best ask.
    pub fn best_ask(&self) -> (r: Option<Num>)
        ensures
            r == best_ask(self@.depth.asks),
    {
        self.depth.asks.lowest()
    }

    /// The best ask less the best bid.
    pub fn spread<A: Fn(FloatOp, Num, Num) -> Num>(&self, unit: &A) -> (r: Option<Num>)
        requires
            arithmetic(*unit),
        ensures
            r == spread(*unit, self@.depth.bids, self@.depth.asks),
    {
        self.depth.spread(unit)
    }

    /// The best `n` bids, the best first.
    pub fn top_bids(&self, n: usize) -> (r: Vec<LobLevel>)
        ensures
            r@ == first_levels(best_first(self@.depth.bids), n as int),
    {
        self.depth.top_bids(n)
    }

    /// The best `n` asks, the best first.
    pub fn top_asks(&self, n: usize) -> (r: Vec<LobLevel>)
        ensures
            r@ == first_levels(self@.depth.asks, n as int),
    {
        self.depth.top_asks(n)
    }

    /// The levels of each side within a percentage of the best price.
    pub fn levels_within_pct<A: Fn(FloatOp, Num, Num) -> Num>(&self, pct: &Num, unit: &A) -> (r: (
        Vec<LobLevel>,
        Vec<LobLevel>,
    ))
        requires
            arithmetic(*unit),
        ensures
            r.0@ == bids_within(*unit, self@.depth.bids, *pct),
            r.1@ == asks_within(*unit, self@.depth.asks, *pct),
    {
        self.depth.levels_within_pct(pct, unit)
    }

    /// The sum of the sizes of the bids, the best first.
    pub fn total_bid_size<A: Fn(FloatOp, Num, Num) -> Num>(&self, unit: &A) -> (r: Num)
        requires
            arithmetic(*unit),
        ensures
            match total(*unit, best_first(self@.depth.bids)) {
                Some(t) => r == t,
                None => r@ == (NumView { bits: 0, text: "0"@ }),
            },
    {
        let bids: Vec<LobLevel> = self.depth.top_bids(self.depth.bids.len());
        total_size(&bids, unit)
    }

    /// The sum of the sizes of the asks, the best first.
    pub fn total_ask_size<A: Fn(FloatOp, Num, Num) -> Num>(&self, unit: &A) -> (r: Num)
        requires
            arithmetic(*unit),
        ensures
            match total(*unit, self@.depth.asks) {
                Some(t) => r == t,
                None => r@ == (NumView { bits: 0, text: "0"@ }),
            },
    {
        total_size(self.depth.asks.levels(), unit)
    }

    /// The book as a line of text. The percentage plays no part in it.
    pub fn display<A: Fn(FloatOp, Num, Num) -> Num>(
        &self,
        instrument: &str,
        _top_pct: &Num,
        unit: &A,
    ) -> (r: Vec<Piece>)
        requires
            arithmetic(*unit),
        ensures
            line(r@) == book_line(*unit, self@.depth, instrument@),
    {
        display_book(&self.depth, instrument, unit)
    }

    /// The book as an item, with every level.
    pub fn full_lob_item<A: Fn(FloatOp, Num, Num) -> Num>(
        &self,
        ts: u64,
        exchange: &str,
        unit: &A,
    ) -> (r: Option<LobItem>)
        requires
            arithmetic(*unit),
        ensures
            lob_view(r) == crate::book::full_item(self@.depth, ts, exchange@),
    {
        let none: Num = Num::zero_value();
        let r = self.depth.to_lob_item(ts, exchange, None, &none, unit);
        r
    }

    /// The book as an item, with the filters applied.
    pub fn to_lob_item<A: Fn(FloatOp, Num, Num) -> Num>(
        &self,
        ts: u64,
        exchange: &str,
        max_level: Option<usize>,
        max_level_pct: &Num,
        unit: &A,
    ) -> (r: Option<LobItem>)
        requires
            arithmetic(*unit),
        ensures
            lob_view(r) == filtered_item(
                *unit,
                self@.depth.bids,
                self@.depth.asks,
                ts,
                exchange@,
                max_level,
                *max_level_pct,
            ),
    {
        self.depth.to_lob_item(ts, exchange, max_level, max_level_pct, unit)
    }

    fn seed(&mut self, data: &Vec<PriceLevel>, side: Side)
        requires
            old(self).wf(),
        ensures
            final(self).wf(),
            final(self)@ == old(self)@.seeded(rows_view(data@), side),
    {
        if side == Side::Ask {
            self.needs_resync = false;
            self.checksum_failed = false;
        }
        self.awaiting_snapshot = false;
        let levels: Vec<LobLevel> = parse_levels(data);
        self.depth.replace_side(side, &levels);
    }

    /// Replaces a side by a snapshot. Levels that are not numbers or without
    /// a positive size are passed over; a book that is then crossed is cleared
    /// and asks for a resync, and the note says so.
    pub fn apply_snapshot(&mut self, data: &Vec<PriceLevel>, side: Side) -> (r: Option<Note>)
        requires
            old(self).wf(),
        ensures
            final(self).wf(),
            final(self)@ == old(self)@.snapshot(rows_view(data@), side),
            !final(self)@.depth.is_crossed(),
            r == old(self)@.seeded(rows_view(data@), side).depth.clearing(),
    {
        self.seed(data, side);
        self.repair_crossing()
    }

    /// Applies changes to a side: size zero removes a price, any other size
    /// is put at it, unless that would cross the book. The notes tell which
    /// changes were passed over.
    pub fn apply_update(&mut self, data: &Vec<PriceLevel>, side: Side) -> (r: Vec<Note>)
        requires
            old(self).wf(),
        ensures
            final(self).wf(),
            final(self)@ == old(self)@.update(rows_view(data@), side),
            !final(self)@.depth.is_crossed(),
            r@ == old(self)@.update_notes(rows_view(data@), side),
    {
        let levels: Vec<LobLevel> = parse_levels(data);
        let mut notes: Vec<Note> = self.depth.update_guarded(side, &levels);
        let cleared: Option<Note> = self.repair_crossing();
        add_note(&mut notes, cleared);
        notes
    }

    /// Clears a crossed book, asks for a resync and awaits the next snapshot, and says so.
    pub fn repair_crossing(&mut self) -> (r: Option<Note>)
        requires
            old(self).wf(),
        ensures
            final(self).wf(),
            final(self)@ == old(self)@.repaired(),
            r == old(self)@.depth.clearing(),
    {
        let cleared: Option<Note> = self.depth.repair();
        if cleared.is_some() {
            self.needs_resync = true;
            self.awaiting_snapshot = true;
        }
        cleared
    }

    /// Takes in a message of the book channel. The notes tell what was passed
    /// over, cleared, or did not fit.
    pub fn process_msg(&mut self, msg: &OkxWsMessage) -> (r: Vec<Note>)
        requires
            old(self).wf(),
        ensures
            final(self).wf(),
            final(self)@ == old(self)@.processed(msg@),
            r@ == old(self)@.notes(msg@),
    {
        let mut notes: Vec<Note> = Vec::new();
        let data: &Json = match msg.first() {
            Some(d) => d,
            None => {
                return notes;
            },
        };
        let bids: Vec<PriceLevel> = extract_levels(data, "bids");
        let asks: Vec<PriceLevel> = extract_levels(data, "asks");
        if msg.is_snapshot() {
            self.awaiting_snapshot = false;
            if bids.len() > 0 {
                self.seed(&bids, Side::Bid);
            }
            if asks.len() > 0 {
                self.seed(&asks, Side::Ask);
            }
            if bids.len() > 0 || asks.len() > 0 {
                let cleared: Option<Note> = self.repair_crossing();
                add_note(&mut notes, cleared);
            }
        } else if msg.is_update() {
            if bids.len() > 0 {
                notes = self.apply_update(&bids, Side::Bid);
            }
            if asks.len() > 0 {
                let mut more: Vec<Note> = self.apply_update(&asks, Side::Ask);
                notes.append(&mut more);
            }
        }
        assert(notes@ =~= old(self)@.level_notes(msg@));
        match msg.checksum() {
            Some(checksum) => {
                if !self.verify_checksum(checksum) {
                    let computed: u32 = self.compute_checksum(10);
                    add_note(&mut notes, Some(Note::Mismatch { computed, checksum }));
                }
            },
            None => {},
        }
        assert(notes@ =~= old(self)@.notes(msg@));
        notes
    }

    /// Compares the exchange's checksum with that of the best ten levels of
    /// each side. A mismatch is noted; the levels stay.
    pub fn verify_checksum(&mut self, checksum: i64) -> (r: bool)
        requires
            old(self).wf(),
        ensures
            final(self).wf(),
            r == old(self)@.agrees(checksum),
            final(self)@ == old(self)@.verified(checksum),
    {
        let agrees: bool = checksum <= 0 || self.compute_checksum(10) as i64 == checksum;
        self.checksum_failed = !agrees;
        agrees
    }

    /// The checksum of the best `depth` levels of each side.
    pub fn compute_checksum(&self, depth: usize) -> (r: u32)
        ensures
            r == book_checksum(self@.depth, depth as int),
    {
        compute_checksum(&self.depth, depth)
    }

    /// Whether a crossed book was cleared.
    pub fn needs_resync(&self) -> (r: bool)
        ensures
            r == self@.needs_resync,
    {
        self.needs_resync
    }

    /// Whether the book has to be seeded by a snapshot before it can be used.
    pub fn awaiting_snapshot(&self) -> (r: bool)
        ensures
            r == self@.awaiting_snapshot,
    {
        self.awaiting_snapshot
    }

    /// Whether the last checksum did not match.
    pub fn checksum_failed(&self) -> (r: bool)
        ensures
            r == self@.checksum_failed,
    {
        self.checksum_failed
    }

    /// Whether checksum mismatches are logged.
    pub fn checksum_log(&self) -> (r: bool)
        ensures
            r == self@.checksum_log,
    {
        self.checksum_log
    }

    /// Sets whether checksum mismatches are logged.
    pub fn set_checksum_log(&mut self, enabled: bool)
        ensures
            final(self)@ == (BookView { checksum_log: enabled, ..old(self)@ }),
    {
        self.checksum_log = enabled;
    }

    /// Whether to log a checksum that does not match.
    pub fn should_log_mismatch(checksum_log: bool, debug_enabled: bool) -> (r: bool)
        ensures
            r == (checksum_log || debug_enabled),
    {
        checksum_log || debug_enabled
    }

    /// Whether to log a level that would cross the book.
    pub fn should_log_crossing(checksum_log: bool, debug_enabled: bool) -> (r: bool)
        ensures
            r == (checksum_log || debug_enabled),
    {
        checksum_log || debug_enabled
    }

    /// Drops every level and all that was noted.
    pub fn reset(&mut self)
        ensures
            final(self).wf(),
            final(self)@ == old(self)@.fresh(),
    {
        self.depth.clear();
        self.needs_resync = false;
        self.awaiting_snapshot = true;
        self.checksum_failed = false;
    }
}

impl Default for OrderBook {
    fn default() -> (r: Self)
        ensures
            r.wf(),
            r@.depth == DepthView::empty(),
            r@ == r@.fresh(),
            !r@.checksum_log,
    {
        OrderBook::new()
    }
}

/// Whatever message comes, a book in order stays in order, and one that is
/// not crossed is not left crossed.
pub proof fn message_never_crosses(b: BookView, msg: OkxView)
    requires
        b.depth.wf(),
    ensures
        b.processed(msg).depth.wf(),
        !b.depth.is_crossed() ==> !b.processed(msg).depth.is_crossed(),
{
    if msg.data.len() > 0 {
        let bids = levels_at(msg.data[0], "bids"@);
        let asks = levels_at(msg.data[0], "asks"@);
        filled_is_ordered(parsed(bids));
        filled_is_ordered(parsed(asks));
        guarded_keeps_order(b.depth, Side::Bid, parsed(bids));
        guarded_keeps_order(b.changed(bids, Side::Bid).depth, Side::Ask, parsed(asks));
    }
}

/// A snapshot with both sides that is not itself crossed is the whole book
/// afterwards, whatever stood there before: both sides are those of the
/// snapshot, nothing is asked for, and no snapshot is awaited.
pub proof fn full_snapshot_replaces_the_book(b: BookView, msg: OkxView)
    requires
        msg.is_snapshot(),
        levels_at(msg.data[0], "bids"@).len() > 0,
        levels_at(msg.data[0], "asks"@).len() > 0,
        !crossed(
            filled(parsed(levels_at(msg.data[0], "bids"@))),
            filled(parsed(levels_at(msg.data[0], "asks"@))),
        ),
    ensures
        b.processed(msg).depth.bids == filled(parsed(levels_at(msg.data[0], "bids"@))),
        b.processed(msg).depth.asks == filled(parsed(levels_at(msg.data[0], "asks"@))),
        !b.processed(msg).needs_resync,
        !b.processed(msg).awaiting_snapshot,
{
}

/// Changes to a side of a book that is not crossed, at prices that are
/// numbers, leave it not crossed, clear nothing and ask for nothing.
pub proof fn update_clears_nothing(b: BookView, rows: Seq<Seq<JsonText>>, side: Side)
    requires
        b.depth.wf(),
        !b.depth.is_crossed(),
        prices_are_numbers(parsed(rows)),
    ensures
        !b.update(rows, side).depth.is_crossed(),
        b.update(rows, side) == (BookView {
            depth: b.depth.guarded(side, parsed(rows)),
            ..b
        }),
        b.update_notes(rows, side) == b.depth.refusals(side, parsed(rows)),
{
    guard_keeps_uncrossed(b.depth, side, parsed(rows));
    assert(b.update_notes(rows, side) =~= b.depth.refusals(side, parsed(rows)));
}

/// Changes to the bids of a book that is not crossed, at prices that are
/// numbers, leave the asks as they are, keep the size at every bid that they
/// do not name, and leave nothing at one that they name last with size zero.
pub proof fn bid_update_is_local(b: BookView, rows: Seq<Seq<JsonText>>)
    requires
        b.depth.wf(),
        !b.depth.is_crossed(),
        prices_are_numbers(parsed(rows)),
    ensures
        b.update(rows, Side::Bid).depth.asks == b.depth.asks,
        forall|key: int|
            unnamed(parsed(rows), key) ==> #[trigger] size_at(
                b.update(rows, Side::Bid).depth.bids,
                key,
            ) == size_at(b.depth.bids, key),
        forall|key: int|
            taken_away(parsed(rows), key) ==> #[trigger] size_at(
                b.update(rows, Side::Bid).depth.bids,
                key,
            ) is None,
{
    guard_keeps_uncrossed(b.depth, Side::Bid, parsed(rows));
    guarded_bids_are_local(b.depth, parsed(rows));
}

/// Changes to the asks of a book that is not crossed, at prices that are
/// numbers, leave the bids as they are, keep the size at every ask that they
/// do not name, and leave nothing at one that they name last with size zero.
pub proof fn ask_update_is_local(b: BookView, rows: Seq<Seq<JsonText>>)
    requires
        b.depth.wf(),
        !b.depth.is_crossed(),
        prices_are_numbers(parsed(rows)),
    ensures
        b.update(rows, Side::Ask).depth.bids == b.depth.bids,
        forall|key: int|
            unnamed(parsed(rows), key) ==> #[trigger] size_at(
                b.update(rows, Side::Ask).depth.asks,
                key,
            ) == size_at(b.depth.asks, key),
        forall|key: int|
            taken_away(parsed(rows), key) ==> #[trigger] size_at(
                b.update(rows, Side::Ask).depth.asks,
                key,
            ) is None,
{
    guard_keeps_uncrossed(b.depth, Side::Ask, parsed(rows));
    guarded_asks_are_local(b.depth, parsed(rows));
}

/// A book that had to be cleared asks for a resync, and only such a book does.
pub proof fn clearing_asks_for_resync(b: BookView, rows: Seq<Seq<JsonText>>, side: Side)
    requires
        !b.needs_resync,
    ensures
        b.snapshot(rows, side).needs_resync == b.depth.replaced(side, parsed(rows)).is_crossed(),
        b.snapshot(rows, side).needs_resync ==> b.snapshot(rows, side).depth == DepthView::empty()
            && b.snapshot(rows, side).awaiting_snapshot,
        b.update(rows, side).needs_resync == b.depth.guarded(side, parsed(rows)).is_crossed(),
        b.update(rows, side).needs_resync ==> b.update(rows, side).depth == DepthView::empty()
            && b.update(rows, side).awaiting_snapshot,
{
}

/// A checksum tells whether the last one matched, whatever those before it
/// told, and changes nothing else.
pub proof fn mismatch_is_only_noted(b: BookView, checksum: i64)
    ensures
        b.verified(checksum).checksum_failed == !b.agrees(checksum),
        b.verified(checksum).depth == b.depth,
        b.verified(checksum).needs_resync == b.needs_resync,
        b.verified(checksum).awaiting_snapshot == b.awaiting_snapshot,
{
}

} // verus!

//! The order book of Kraken.
//!
//! The book holds every level that was received. Filters are applied only
//! where an item is made from it.

use crate::book::add_note;
use crate::book::asks_within;
use crate::book::best_first;
use crate::book::bids_within;
use crate::book::crossed;
use crate::book::filled;
use crate::book::filled_is_ordered;
use crate::book::filtered_item;
use crate::book::first_levels;
use crate::book::guard_keeps_uncrossed;
use crate::book::guarded_asks_are_local;
use crate::book::guarded_bids_are_local;
use crate::book::guarded_keeps_order;
use crate::book::noted;
use crate::book::spread;
use crate::book::taken_away;
use crate::book::total;
use crate::book::total_size;
use crate::book::unnamed;
use crate::book::Depth;
use crate::book::DepthView;
use crate::book::Note;
pub use crate::book::Side;
use crate::checksum::book_checksum;
use crate::checksum::compute_checksum;
use crate::display::book_line;
use crate::display::display_book;
use crate::items::lob_view;
use crate::items::LobItem;
use crate::items::LobLevel;
use crate::json::Json;
use crate::kraken::types::quoted;
use crate::kraken::types::read_quote;
use crate::kraken::types::KrakenView;
use crate::kraken::types::KrakenWsMessage;
use crate::ladder::best_ask;
use crate::ladder::best_bid;
use crate::ladder::prices_are_numbers;
use crate::ladder::size_at;
use crate::line::line;
use crate::line::Piece;
use crate::num::arithmetic;
use crate::num::FloatOp;
use crate::num::Num;
use crate::num::NumView;
use vstd::prelude::*;

verus! {

/// The levels of a side: of the elements of an array, those that are quotes.
pub open spec fn quotes(a: Seq<Json>) -> Seq<LobLevel>
    decreases a.len(),
{
    if a.len() == 0 {
        Seq::empty()
    } else {
        match quoted(a.last()) {
            Some((price, size)) => quotes(a.drop_last()).push(LobLevel { price, size }),
            None => quotes(a.drop_last()),
        }
    }
}

/// The levels at a key of a data entry.
pub open spec fn levels_at(d: Json, key: Seq<char>) -> Seq<LobLevel> {
    match d.at(key) {
        Some(Json::Arr(a)) => quotes(a@),
        _ => Seq::empty(),
    }
}

/// Extracts the levels at a key of a data entry.
fn extract_levels(data: &Json, key: &str) -> (r: Vec<LobLevel>)
    ensures
        r@ == levels_at(*data, key@),
{
    let mut out: Vec<LobLevel> = Vec::new();
    match data.get(key) {
        Some(v) => match v {
            Json::Arr(a) => {
                let mut i: usize = 0;
                assert(a@.take(0) =~= Seq::<Json>::empty());
                while i < a.len()
                    invariant
                        i <= a.len(),
                        out@ == quotes(a@.take(i as int)),
                    decreases a.len() - i,
                {
                    assert(a@.take(i + 1).drop_last() =~= a@.take(i as int));
                    match read_quote(&a[i]) {
                        Some((price, size)) => {
                            out.push(LobLevel { price, size });
                        },
                        None => {},
                    }
                    i += 1;
                }
                assert(a@.take(a@.len() as int) =~= a@);
            },
            _ => {},
        },
        None => {},
    }
    out
}

/// The mathematical content of an [`OrderBook`].
#[verifier::ext_equal]
pub struct BookView {
    pub depth: DepthView,
    pub last_sequence: Option<u64>,
    pub needs_resync: bool,
    pub awaiting_snapshot: bool,
    pub checksum_failed: bool,
    pub checksum_log: bool,
    pub crossguard_log: bool,
}

impl BookView {
    /// The book with a crossed one cleared, which then awaits a snapshot.
    pub open spec fn repaired(self) -> BookView {
        BookView {
            depth: self.depth.repaired(),
            awaiting_snapshot: self.awaiting_snapshot || self.depth.is_crossed(),
            ..self
        }
    }

    /// The book with a side replaced by that of a snapshot. The asks, which
    /// come after the bids, set the book right again.
    pub open spec fn seeded(self, levels: Seq<LobLevel>, side: Side) -> BookView {
        let depth = self.depth.replaced(side, levels);
        match side {
            Side::Bid => BookView { depth, awaiting_snapshot: false, ..self },
            Side::Ask => BookView {
                depth,
                last_sequence: None,
                needs_resync: false,
                awaiting_snapshot: false,
                checksum_failed: false,
                ..self
            },
        }
    }

    /// The book after a snapshot of one side.
    pub open spec fn snapshot(self, levels: Seq<LobLevel>, side: Side) -> BookView {
        self.seeded(levels, side).repaired()
    }

    /// The book after a snapshot: each side that it holds is replaced, and
    /// only then is the book held against crossing.
    pub open spec fn loaded(self, bids: Seq<LobLevel>, asks: Seq<LobLevel>) -> BookView {
        if bids.len() == 0 && asks.len() == 0 {
            BookView { awaiting_snapshot: false, ..self }
        } else {
            self.unrepaired(bids, asks).repaired()
        }
    }

    /// The book with each side replaced that a snapshot holds.
    pub open spec fn unrepaired(self, bids: Seq<LobLevel>, asks: Seq<LobLevel>) -> BookView {
        let start = BookView { awaiting_snapshot: false, ..self };
        let with_bids = if bids.len() > 0 {
            start.seeded(bids, Side::Bid)
        } else {
            start
        };
        if asks.len() > 0 {
            with_bids.seeded(asks, Side::Ask)
        } else {
            with_bids
        }
    }

    /// The book after changes to a side.
    pub open spec fn update(self, levels: Seq<LobLevel>, side: Side) -> BookView {
        (BookView { depth: self.depth.guarded(side, levels), ..self }).repaired()
    }

    /// The notes on changes to a side.
    pub open spec fn update_notes(self, levels: Seq<LobLevel>, side: Side) -> Seq<Note> {
        self.depth.refusals(side, levels) + noted(
            self.depth.guarded(side, levels).clearing(),
        )
    }

    /// The book after the changes that a message holds to a side.
    pub open spec fn changed(self, levels: Seq<LobLevel>, side: Side) -> BookView {
        if levels.len() == 0 {
            self
        } else {
            self.update(levels, side)
        }
    }

    /// The notes on the changes that a message holds to a side.
    pub open spec fn change_notes(self, levels: Seq<LobLevel>, side: Side) -> Seq<Note> {
        if levels.len() == 0 {
            Seq::empty()
        } else {
            self.update_notes(levels, side)
        }
    }

    /// The book after a sequence number: any but the next one asks for a resync.
    pub open spec fn sequenced(self, seq: Option<u64>) -> BookView {
        match seq {
            None => self,
            Some(s) => BookView {
                last_sequence: Some(s),
                needs_resync: self.needs_resync || (self.last_sequence matches Some(last) && s
                    != last + 1),
                ..self
            },
        }
    }

    /// The note on a sequence number: that it is not the one after the last.
    pub open spec fn sequence_note(self, seq: Option<u64>) -> Option<Note> {
        match (self.last_sequence, seq) {
            (Some(last), Some(s)) => if s != last + 1 {
                Some(Note::OutOfSequence { last, sequence: s })
            } else {
                None
            },
            _ => None,
        }
    }

    /// The checksum of the exchange agrees with the book; one that is not
    /// positive says nothing.
    pub open spec fn agrees(self, checksum: i64) -> bool {
        checksum <= 0 || book_checksum(self.depth, 10) == checksum
    }

    /// The book after a checksum: whether it fails is what the last one told.
    pub open spec fn verified(self, checksum: i64) -> BookView {
        BookView { checksum_failed: !self.agrees(checksum), ..self }
    }

    /// The book with the levels of a message taken in.
    pub open spec fn levelled(self, msg: KrakenView) -> BookView {
        if msg.is_snapshot() {
            self.loaded(levels_at(msg.data[0], "bids"@), levels_at(msg.data[0], "asks"@))
        } else if msg.is_update() {
            self.changed(levels_at(msg.data[0], "bids"@), Side::Bid).changed(
                levels_at(msg.data[0], "asks"@),
                Side::Ask,
            )
        } else {
            self
        }
    }

    /// The notes on the levels of a message.
    pub open spec fn level_notes(self, msg: KrakenView) -> Seq<Note> {
        let bids = levels_at(msg.data[0], "bids"@);
        let asks = levels_at(msg.data[0], "asks"@);
        if msg.is_snapshot() {
            if bids.len() == 0 && asks.len() == 0 {
                Seq::empty()
            } else {
                noted(self.unrepaired(bids, asks).depth.clearing())
            }
        } else if msg.is_update() {
            self.change_notes(bids, Side::Bid) + self.changed(bids, Side::Bid).change_notes(
                asks,
                Side::Ask,
            )
        } else {
            Seq::empty()
        }
    }

    /// The book with a message taken in, before its checksum.
    pub open spec fn unverified(self, msg: KrakenView) -> BookView {
        self.levelled(msg).sequenced(msg.sequence)
    }

    /// The book after a message.
    pub open spec fn processed(self, msg: KrakenView) -> BookView {
        if msg.data.len() == 0 {
            self
        } else {
            match msg.checksum() {
                Some(n) => self.unverified(msg).verified(n),
                None => self.unverified(msg),
            }
        }
    }

    /// The note on a checksum: that it is not that of the book.
    pub open spec fn checksum_note(self, checksum: Option<i64>) -> Option<Note> {
        match checksum {
            Some(n) => if self.agrees(n) {
                None
            } else {
                Some(Note::Mismatch { computed: book_checksum(self.depth, 10), checksum: n })
            },
            None => None,
        }
    }

    /// The notes on a message.
    pub open spec fn notes(self, msg: KrakenView) -> Seq<Note> {
        if msg.data.len() == 0 {
            Seq::empty()
        } else {
            self.level_notes(msg) + noted(self.levelled(msg).sequence_note(msg.sequence)) + noted(
                self.unverified(msg).checksum_note(msg.checksum()),
            )
        }
    }

    /// The book without levels and without memory of what it received.
    pub open spec fn fresh(self) -> BookView {
        BookView {
            depth: DepthView::empty(),
            last_sequence: None,
            needs_resync: false,
            awaiting_snapshot: true,
            checksum_failed: false,
            ..self
        }
    }
}

/// The order book.
#[derive(Debug, Clone)]
pub struct OrderBook {
    pub depth: Depth,
    /// The last sequence number seen.
    last_sequence: Option<u64>,
    /// A message was lost, repeated, or came out of order.
    needs_resync: bool,
    /// No snapshot has come since the book was empty.
    awaiting_snapshot: bool,
    /// The last checksum did not match.
    checksum_failed: bool,
    /// Whether to log a checksum that does not match.
    checksum_log: bool,
    /// Whether to log a level that would cross the book.
    crossguard_log: bool,
}

impl View for OrderBook {
    type V = BookView;

    closed spec fn view(&self) -> BookView {
        BookView {
            depth: self.depth@,
            last_sequence: self.last_sequence,
            needs_resync: self.needs_resync,
            awaiting_snapshot: self.awaiting_snapshot,
            checksum_failed: self.checksum_failed,
            checksum_log: self.checksum_log,
            crossguard_log: self.crossguard_log,
        }
    }
}

impl OrderBook {
    /// Both sides are in order.
    pub open spec fn wf(self) -> bool {
        self@.depth.wf()
    }

    /// An empty book.
    pub fn new() -> (r: OrderBook)
        ensures
            r.wf(),
            r@ == (BookView {
                depth: DepthView::empty(),
                last_sequence: None,
                needs_resync: false,
                awaiting_snapshot: true,
                checksum_failed: false,
                checksum_log: false,
                crossguard_log: false,
            }),
    {
        OrderBook {
            depth: Depth::new(),
            last_sequence: None,
            needs_resync: false,
            awaiting_snapshot: true,
            checksum_failed: false,
            checksum_log: false,
            crossguard_log: false,
        }
    }

    /// The number of bids.
    pub fn num_bids(&self) -> (r: usize)
        ensures
            r == self@.depth.bids.len(),
    {
        self.depth.bids.len()
    }

    /// The number of asks.
    pub fn num_asks(&self) -> (r: usize)
        ensures
            r == self@.depth.asks.len(),
    {
        self.depth.asks.len()
    }

    /// The best bid.
    pub fn best_bid(&self) -> (r: Option<Num>)
        ensures
            r == best_bid(self@.depth.bids),
    {
        self.depth.bids.highest()
    }

    /// The best ask.
    pub fn best_ask(&self) -> (r: Option<Num>)
        ensures
            r == best_ask(self@.depth.asks),
    {
        self.depth.asks.lowest()
    }

    /// The best ask less the best bid.
    pub fn spread<A: Fn(FloatOp, Num, Num) -> Num>(&self, unit: &A) -> (r: Option<Num>)
        requires
            arithmetic(*unit),
        ensures
            r == spread(*unit, self@.depth.bids, self@.depth.asks),
    {
        self.depth.spread(unit)
    }

    /// The best `n` bids, the best first.
    pub fn top_bids(&self, n: usize) -> (r: Vec<LobLevel>)
        ensures
            r@ == first_levels(best_first(self@.depth.bids), n as int),
    {
        self.depth.top_bids(n)
    }

    /// The best `n` asks, the best first.
    pub fn top_asks(&self, n: usize) -> (r: Vec<LobLevel>)
        ensures
            r@ == first_levels(self@.depth.asks, n as int),
    {
        self.depth.top_asks(n)
    }

    /// The levels of each side within a percentage of the best price.
    pub fn levels_within_pct<A: Fn(FloatOp, Num, Num) -> Num>(&self, pct: &Num, unit: &A) -> (r: (
        Vec<LobLevel>,
        Vec<LobLevel>,
    ))
        requires
            arithmetic(*unit),
        ensures
            r.0@ == bids_within(*unit, self@.depth.bids, *pct),
            r.1@ == asks_within(*unit, self@.depth.asks, *pct),
    {
        self.depth.levels_within_pct(pct, unit)
    }

    /// The sum of the sizes of the bids, the best first.
    pub fn total_bid_size<A: Fn(FloatOp, Num, Num) -> Num>(&self, unit: &A) -> (r: Num)
        requires
            arithmetic(*unit),
        ensures
            match total(*unit, best_first(self@.depth.bids)) {
                Some(t) => r == t,
                None => r@ == (NumView { bits: 0, text: "0"@ }),
            },
    {
        let bids: Vec<LobLevel> = self.depth.top_bids(self.depth.bids.len());
        total_size(&bids, unit)
    }

    /// The sum of the sizes of the asks, the best first.
    pub fn total_ask_size<A: Fn(FloatOp, Num, Num) -> Num>(&self, unit: &A) -> (r: Num)
        requires
            arithmetic(*unit),
        ensures
            match total(*unit, self@.depth.asks) {
                Some(t) => r == t,
                None => r@ == (NumView { bits: 0, text: "0"@ }),
            },
    {
        total_size(self.depth.asks.levels(), unit)
    }

    /// The book as a line of text. The percentage plays no part in it.
    pub fn display<A: Fn(FloatOp, Num, Num) -> Num>(
        &self,
        instrument: &str,
        _top_pct: &Num,
        unit: &A,
    ) -> (r: Vec<Piece>)
        requires
            arithmetic(*unit),
        ensures
            line(r@) == book_line(*unit, self@.depth, instrument@),
    {
        display_book(&self.depth, instrument, unit)
    }

    /// The book as an item, with every level.
    pub fn full_lob_item<A: Fn(FloatOp, Num, Num) -> Num>(
        &self,
        ts: u64,
        exchange: &str,
        unit: &A,
    ) -> (r: Option<LobItem>)
        requires
            arithmetic(*unit),
        ensures
            lob_view(r) == crate::book::full_item(self@.depth, ts, exchange@),
    {
        let none: Num = Num::zero_value();
        let r = self.depth.to_lob_item(ts, exchange, None, &none, unit);
        r
    }

    /// The book as an item, with the filters applied.
    pub fn to_lob_item<A: Fn(FloatOp, Num, Num) -> Num>(
        &self,
        ts: u64,
        exchange: &str,
        max_level: Option<usize>,
        max_level_pct: &Num,
        unit: &A,
    ) -> (r: Option<LobItem>)
        requires
            arithmetic(*unit),
        ensures
            lob_view(r) == filtered_item(
                *unit,
                self@.depth.bids,
                self@.depth.asks,
                ts,
                exchange@,
                max_level,
                *max_level_pct,
            ),
    {
        self.depth.to_lob_item(ts, exchange, max_level, max_level_pct, unit)
    }

    fn seed(&mut self, data: &Vec<LobLevel>, side: Side)
        requires
            old(self).wf(),
        ensures
            final(self).wf(),
            final(self)@ == old(self)@.seeded(data@, side),
    {
        if side == Side::Ask {
            self.last_sequence = None;
            self.needs_resync = false;
            self.checksum_failed = false;
        }
        self.awaiting_snapshot = false;
        self.depth.replace_side(side, data);
    }

    /// Replaces a side by a snapshot. Levels without
    /// a positive size are passed over; a book that is then crossed is cleared
    /// and awaits the next snapshot, and the note says so.
    pub fn apply_snapshot(&mut self, data: &Vec<LobLevel>, side: Side) -> (r: Option<Note>)
        requires
            old(self).wf(),
        ensures
            final(self).wf(),
            final(self)@ == old(self)@.snapshot(data@, side),
            !final(self)@.depth.is_crossed(),
            r == old(self)@.seeded(data@, side).depth.clearing(),
    {
        self.seed(data, side);
        self.repair_crossing()
    }

    /// Applies changes to a side: size zero removes a price, any other size
    /// is put at it, unless that would cross the book. The notes tell which
    /// changes were passed over.
    pub fn apply_update(&mut self, data: &Vec<LobLevel>, side: Side) -> (r: Vec<Note>)
        requires
            old(self).wf(),
        ensures
            final(self).wf(),
            final(self)@ == old(self)@.update(data@, side),
            !final(self)@.depth.is_crossed(),
            r@ == old(self)@.update_notes(data@, side),
    {
        let mut notes: Vec<Note> = self.depth.update_guarded(side, data);
        let cleared: Option<Note> = self.repair_crossing();
        add_note(&mut notes, cleared);
        notes
    }

    /// Clears a crossed book, awaits the next snapshot, and says so.
    pub fn repair_crossing(&mut self) -> (r: Option<Note>)
        requires
            old(self).wf(),
        ensures
            final(self).wf(),
            final(self)@ == old(self)@.repaired(),
            r == old(self)@.depth.clearing(),
    {
        let cleared: Option<Note> = self.depth.repair();
        if cleared.is_some() {
            self.awaiting_snapshot = true;
        }
        cleared
    }

    /// Takes in a message of the book channel. The notes tell what was passed
    /// over, cleared, or did not fit.
    pub fn process_msg(&mut self, msg: &KrakenWsMessage) -> (r: Vec<Note>)
        requires
            old(self).wf(),
        ensures
            final(self).wf(),
            final(self)@ == old(self)@.processed(msg@),
            r@ == old(self)@.notes(msg@),
    {
        let mut notes: Vec<Note> = Vec::new();
        let data: &Json = match msg.first() {
            Some(d) => d,
            None => {
                return notes;
            },
        };
        let bids: Vec<LobLevel> = extract_levels(data, "bids");
        let asks: Vec<LobLevel> = extract_levels(data, "asks");
        if msg.is_snapshot() {
            self.awaiting_snapshot = false;
            if bids.len() > 0 {
                self.seed(&bids, Side::Bid);
            }
            if asks.len() > 0 {
                self.seed(&asks, Side::Ask);
            }
            if bids.len() > 0 || asks.len() > 0 {
                let cleared: Option<Note> = self.repair_crossing();
                add_note(&mut notes, cleared);
            }
        } else if msg.is_update() {
            if bids.len() > 0 {
                notes = self.apply_update(&bids, Side::Bid);
            }
            if asks.len() > 0 {
                let mut more: Vec<Note> = self.apply_update(&asks, Side::Ask);
                notes.append(&mut more);
            }
        }
        assert(notes@ =~= old(self)@.level_notes(msg@));
        let out_of_sequence: Option<Note> = self.track_sequence(msg.sequence);
        add_note(&mut notes, out_of_sequence);
        match msg.checksum() {
            Some(checksum) => {
                if !self.verify_checksum(checksum) {
                    let computed: u32 = self.compute_checksum(10);
                    add_note(&mut notes, Some(Note::Mismatch { computed, checksum }));
                }
            },
            None => {},
        }
        assert(notes@ =~= old(self)@.notes(msg@));
        notes
    }

    /// Takes note of a sequence number, and says so where it is not the one
    /// after the last.
    pub fn track_sequence(&mut self, seq: Option<u64>) -> (r: Option<Note>)
        requires
            old(self).wf(),
        ensures
            final(self).wf(),
            final(self)@ == old(self)@.sequenced(seq),
            r == old(self)@.sequence_note(seq),
    {
        let mut note: Option<Note> = None;
        match seq {
            Some(s) => {
                match self.last_sequence {
                    Some(last) => {
                        if s <= last || s > last + 1 {
                            self.needs_resync = true;
                            note = Some(Note::OutOfSequence { last, sequence: s });
                        }
                    },
                    None => {},
                }
                self.last_sequence = Some(s);
            },
            None => {},
        }
        note
    }

    /// Compares the exchange's checksum with that of the best ten levels of
    /// each side. A mismatch is noted; the levels stay.
    pub fn verify_checksum(&mut self, checksum: i64) -> (r: bool)
        requires
            old(self).wf(),
        ensures
            final(self).wf(),
            r == old(self)@.agrees(checksum),
            final(self)@ == old(self)@.verified(checksum),
    {
        let agrees: bool = checksum <= 0 || self.compute_checksum(10) as i64 == checksum;
        self.checksum_failed = !agrees;
        agrees
    }

    /// The checksum of the best `depth` levels of each side.
    pub fn compute_checksum(&self, depth: usize) -> (r: u32)
        ensures
            r == book_checksum(self@.depth, depth as int),
    {
        compute_checksum(&self.depth, depth)
    }

    /// Whether a message was lost, repeated, or came out of order.
    pub fn needs_resync(&self) -> (r: bool)
        ensures
            r == self@.needs_resync,
    {
        self.needs_resync
    }

    /// Whether the book has to be seeded by a snapshot before it can be used.
    pub fn awaiting_snapshot(&self) -> (r: bool)
        ensures
            r == self@.awaiting_snapshot,
    {
        self.awaiting_snapshot
    }

    /// Whether the last checksum did not match.
    pub fn checksum_failed(&self) -> (r: bool)
        ensures
            r == self@.checksum_failed,
    {
        self.checksum_failed
    }

    /// Whether checksum mismatches are logged.
    pub fn checksum_log(&self) -> (r: bool)
        ensures
            r == self@.checksum_log,
    {
        self.checksum_log
    }

    /// Whether rejected levels are logged.
    pub fn crossguard_log(&self) -> (r: bool)
        ensures
            r == self@.crossguard_log,
    {
        self.crossguard_log
    }

    /// Sets whether checksum mismatches are logged.
    pub fn set_checksum_log(&mut self, enabled: bool)
        ensures
            final(self)@ == (BookView { checksum_log: enabled, ..old(self)@ }),
    {
        self.checksum_log = enabled;
    }

    /// Sets whether rejected levels are logged.
    pub fn set_crossguard_log(&mut self, enabled: bool)
        ensures
            final(self)@ == (BookView { crossguard_log: enabled, ..old(self)@ }),
    {
        self.crossguard_log = enabled;
    }

    /// Whether to log a checksum that does not match.
    pub fn should_log_mismatch(checksum_log: bool, debug_enabled: bool) -> (r: bool)
        ensures
            r == (checksum_log || debug_enabled),
    {
        checksum_log || debug_enabled
    }

    /// Whether to log a level that would cross the book.
    pub fn should_log_crossing(crossguard_log: bool, debug_enabled: bool) -> (r: bool)
        ensures
            r == (crossguard_log || debug_enabled),
    {
        crossguard_log || debug_enabled
    }

    /// Drops every level and all that was noted.
    pub fn reset(&mut self)
        ensures
            final(self).wf(),
            final(self)@ == old(self)@.fresh(),
    {
        self.depth.clear();
        self.last_sequence = None;
        self.needs_resync = false;
        self.awaiting_snapshot = true;
        self.checksum_failed = false;
    }
}

impl Default for OrderBook {
    fn default() -> (r: Self)
        ensures
            r.wf(),
            r@.depth == DepthView::empty(),
            r@ == r@.fresh(),
            !r@.checksum_log,
            !r@.crossguard_log,
    {
        OrderBook::new()
    }
}

/// Whatever message comes, a book in order stays in order, and one that is
/// not crossed is not left crossed.
pub proof fn message_never_crosses(b: BookView, msg: KrakenView)
    requires
        b.depth.wf(),
    ensures
        b.processed(msg).depth.wf(),
        !b.depth.is_crossed() ==> !b.processed(msg).depth.is_crossed(),
{
    if msg.data.len() > 0 {
        let bids = levels_at(msg.data[0], "bids"@);
        let asks = levels_at(msg.data[0], "asks"@);
        filled_is_ordered(bids);
        filled_is_ordered(asks);
        guarded_keeps_order(b.depth, Side::Bid, bids);
        guarded_keeps_order(b.changed(bids, Side::Bid).depth, Side::Ask, asks);
    }
}

/// A snapshot with both sides that is not itself crossed is the whole book
/// afterwards, whatever stood there before: both sides are those of the
/// snapshot, nothing is asked for, and no snapshot is awaited.
pub proof fn full_snapshot_replaces_the_book(b: BookView, msg: KrakenView)
    requires
        msg.is_snapshot(),
        levels_at(msg.data[0], "bids"@).len() > 0,
        levels_at(msg.data[0], "asks"@).len() > 0,
        !crossed(
            filled(levels_at(msg.data[0], "bids"@)),
            filled(levels_at(msg.data[0], "asks"@)),
        ),
    ensures
        b.processed(msg).depth.bids == filled(levels_at(msg.data[0], "bids"@)),
        b.processed(msg).depth.asks == filled(levels_at(msg.data[0], "asks"@)),
        !b.processed(msg).needs_resync,
        !b.processed(msg).awaiting_snapshot,
{
}

/// Changes to a side of a book that is not crossed, at prices that are
/// numbers, leave it not crossed, clear nothing and ask for nothing.
pub proof fn update_clears_nothing(b: BookView, levels: Seq<LobLevel>, side: Side)
    requires
        b.depth.wf(),
        !b.depth.is_crossed(),
        prices_are_numbers(levels),
    ensures
        !b.update(levels, side).depth.is_crossed(),
        b.update(levels, side) == (BookView {
            depth: b.depth.guarded(side, levels),
            ..b
        }),
        b.update_notes(levels, side) == b.depth.refusals(side, levels),
{
    guard_keeps_uncrossed(b.depth, side, levels);
    assert(b.update_notes(levels, side) =~= b.depth.refusals(side, levels));
}

/// Changes to the bids of a book that is not crossed, at prices that are
/// numbers, leave the asks as they are, keep the size at every bid that they
/// do not name, and leave nothing at one that they name last with size zero.
pub proof fn bid_update_is_local(b: BookView, levels: Seq<LobLevel>)
    requires
        b.depth.wf(),
        !b.depth.is_crossed(),
        prices_are_numbers(levels),
    ensures
        b.update(levels, Side::Bid).depth.asks == b.depth.asks,
        forall|key: int|
            unnamed(levels, key) ==> #[trigger] size_at(
                b.update(levels, Side::Bid).depth.bids,
                key,
            ) == size_at(b.depth.bids, key),
        forall|key: int|
            taken_away(levels, key) ==> #[trigger] size_at(
                b.update(levels, Side::Bid).depth.bids,
                key,
            ) is None,
{
    guard_keeps_uncrossed(b.depth, Side::Bid, levels);
    guarded_bids_are_local(b.depth, levels);
}

/// Changes to the asks of a book that is not crossed, at prices that are
/// numbers, leave the bids as they are, keep the size at every ask that they
/// do not name, and leave nothing at one that they name last with size zero.
pub proof fn ask_update_is_local(b: BookView, levels: Seq<LobLevel>)
    requires
        b.depth.wf(),
        !b.depth.is_crossed(),
        prices_are_numbers(levels),
    ensures
        b.update(levels, Side::Ask).depth.bids == b.depth.bids,
        forall|key: int|
            unnamed(levels, key) ==> #[trigger] size_at(
                b.update(levels, Side::Ask).depth.asks,
                key,
            ) == size_at(b.depth.asks, key),
        forall|key: int|
            taken_away(levels, key) ==> #[trigger] size_at(
                b.update(levels, Side::Ask).depth.asks,
                key,
            ) is None,
{
    guard_keeps_uncrossed(b.depth, Side::Ask, levels);
    guarded_asks_are_local(b.depth, levels);
}

/// A sequence number other than the next one asks for a resync, and the next
/// one does not; either way it is the one that the next is held against.
pub proof fn update_follows_sequence(b: BookView, msg: KrakenView, last: u64, seq: u64)
    requires
        msg.data.len() > 0,
        msg.msg_type == Some("update"@),
        b.last_sequence == Some(last),
        msg.sequence == Some(seq),
    ensures
        b.processed(msg).needs_resync == (b.needs_resync || seq != last + 1),
        b.processed(msg).last_sequence == Some(seq),
{
    reveal_strlit("snapshot");
    reveal_strlit("update");
    assert("snapshot"@.len() != "update"@.len());
}

/// A snapshot that holds asks starts the sequence anew and calls off a resync.
pub proof fn snapshot_calls_off_resync(b: BookView, msg: KrakenView)
    requires
        msg.data.len() > 0,
        msg.msg_type == Some("snapshot"@),
        levels_at(msg.data[0], "asks"@).len() > 0,
    ensures
        !b.processed(msg).needs_resync,
        b.processed(msg).last_sequence == msg.sequence,
{
}

/// A checksum tells whether the last one matched, whatever those before it
/// told, and changes nothing else.
pub proof fn mismatch_is_only_noted(b: BookView, checksum: i64)
    ensures
        b.verified(checksum).checksum_failed == !b.agrees(checksum),
        b.verified(checksum).depth == b.depth,
        b.verified(checksum).needs_resync == b.needs_resync,
        b.verified(checksum).last_sequence == b.last_sequence,
        b.verified(checksum).awaiting_snapshot == b.awaiting_snapshot,
{
}

} // verus!

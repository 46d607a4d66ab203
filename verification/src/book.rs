//! The two sides of an order book, and what is computed from them.

use crate::items::lob_view;
use crate::items::LobItem;
use crate::items::LobLevel;
use crate::items::LobView;
use crate::ladder::best_ask;
use crate::ladder::best_bid;
use crate::ladder::erase;
use crate::ladder::erase_is_local;
use crate::ladder::lemma_erase_ends;
use crate::ladder::lemma_upsert_lowest;
use crate::ladder::lemma_upsert_sizes;
use crate::ladder::prices_are_numbers;
use crate::ladder::size_at;
use crate::ladder::sorted;
use crate::ladder::upsert;
use crate::ladder::upsert_is_local;
use crate::ladder::Ladder;
use crate::num::answer;
use crate::num::arithmetic;
use crate::num::ask;
use crate::num::order_key;
use crate::num::FloatOp;
use crate::num::HUNDRED;
use crate::num::Num;
use crate::num::NumView;
use vstd::prelude::*;

verus! {

/// The best bid is at or above the best ask.
pub open spec fn crossed(bids: Seq<LobLevel>, asks: Seq<LobLevel>) -> bool {
    bids.len() > 0 && asks.len() > 0 && asks[0].price.at_most(bids.last().price)
}

/// A side of the book.
#[derive(Debug, Clone, Copy, PartialEq, Eq, Structural)]
pub enum Side {
    Bid,
    Ask,
}

/// What taking a message into a book gives cause to note.
#[derive(Debug)]
pub enum Note {
    /// A change was passed over, as its price would meet or pass the best
    /// price of the other side.
    Refused { side: Side, price: Num, best: Num },
    /// The book was crossed and has been cleared.
    Cleared { bid: Num, ask: Num },
    /// A sequence number is not the one after the last.
    OutOfSequence { last: u64, sequence: u64 },
    /// The exchange's checksum is not that of the book.
    Mismatch { computed: u32, checksum: i64 },
}

/// A note, or none, as a list.
pub open spec fn noted(n: Option<Note>) -> Seq<Note> {
    match n {
        Some(note) => seq![note],
        None => Seq::empty(),
    }
}

/// Adds a note, where there is one.
pub fn add_note(notes: &mut Vec<Note>, n: Option<Note>)
    ensures
        final(notes)@ == old(notes)@ + noted(n),
{
    match n {
        Some(note) => {
            notes.push(note);
        },
        None => {},
    }
    assert(notes@ =~= old(notes)@ + noted(n));
}

/// A side filled with levels one after the other, passing over those whose
/// size is not positive.
pub open spec fn filled(levels: Seq<LobLevel>) -> Seq<LobLevel>
    decreases levels.len(),
{
    if levels.len() == 0 {
        Seq::empty()
    } else {
        let before = filled(levels.drop_last());
        let level = levels.last();
        if level.size.positive() {
            upsert(before, level.price, level.size)
        } else {
            before
        }
    }
}

/// A side after one change: size zero removes the price, any other size is
/// put at it.
pub open spec fn changed(s: Seq<LobLevel>, level: LobLevel) -> Seq<LobLevel> {
    if level.size.zero() {
        erase(s, level.price.key())
    } else {
        upsert(s, level.price, level.size)
    }
}

impl DepthView {
    /// A book without levels.
    pub open spec fn empty() -> DepthView {
        DepthView { bids: Seq::empty(), asks: Seq::empty() }
    }

    /// Both sides are in order.
    pub open spec fn wf(self) -> bool {
        sorted(self.bids) && sorted(self.asks)
    }

    /// The best bid is at or above the best ask.
    pub open spec fn is_crossed(self) -> bool {
        crossed(self.bids, self.asks)
    }

    /// The book with a side filled anew.
    pub open spec fn replaced(self, side: Side, levels: Seq<LobLevel>) -> DepthView {
        match side {
            Side::Bid => DepthView { bids: filled(levels), asks: self.asks },
            Side::Ask => DepthView { bids: self.bids, asks: filled(levels) },
        }
    }

    /// The book after one change to a side.
    pub open spec fn stepped(self, side: Side, level: LobLevel) -> DepthView {
        match side {
            Side::Bid => DepthView { bids: changed(self.bids, level), asks: self.asks },
            Side::Ask => DepthView { bids: self.bids, asks: changed(self.asks, level) },
        }
    }

    /// The book after changes to a side, one after the other.
    pub open spec fn updated(self, side: Side, levels: Seq<LobLevel>) -> DepthView
        decreases levels.len(),
    {
        if levels.len() == 0 {
            self
        } else {
            self.updated(side, levels.drop_last()).stepped(side, levels.last())
        }
    }

    /// A level at this price would meet or pass the best of the other side.
    pub open spec fn crosses(self, side: Side, price: Num) -> bool {
        match side {
            Side::Bid => self.asks.len() > 0 && self.asks[0].price.at_most(price),
            Side::Ask => self.bids.len() > 0 && price.at_most(self.bids.last().price),
        }
    }

    /// The book after one change to a side, which is passed over if it would
    /// cross the book.
    pub open spec fn guarded_step(self, side: Side, level: LobLevel) -> DepthView {
        if !level.size.zero() && self.crosses(side, level.price) {
            self
        } else {
            self.stepped(side, level)
        }
    }

    /// The book after guarded changes to a side, one after the other.
    pub open spec fn guarded(self, side: Side, levels: Seq<LobLevel>) -> DepthView
        decreases levels.len(),
    {
        if levels.len() == 0 {
            self
        } else {
            self.guarded(side, levels.drop_last()).guarded_step(side, levels.last())
        }
    }

    /// The note on one guarded change to a side: that it is passed over.
    pub open spec fn refusal(self, side: Side, level: LobLevel) -> Option<Note> {
        if !level.size.zero() && self.crosses(side, level.price) {
            Some(
                Note::Refused {
                    side,
                    price: level.price,
                    best: match side {
                        Side::Bid => self.asks[0].price,
                        Side::Ask => self.bids.last().price,
                    },
                },
            )
        } else {
            None
        }
    }

    /// The notes on guarded changes to a side, one after the other.
    pub open spec fn refusals(self, side: Side, levels: Seq<LobLevel>) -> Seq<Note>
        decreases levels.len(),
    {
        if levels.len() == 0 {
            Seq::empty()
        } else {
            self.refusals(side, levels.drop_last()) + noted(
                self.guarded(side, levels.drop_last()).refusal(side, levels.last()),
            )
        }
    }

    /// The note on clearing a crossed book.
    pub open spec fn clearing(self) -> Option<Note> {
        if self.is_crossed() {
            Some(Note::Cleared { bid: self.bids.last().price, ask: self.asks[0].price })
        } else {
            None
        }
    }

    /// The book, or an empty one in place of a crossed one.
    pub open spec fn repaired(self) -> DepthView {
        if self.is_crossed() {
            DepthView::empty()
        } else {
            self
        }
    }
}

/// The first `n` levels, or all where there are fewer.
pub open spec fn first_levels(s: Seq<LobLevel>, n: int) -> Seq<LobLevel> {
    if n < s.len() {
        s.take(n)
    } else {
        s
    }
}

/// The last `n` levels, or all where there are fewer.
pub open spec fn last_levels(s: Seq<LobLevel>, n: int) -> Seq<LobLevel> {
    if n < s.len() {
        s.skip(s.len() - n)
    } else {
        s
    }
}

/// The bids with the best first.
pub open spec fn best_first(bids: Seq<LobLevel>) -> Seq<LobLevel> {
    bids.reverse()
}

/// The percentage asks for a price filter: neither 0, nor 100 or more, nor NaN.
pub open spec fn filters(pct: Num) -> bool {
    !pct.zero() && !pct.nan() && pct.key() < order_key(HUNDRED)
}

/// A bid is worth emitting: it has a size, and is not below the floor.
pub open spec fn bid_kept(level: LobLevel, floor: Option<Num>) -> bool {
    !level.size.zero() && !(floor matches Some(f) && level.price.below(f))
}

/// An ask is worth emitting: it has a size, and is not above the ceiling.
pub open spec fn ask_kept(level: LobLevel, ceiling: Option<Num>) -> bool {
    !level.size.zero() && !(ceiling matches Some(c) && c.below(level.price))
}

/// The bids to emit: those kept, and of them the best `max`.
pub open spec fn emitted_bids(
    bids: Seq<LobLevel>,
    floor: Option<Num>,
    max: Option<usize>,
) -> Seq<LobLevel> {
    let kept = bids.filter(|l: LobLevel| bid_kept(l, floor));
    match max {
        Some(n) => last_levels(kept, n as int),
        None => kept,
    }
}

/// The asks to emit: those kept, and of them the best `max`.
pub open spec fn emitted_asks(
    asks: Seq<LobLevel>,
    ceiling: Option<Num>,
    max: Option<usize>,
) -> Seq<LobLevel> {
    let kept = asks.filter(|l: LobLevel| ask_kept(l, ceiling));
    match max {
        Some(n) => first_levels(kept, n as int),
        None => kept,
    }
}

/// What the price filter is, given the percentage and the best price.
pub open spec fn threshold<A: Fn(FloatOp, Num, Num) -> Num>(
    unit: A,
    op: FloatOp,
    best: Option<Num>,
    pct: Num,
) -> Option<Num> {
    match best {
        Some(b) => if filters(pct) {
            Some(answer(unit, op, b, pct))
        } else {
            None
        },
        None => None,
    }
}

/// The item that a book is emitted as; `None` where a side has no level, or
/// none that is kept.
pub open spec fn lob_item(
    bids: Seq<LobLevel>,
    asks: Seq<LobLevel>,
    ts: u64,
    exchange: Seq<char>,
    max: Option<usize>,
    floor: Option<Num>,
    ceiling: Option<Num>,
) -> Option<LobView> {
    let b = emitted_bids(bids, floor, max);
    let a = emitted_asks(asks, ceiling, max);
    if b.len() == 0 || a.len() == 0 {
        None
    } else {
        Some(LobView { ts, exchange, bids: b, asks: a })
    }
}

/// The sum of the sizes, added one after the other; `None` for no level.
pub open spec fn total<A: Fn(FloatOp, Num, Num) -> Num>(unit: A, s: Seq<LobLevel>) -> Option<Num>
    decreases s.len(),
{
    if s.len() == 0 {
        None
    } else {
        match total(unit, s.drop_last()) {
            None => Some(s.last().size),
            Some(t) => Some(answer(unit, FloatOp::Sum, t, s.last().size)),
        }
    }
}

/// The levels that a list keeps under a price bound of its own.
fn keep_bids(levels: &Vec<LobLevel>, floor: &Option<Num>) -> (r: Vec<LobLevel>)
    ensures
        r@ == levels@.filter(|l: LobLevel| bid_kept(l, *floor)),
{
    let ghost keep = |l: LobLevel| bid_kept(l, *floor);
    let mut out: Vec<LobLevel> = Vec::new();
    let mut i: usize = 0;
    proof {
        reveal(Seq::filter);
        assert(levels@.take(0) =~= Seq::<LobLevel>::empty());
    }
    while i < levels.len()
        invariant
            i <= levels.len(),
            keep == (|l: LobLevel| bid_kept(l, *floor)),
            out@ == levels@.take(i as int).filter(keep),
        decreases levels.len() - i,
    {
        proof {
            reveal(Seq::filter);
            assert(levels@.take(i + 1).drop_last() =~= levels@.take(i as int));
        }
        let level: &LobLevel = &levels[i];
        let low: bool = match floor {
            Some(f) => level.price.lt(f),
            None => false,
        };
        if !level.size.is_zero() && !low {
            out.push(level.clone());
        }
        i += 1;
    }
    assert(levels@.take(levels@.len() as int) =~= levels@);
    out
}

fn keep_asks(levels: &Vec<LobLevel>, ceiling: &Option<Num>) -> (r: Vec<LobLevel>)
    ensures
        r@ == levels@.filter(|l: LobLevel| ask_kept(l, *ceiling)),
{
    let ghost keep = |l: LobLevel| ask_kept(l, *ceiling);
    let mut out: Vec<LobLevel> = Vec::new();
    let mut i: usize = 0;
    proof {
        reveal(Seq::filter);
        assert(levels@.take(0) =~= Seq::<LobLevel>::empty());
    }
    while i < levels.len()
        invariant
            i <= levels.len(),
            keep == (|l: LobLevel| ask_kept(l, *ceiling)),
            out@ == levels@.take(i as int).filter(keep),
        decreases levels.len() - i,
    {
        proof {
            reveal(Seq::filter);
            assert(levels@.take(i + 1).drop_last() =~= levels@.take(i as int));
        }
        let level: &LobLevel = &levels[i];
        let high: bool = match ceiling {
            Some(c) => c.lt(&level.price),
            None => false,
        };
        if !level.size.is_zero() && !high {
            out.push(level.clone());
        }
        i += 1;
    }
    assert(levels@.take(levels@.len() as int) =~= levels@);
    out
}

/// A copy of the levels from one index up to another.
fn copy_range(levels: &Vec<LobLevel>, from: usize, to: usize) -> (r: Vec<LobLevel>)
    requires
        from <= to <= levels@.len(),
    ensures
        r@ == levels@.subrange(from as int, to as int),
{
    let mut out: Vec<LobLevel> = Vec::new();
    let mut i: usize = from;
    while i < to
        invariant
            from <= i <= to <= levels@.len(),
            out@ == levels@.subrange(from as int, i as int),
        decreases to - i,
    {
        out.push(levels[i].clone());
        assert(out@ =~= levels@.subrange(from as int, i + 1));
        i += 1;
    }
    out
}

/// The two sides of an order book.
#[derive(Debug, Clone)]
pub struct Depth {
    pub bids: Ladder,
    pub asks: Ladder,
}

/// The mathematical content of a [`Depth`].
#[verifier::ext_equal]
pub struct DepthView {
    pub bids: Seq<LobLevel>,
    pub asks: Seq<LobLevel>,
}

impl View for Depth {
    type V = DepthView;

    open spec fn view(&self) -> DepthView {
        DepthView { bids: self.bids@, asks: self.asks@ }
    }
}

impl Depth {
    /// Both sides are in order.
    pub open spec fn wf(self) -> bool {
        self@.wf()
    }

    /// A book without levels.
    pub fn new() -> (r: Depth)
        ensures
            r.wf(),
            r@ == DepthView::empty(),
    {
        Depth { bids: Ladder::new(), asks: Ladder::new() }
    }

    /// Removes every level.
    pub fn clear(&mut self)
        ensures
            final(self).wf(),
            final(self)@ == DepthView::empty(),
    {
        self.bids.clear();
        self.asks.clear();
    }

    /// Replaces a side by the levels that have a positive size.
    pub fn replace_side(&mut self, side: Side, levels: &Vec<LobLevel>)
        requires
            old(self).wf(),
        ensures
            final(self).wf(),
            final(self)@ == old(self)@.replaced(side, levels@),
    {
        let mut fresh: Ladder = Ladder::new();
        let mut i: usize = 0;
        assert(levels@.take(0) =~= Seq::<LobLevel>::empty());
        while i < levels.len()
            invariant
                i <= levels.len(),
                fresh.wf(),
                fresh@ == filled(levels@.take(i as int)),
            decreases levels.len() - i,
        {
            assert(levels@.take(i + 1).drop_last() =~= levels@.take(i as int));
            if levels[i].size.is_positive() {
                fresh.insert(&levels[i].price, &levels[i].size);
            }
            i += 1;
        }
        assert(levels@.take(levels@.len() as int) =~= levels@);
        match side {
            Side::Bid => {
                self.bids = fresh;
            },
            Side::Ask => {
                self.asks = fresh;
            },
        }
    }

    /// Removes a price, or puts a size at it, whatever the other side holds.
    pub fn set_level(&mut self, side: Side, price: &Num, size: &Num)
        requires
            old(self).wf(),
        ensures
            final(self).wf(),
            final(self)@ == old(self)@.stepped(side, LobLevel { price: *price, size: *size }),
    {
        match side {
            Side::Bid => {
                if size.is_zero() {
                    self.bids.remove(price);
                } else {
                    self.bids.insert(price, size);
                }
            },
            Side::Ask => {
                if size.is_zero() {
                    self.asks.remove(price);
                } else {
                    self.asks.insert(price, size);
                }
            },
        }
    }

    /// Applies changes one after the other.
    pub fn update(&mut self, side: Side, levels: &Vec<LobLevel>)
        requires
            old(self).wf(),
        ensures
            final(self).wf(),
            final(self)@ == old(self)@.updated(side, levels@),
    {
        let mut i: usize = 0;
        assert(levels@.take(0) =~= Seq::<LobLevel>::empty());
        while i < levels.len()
            invariant
                i <= levels.len(),
                self.wf(),
                self@ == old(self)@.updated(side, levels@.take(i as int)),
            decreases levels.len() - i,
        {
            assert(levels@.take(i + 1).drop_last() =~= levels@.take(i as int));
            self.set_level(side, &levels[i].price, &levels[i].size);
            i += 1;
        }
        assert(levels@.take(levels@.len() as int) =~= levels@);
    }

    /// The best price of the other side, where putting a level at this price
    /// would cross the book.
    fn met(&self, side: Side, price: &Num) -> (r: Option<Num>)
        ensures
            r is Some <==> self@.crosses(side, *price),
            r matches Some(best) ==> best == (match side {
                Side::Bid => self@.asks[0].price,
                Side::Ask => self@.bids.last().price,
            }),
    {
        match side {
            Side::Bid => match self.asks.lowest() {
                Some(a) => if a.le(price) {
                    Some(a)
                } else {
                    None
                },
                None => None,
            },
            Side::Ask => match self.bids.highest() {
                Some(b) => if price.le(&b) {
                    Some(b)
                } else {
                    None
                },
                None => None,
            },
        }
    }

    /// Whether putting a level at this price would cross the book.
    pub fn would_cross(&self, side: Side, price: &Num) -> (r: bool)
        ensures
            r == self@.crosses(side, *price),
    {
        self.met(side, price).is_some()
    }

    /// Applies changes one after the other, passing over each that would
    /// cross the book. The notes tell which were passed over.
    pub fn update_guarded(&mut self, side: Side, levels: &Vec<LobLevel>) -> (r: Vec<Note>)
        requires
            old(self).wf(),
        ensures
            final(self).wf(),
            final(self)@ == old(self)@.guarded(side, levels@),
            r@ == old(self)@.refusals(side, levels@),
    {
        let mut notes: Vec<Note> = Vec::new();
        let mut i: usize = 0;
        assert(levels@.take(0) =~= Seq::<LobLevel>::empty());
        while i < levels.len()
            invariant
                i <= levels.len(),
                self.wf(),
                self@ == old(self)@.guarded(side, levels@.take(i as int)),
                notes@ == old(self)@.refusals(side, levels@.take(i as int)),
            decreases levels.len() - i,
        {
            assert(levels@.take(i + 1).drop_last() =~= levels@.take(i as int));
            let best: Option<Num> = if levels[i].size.is_zero() {
                None
            } else {
                self.met(side, &levels[i].price)
            };
            match best {
                Some(best) => {
                    add_note(
                        &mut notes,
                        Some(Note::Refused { side, price: levels[i].price.clone(), best }),
                    );
                },
                None => {
                    assert(notes@ =~= notes@ + noted(None));
                    self.set_level(side, &levels[i].price, &levels[i].size);
                },
            }
            i += 1;
        }
        assert(levels@.take(levels@.len() as int) =~= levels@);
        notes
    }

    /// Clears a crossed book, and says so.
    pub fn repair(&mut self) -> (r: Option<Note>)
        requires
            old(self).wf(),
        ensures
            final(self).wf(),
            r == old(self)@.clearing(),
            final(self)@ == old(self)@.repaired(),
    {
        match (self.bids.highest(), self.asks.lowest()) {
            (Some(bid), Some(ask)) => if ask.le(&bid) {
                self.clear();
                Some(Note::Cleared { bid, ask })
            } else {
                None
            },
            _ => None,
        }
    }

    /// The best ask less the best bid, where both sides have a level.
    pub fn spread<A: Fn(FloatOp, Num, Num) -> Num>(&self, unit: &A) -> (r: Option<Num>)
        requires
            arithmetic(*unit),
        ensures
            r == spread(*unit, self.bids@, self.asks@),
    {
        match (self.asks.lowest(), self.bids.highest()) {
            (Some(a), Some(b)) => Some(ask(unit, FloatOp::Difference, &a, &b)),
            _ => None,
        }
    }

    /// The best `n` bids, the best first.
    pub fn top_bids(&self, n: usize) -> (r: Vec<LobLevel>)
        ensures
            r@ == first_levels(best_first(self.bids@), n as int),
    {
        let len: usize = self.bids.len();
        let count: usize = if n < len { n } else { len };
        let mut out: Vec<LobLevel> = Vec::new();
        let mut i: usize = 0;
        while i < count
            invariant
                i <= count <= len == self.bids@.len(),
                out@ == best_first(self.bids@).take(i as int),
            decreases count - i,
        {
            out.push(self.bids.levels()[len - 1 - i].clone());
            assert(out@ =~= best_first(self.bids@).take(i + 1));
            i += 1;
        }
        assert(best_first(self.bids@).take(len as int) =~= best_first(self.bids@));
        out
    }

    /// The best `n` asks, the best first.
    pub fn top_asks(&self, n: usize) -> (r: Vec<LobLevel>)
        ensures
            r@ == first_levels(self.asks@, n as int),
    {
        let len: usize = self.asks.len();
        let count: usize = if n < len { n } else { len };
        assert(self.asks@.subrange(0, count as int) =~= first_levels(self.asks@, n as int));
        copy_range(self.asks.levels(), 0, count)
    }

    /// The bids, the best first, that are not below the best by more than
    /// `pct` per cent, and the asks that are not above it by more.
    pub fn levels_within_pct<A: Fn(FloatOp, Num, Num) -> Num>(&self, pct: &Num, unit: &A) -> (r: (
        Vec<LobLevel>,
        Vec<LobLevel>,
    ))
        requires
            arithmetic(*unit),
        ensures
            r.0@ == bids_within(*unit, self.bids@, *pct),
            r.1@ == asks_within(*unit, self.asks@, *pct),
    {
        let bids: Vec<LobLevel> = self.top_bids(self.bids.len());
        let mut near_bids: Vec<LobLevel> = Vec::new();
        match self.bids.highest() {
            Some(best) => {
                let floor: Num = ask(unit, FloatOp::PercentBelow, &best, pct);
                let ghost keep = |l: LobLevel| floor.at_most(l.price);
                let mut i: usize = 0;
                proof {
                    reveal(Seq::filter);
                    assert(bids@.take(0) =~= Seq::<LobLevel>::empty());
                }
                while i < bids.len()
                    invariant
                        i <= bids.len(),
                        keep == (|l: LobLevel| floor.at_most(l.price)),
                        near_bids@ == bids@.take(i as int).filter(keep),
                    decreases bids.len() - i,
                {
                    proof {
                        reveal(Seq::filter);
                        assert(bids@.take(i + 1).drop_last() =~= bids@.take(i as int));
                    }
                    if floor.le(&bids[i].price) {
                        near_bids.push(bids[i].clone());
                    }
                    i += 1;
                }
                assert(bids@.take(bids@.len() as int) =~= bids@);
            },
            None => {},
        }
        let mut near_asks: Vec<LobLevel> = Vec::new();
        match self.asks.lowest() {
            Some(best) => {
                let ceiling: Num = ask(unit, FloatOp::PercentAbove, &best, pct);
                let ghost keep = |l: LobLevel| l.price.at_most(ceiling);
                let asks: &Vec<LobLevel> = self.asks.levels();
                let mut i: usize = 0;
                proof {
                    reveal(Seq::filter);
                    assert(asks@.take(0) =~= Seq::<LobLevel>::empty());
                }
                while i < asks.len()
                    invariant
                        i <= asks.len(),
                        keep == (|l: LobLevel| l.price.at_most(ceiling)),
                        near_asks@ == asks@.take(i as int).filter(keep),
                    decreases asks.len() - i,
                {
                    proof {
                        reveal(Seq::filter);
                        assert(asks@.take(i + 1).drop_last() =~= asks@.take(i as int));
                    }
                    if asks[i].price.le(&ceiling) {
                        near_asks.push(asks[i].clone());
                    }
                    i += 1;
                }
                assert(asks@.take(asks@.len() as int) =~= asks@);
            },
            None => {},
        }
        (near_bids, near_asks)
    }

    /// The book as an item, with the filters applied. Bids and asks are in
    /// ascending order, so that the best bid is last and the best ask first.
    pub fn to_lob_item<A: Fn(FloatOp, Num, Num) -> Num>(
        &self,
        ts: u64,
        exchange: &str,
        max_level: Option<usize>,
        max_level_pct: &Num,
        unit: &A,
    ) -> (r: Option<LobItem>)
        requires
            arithmetic(*unit),
        ensures
            lob_view(r) == filtered_item(
                *unit,
                self.bids@,
                self.asks@,
                ts,
                exchange@,
                max_level,
                *max_level_pct,
            ),
    {
        if self.bids.is_empty() || self.asks.is_empty() {
            proof {
                reveal(Seq::filter);
            }
            return None;
        }
        let floor: Option<Num> = threshold_of(
            unit,
            FloatOp::PercentBelow,
            &self.bids.highest(),
            max_level_pct,
        );
        let ceiling: Option<Num> = threshold_of(
            unit,
            FloatOp::PercentAbove,
            &self.asks.lowest(),
            max_level_pct,
        );
        let mut bids: Vec<LobLevel> = keep_bids(self.bids.levels(), &floor);
        let mut asks: Vec<LobLevel> = keep_asks(self.asks.levels(), &ceiling);
        match max_level {
            Some(max) => {
                if bids.len() > max {
                    assert(bids@.subrange(bids@.len() - max, bids@.len() as int) =~= bids@.skip(
                        bids@.len() - max,
                    ));
                    bids = copy_range(&bids, bids.len() - max, bids.len());
                }
                if asks.len() > max {
                    asks.truncate(max);
                }
            },
            None => {},
        }
        if bids.len() == 0 || asks.len() == 0 {
            return None;
        }
        Some(LobItem { ts, exchange: exchange.to_owned(), bids, asks })
    }
}

/// The best ask less the best bid, where both sides have a level.
pub open spec fn spread<A: Fn(FloatOp, Num, Num) -> Num>(
    unit: A,
    bids: Seq<LobLevel>,
    asks: Seq<LobLevel>,
) -> Option<Num> {
    if bids.len() == 0 || asks.len() == 0 {
        None
    } else {
        Some(answer(unit, FloatOp::Difference, asks[0].price, bids.last().price))
    }
}

/// The bids, the best first, at or above the price `pct` per cent below the best.
pub open spec fn bids_within<A: Fn(FloatOp, Num, Num) -> Num>(
    unit: A,
    bids: Seq<LobLevel>,
    pct: Num,
) -> Seq<LobLevel> {
    if bids.len() == 0 {
        Seq::empty()
    } else {
        let floor = answer(unit, FloatOp::PercentBelow, bids.last().price, pct);
        best_first(bids).filter(|l: LobLevel| floor.at_most(l.price))
    }
}

/// The asks at or below the price `pct` per cent above the best.
pub open spec fn asks_within<A: Fn(FloatOp, Num, Num) -> Num>(
    unit: A,
    asks: Seq<LobLevel>,
    pct: Num,
) -> Seq<LobLevel> {
    if asks.len() == 0 {
        Seq::empty()
    } else {
        let ceiling = answer(unit, FloatOp::PercentAbove, asks[0].price, pct);
        asks.filter(|l: LobLevel| l.price.at_most(ceiling))
    }
}

/// The item that a book is emitted as under the configured filters.
pub open spec fn filtered_item<A: Fn(FloatOp, Num, Num) -> Num>(
    unit: A,
    bids: Seq<LobLevel>,
    asks: Seq<LobLevel>,
    ts: u64,
    exchange: Seq<char>,
    max_level: Option<usize>,
    max_level_pct: Num,
) -> Option<LobView> {
    lob_item(
        bids,
        asks,
        ts,
        exchange,
        max_level,
        threshold(unit, FloatOp::PercentBelow, best_bid(bids), max_level_pct),
        threshold(unit, FloatOp::PercentAbove, best_ask(asks), max_level_pct),
    )
}

/// The item that a book is emitted as without filters: every level that has
/// a size.
pub open spec fn full_item(d: DepthView, ts: u64, exchange: Seq<char>) -> Option<LobView> {
    lob_item(d.bids, d.asks, ts, exchange, None, None, None)
}

fn threshold_of<A: Fn(FloatOp, Num, Num) -> Num>(
    unit: &A,
    op: FloatOp,
    best: &Option<Num>,
    pct: &Num,
) -> (r: Option<Num>)
    requires
        arithmetic(*unit),
    ensures
        r == threshold(*unit, op, *best, *pct),
{
    let hundred: Num = Num::new(HUNDRED, String::new());
    match best {
        Some(b) => if !pct.is_zero() && pct.lt(&hundred) {
            Some(ask(unit, op, b, pct))
        } else {
            None
        },
        None => None,
    }
}

/// Adds up sizes one after the other.
pub fn total_size<A: Fn(FloatOp, Num, Num) -> Num>(levels: &Vec<LobLevel>, unit: &A) -> (r: Num)
    requires
        arithmetic(*unit),
    ensures
        match total(*unit, levels@) {
            Some(t) => r == t,
            None => r@ == (NumView { bits: 0, text: "0"@ }),
        },
{
    let mut sum: Option<Num> = None;
    let mut i: usize = 0;
    assert(levels@.take(0) =~= Seq::<LobLevel>::empty());
    while i < levels.len()
        invariant
            i <= levels.len(),
            arithmetic(*unit),
            sum == total(*unit, levels@.take(i as int)),
        decreases levels.len() - i,
    {
        assert(levels@.take(i + 1).drop_last() =~= levels@.take(i as int));
        sum = match sum {
            None => Some(levels[i].size.clone()),
            Some(t) => Some(ask(unit, FloatOp::Sum, &t, &levels[i].size)),
        };
        i += 1;
    }
    assert(levels@.take(levels@.len() as int) =~= levels@);
    match sum {
        Some(t) => t,
        None => Num::zero_value(),
    }
}

/// Guarded changes keep both sides in order.
pub proof fn guarded_keeps_order(d: DepthView, side: Side, levels: Seq<LobLevel>)
    requires
        d.wf(),
    ensures
        d.guarded(side, levels).wf(),
    decreases levels.len(),
{
    if levels.len() > 0 {
        guarded_keeps_order(d, side, levels.drop_last());
        let m = d.guarded(side, levels.drop_last());
        let level = levels.last();
        upsert_is_local(m.bids, level.price, level.size);
        upsert_is_local(m.asks, level.price, level.size);
        erase_is_local(m.bids, level.price.key());
        erase_is_local(m.asks, level.price.key());
    }
}

/// Changes keep both sides in order.
pub proof fn updated_keeps_order(d: DepthView, side: Side, levels: Seq<LobLevel>)
    requires
        d.wf(),
    ensures
        d.updated(side, levels).wf(),
    decreases levels.len(),
{
    if levels.len() > 0 {
        updated_keeps_order(d, side, levels.drop_last());
        let m = d.updated(side, levels.drop_last());
        let level = levels.last();
        upsert_is_local(m.bids, level.price, level.size);
        upsert_is_local(m.asks, level.price, level.size);
        erase_is_local(m.bids, level.price.key());
        erase_is_local(m.asks, level.price.key());
    }
}

/// Guarded changes never cross a book that is not crossed, as long as the
/// prices that they name are numbers: clearing is not needed after them.
pub proof fn guard_keeps_uncrossed(d: DepthView, side: Side, levels: Seq<LobLevel>)
    requires
        d.wf(),
        !d.is_crossed(),
        prices_are_numbers(levels),
    ensures
        d.guarded(side, levels).wf(),
        !d.guarded(side, levels).is_crossed(),
        d.guarded(side, levels).repaired() == d.guarded(side, levels),
    decreases levels.len(),
{
    if levels.len() > 0 {
        let before = levels.drop_last();
        let level = levels.last();
        assert(prices_are_numbers(before)) by {
            assert forall|i: int| 0 <= i < before.len() implies !(
            #[trigger] before[i]).price.nan() by {
                assert(before[i] == levels[i]);
            }
        }
        assert(!levels[levels.len() - 1].price.nan());
        guard_keeps_uncrossed(d, side, before);
        let m = d.guarded(side, before);
        upsert_is_local(m.bids, level.price, level.size);
        upsert_is_local(m.asks, level.price, level.size);
        erase_is_local(m.bids, level.price.key());
        erase_is_local(m.asks, level.price.key());
        lemma_upsert_lowest(m.bids, level.price, level.size);
        lemma_upsert_lowest(m.asks, level.price, level.size);
        lemma_erase_ends(m.bids, level.price.key());
        lemma_erase_ends(m.asks, level.price.key());
    }
}

/// A price is named by none of the levels.
pub open spec fn unnamed(levels: Seq<LobLevel>, key: int) -> bool {
    forall|i: int| 0 <= i < levels.len() ==> (#[trigger] levels[i]).price.key() != key
}

/// The last of the levels that names a price has size zero.
pub open spec fn taken_away(levels: Seq<LobLevel>, key: int) -> bool
    decreases levels.len(),
{
    levels.len() > 0 && if levels.last().price.key() == key {
        levels.last().size.zero()
    } else {
        taken_away(levels.drop_last(), key)
    }
}

/// Guarded changes to the bids leave the asks as they are, keep the size at
/// every price that they do not name, and leave nothing at a price that they
/// name last with size zero.
pub proof fn guarded_bids_are_local(d: DepthView, levels: Seq<LobLevel>)
    requires
        d.wf(),
    ensures
        d.guarded(Side::Bid, levels).asks == d.asks,
        forall|key: int|
            unnamed(levels, key) ==> #[trigger] size_at(d.guarded(Side::Bid, levels).bids, key)
                == size_at(d.bids, key),
        forall|key: int|
            taken_away(levels, key) ==> #[trigger] size_at(
                d.guarded(Side::Bid, levels).bids,
                key,
            ) is None,
    decreases levels.len(),
{
    if levels.len() > 0 {
        let before = levels.drop_last();
        let level = levels.last();
        guarded_bids_are_local(d, before);
        guarded_keeps_order(d, Side::Bid, before);
        let m = d.guarded(Side::Bid, before);
        upsert_is_local(m.bids, level.price, level.size);
        erase_is_local(m.bids, level.price.key());
        let after = d.guarded(Side::Bid, levels);
        assert forall|key: int| unnamed(levels, key) implies #[trigger] size_at(after.bids, key)
            == size_at(d.bids, key) by {
            lemma_unnamed(levels, key);
            assert(size_at(m.bids, key) == size_at(d.bids, key));
        }
        assert forall|key: int| taken_away(levels, key) implies #[trigger] size_at(
            after.bids,
            key,
        ) is None by {
            if level.price.key() != key {
                assert(size_at(m.bids, key) is None);
            }
        }
    }
}

/// Guarded changes to the asks leave the bids as they are, keep the size at
/// every price that they do not name, and leave nothing at a price that they
/// name last with size zero.
pub proof fn guarded_asks_are_local(d: DepthView, levels: Seq<LobLevel>)
    requires
        d.wf(),
    ensures
        d.guarded(Side::Ask, levels).bids == d.bids,
        forall|key: int|
            unnamed(levels, key) ==> #[trigger] size_at(d.guarded(Side::Ask, levels).asks, key)
                == size_at(d.asks, key),
        forall|key: int|
            taken_away(levels, key) ==> #[trigger] size_at(
                d.guarded(Side::Ask, levels).asks,
                key,
            ) is None,
    decreases levels.len(),
{
    if levels.len() > 0 {
        let before = levels.drop_last();
        let level = levels.last();
        guarded_asks_are_local(d, before);
        guarded_keeps_order(d, Side::Ask, before);
        let m = d.guarded(Side::Ask, before);
        upsert_is_local(m.asks, level.price, level.size);
        erase_is_local(m.asks, level.price.key());
        let after = d.guarded(Side::Ask, levels);
        assert forall|key: int| unnamed(levels, key) implies #[trigger] size_at(after.asks, key)
            == size_at(d.asks, key) by {
            lemma_unnamed(levels, key);
            assert(size_at(m.asks, key) == size_at(d.asks, key));
        }
        assert forall|key: int| taken_away(levels, key) implies #[trigger] size_at(
            after.asks,
            key,
        ) is None by {
            if level.price.key() != key {
                assert(size_at(m.asks, key) is None);
            }
        }
    }
}

proof fn lemma_unnamed(levels: Seq<LobLevel>, key: int)
    requires
        levels.len() > 0,
        unnamed(levels, key),
    ensures
        unnamed(levels.drop_last(), key),
        levels.last().price.key() != key,
{
    let before = levels.drop_last();
    assert(levels[levels.len() - 1].price.key() != key);
    assert forall|i: int| 0 <= i < before.len() implies (#[trigger] before[i]).price.key()
        != key by {
        assert(before[i] == levels[i]);
    }
}

/// Filling a side gives levels in order, each of positive size.
pub proof fn filled_is_ordered(levels: Seq<LobLevel>)
    ensures
        sorted(filled(levels)),
        forall|i: int| 0 <= i < filled(levels).len() ==> (#[trigger] filled(levels)[i]).size.positive(),
    decreases levels.len(),
{
    if levels.len() > 0 {
        let t = levels.drop_last();
        let level = levels.last();
        filled_is_ordered(t);
        upsert_is_local(filled(t), level.price, level.size);
        if level.size.positive() {
            lemma_upsert_sizes(filled(t), level.price, level.size);
        }
    }
}

/// The total of one level is its size, and a further level adds its own.
pub proof fn total_adds_each_size<A: Fn(FloatOp, Num, Num) -> Num>(
    unit: A,
    s: Seq<LobLevel>,
    level: LobLevel,
)
    ensures
        total(unit, Seq::<LobLevel>::empty()) is None,
        total(unit, seq![level]) == Some(level.size),
        s.len() > 0 ==> total(unit, s) is Some && total(unit, s.push(level)) == Some(
            answer(unit, FloatOp::Sum, total(unit, s)->0, level.size),
        ),
    decreases s.len(),
{
    assert(seq![level].drop_last() =~= Seq::<LobLevel>::empty());
    assert(total(unit, seq![level].drop_last()) is None);
    assert(s.push(level).drop_last() =~= s);
    assert(s.push(level).last() == level);
    if s.len() > 0 {
        total_adds_each_size(unit, s.drop_last(), level);
    }
}

/// The spread is the lowest ask less the highest bid, and there is one
/// exactly where both sides have a level.
pub proof fn spread_lies_between_the_best<A: Fn(FloatOp, Num, Num) -> Num>(
    unit: A,
    d: DepthView,
    bid: int,
    ask: int,
)
    requires
        d.wf(),
    ensures
        spread(unit, d.bids, d.asks) is Some <==> d.bids.len() > 0 && d.asks.len() > 0,
        0 <= bid < d.bids.len() && 0 <= ask < d.asks.len() && (forall|i: int|
            0 <= i < d.bids.len() ==> (#[trigger] d.bids[i]).price.key() <= d.bids[bid].price.key())
            && (forall|i: int|
            0 <= i < d.asks.len() ==> d.asks[ask].price.key() <= (#[trigger] d.asks[i]).price.key())
            ==> spread(unit, d.bids, d.asks) == Some(
            answer(unit, FloatOp::Difference, d.asks[ask].price, d.bids[bid].price),
        ),
{
    if 0 <= bid < d.bids.len() && 0 <= ask < d.asks.len() && (forall|i: int|
        0 <= i < d.bids.len() ==> (#[trigger] d.bids[i]).price.key() <= d.bids[bid].price.key())
        && (forall|i: int|
        0 <= i < d.asks.len() ==> d.asks[ask].price.key() <= (#[trigger] d.asks[i]).price.key()) {
        assert(d.bids[d.bids.len() - 1].price.key() <= d.bids[bid].price.key());
        assert(bid == d.bids.len() - 1);
        assert(d.asks[ask].price.key() <= d.asks[0].price.key());
        assert(ask == 0);
    }
}

/// Whether levels are in descending order of price.
pub open spec fn falling(s: Seq<LobLevel>) -> bool {
    forall|i: int, j: int|
        0 <= i < j < s.len() ==> (#[trigger] s[i]).price.key() > (#[trigger] s[j]).price.key()
}

proof fn lemma_filtered(s: Seq<LobLevel>, keep: spec_fn(LobLevel) -> bool)
    ensures
        falling(s) ==> falling(s.filter(keep)),
        sorted(s) ==> sorted(s.filter(keep)),
        forall|l: LobLevel| #[trigger] s.filter(keep).contains(l) <==> s.contains(l) && keep(l),
    decreases s.len(),
{
    reveal(Seq::filter);
    if s.len() > 0 {
        let t = s.drop_last();
        let f = s.filter(keep);
        let g = t.filter(keep);
        lemma_filtered(t, keep);
        assert forall|l: LobLevel| #[trigger] f.contains(l) <==> s.contains(l) && keep(l) by {
            if f.contains(l) {
                let k = choose|k: int| 0 <= k < f.len() && f[k] == l;
                if k < g.len() {
                    assert(g[k] == l);
                    assert(g.contains(l));
                    let m = choose|m: int| 0 <= m < t.len() && t[m] == l;
                    assert(s[m] == l);
                } else {
                    assert(s[s.len() - 1] == l);
                }
            }
            if s.contains(l) && keep(l) {
                let m = choose|m: int| 0 <= m < s.len() && s[m] == l;
                if m < t.len() {
                    assert(t[m] == l);
                    assert(g.contains(l));
                    let k = choose|k: int| 0 <= k < g.len() && g[k] == l;
                    assert(f[k] == l);
                } else {
                    assert(f[f.len() - 1] == l);
                }
            }
        }
        if keep(s.last()) {
            assert forall|i: int| 0 <= i < g.len() implies t.contains(#[trigger] g[i]) by {
                assert(g.contains(g[i]));
            }
            assert forall|i: int, j: int| 0 <= i < j < f.len() implies ((falling(s) ==> (
            #[trigger] f[i]).price.key() > (#[trigger] f[j]).price.key()) && (sorted(s)
                ==> f[i].price.key() < f[j].price.key())) by {
                assert(f[i] == g[i]);
                if j == f.len() - 1 {
                    let k = choose|k: int| 0 <= k < t.len() && t[k] == g[i];
                    assert(s[k] == g[i]);
                    assert(s[s.len() - 1] == f[j]);
                } else {
                    assert(f[j] == g[j]);
                }
            }
        }
    }
}

/// The bids within a percentage are those at or above the price that lies the
/// percentage below the highest bid, from the highest down; the asks within it
/// are those at or below the price that lies the percentage above the lowest
/// ask, from the lowest up.
pub proof fn within_means_no_further_off<A: Fn(FloatOp, Num, Num) -> Num>(
    unit: A,
    d: DepthView,
    pct: Num,
)
    requires
        d.wf(),
    ensures
        falling(bids_within(unit, d.bids, pct)),
        sorted(asks_within(unit, d.asks, pct)),
        forall|l: LobLevel| #[trigger]
            bids_within(unit, d.bids, pct).contains(l) <==> d.bids.contains(l) && answer(
                unit,
                FloatOp::PercentBelow,
                d.bids.last().price,
                pct,
            ).at_most(l.price),
        forall|l: LobLevel| #[trigger]
            asks_within(unit, d.asks, pct).contains(l) <==> d.asks.contains(l) && l.price.at_most(
                answer(unit, FloatOp::PercentAbove, d.asks[0].price, pct),
            ),
{
    if d.bids.len() > 0 {
        let floor = answer(unit, FloatOp::PercentBelow, d.bids.last().price, pct);
        let r = best_first(d.bids);
        assert(falling(r)) by {
            assert forall|i: int, j: int| 0 <= i < j < r.len() implies (
            #[trigger] r[i]).price.key() > (#[trigger] r[j]).price.key() by {
                assert(r[i] == d.bids[d.bids.len() - 1 - i]);
                assert(r[j] == d.bids[d.bids.len() - 1 - j]);
            }
        }
        assert forall|l: LobLevel| #[trigger] r.contains(l) == d.bids.contains(l) by {
            if r.contains(l) {
                let i = choose|i: int| 0 <= i < r.len() && r[i] == l;
                assert(d.bids[d.bids.len() - 1 - i] == l);
            }
            if d.bids.contains(l) {
                let i = choose|i: int| 0 <= i < d.bids.len() && d.bids[i] == l;
                assert(r[d.bids.len() - 1 - i] == l);
            }
        }
        lemma_filtered(r, |l: LobLevel| floor.at_most(l.price));
    }
    if d.asks.len() > 0 {
        let ceiling = answer(unit, FloatOp::PercentAbove, d.asks[0].price, pct);
        lemma_filtered(d.asks, |l: LobLevel| l.price.at_most(ceiling));
    }
}

/// The first levels are so many from the start, and the best bids so many from
/// the end, from the highest down; all of them where there are fewer.
pub proof fn top_levels_are_the_best(s: Seq<LobLevel>, n: int)
    requires
        n >= 0,
    ensures
        first_levels(s, n).len() == (if n < s.len() {
            n
        } else {
            s.len() as int
        }),
        forall|i: int|
            0 <= i < first_levels(s, n).len() ==> #[trigger] first_levels(s, n)[i] == s[i],
        first_levels(best_first(s), n).len() == (if n < s.len() {
            n
        } else {
            s.len() as int
        }),
        forall|i: int|
            0 <= i < first_levels(best_first(s), n).len() ==> #[trigger] first_levels(
                best_first(s),
                n,
            )[i] == s[s.len() - 1 - i],
{
}

} // verus!

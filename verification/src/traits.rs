//! What the order books of all exchanges have in common.

use crate::book::asks_within;
use crate::book::best_first;
use crate::book::bids_within;
use crate::book::spread;
use crate::book::total;
use crate::book::DepthView;
use crate::display::book_line;
use crate::items::LobLevel;
use crate::ladder::best_ask;
use crate::ladder::best_bid;
use crate::line::line;
use crate::line::Piece;
use crate::num::arithmetic;
use crate::num::FloatOp;
use crate::num::Num;
use crate::num::NumView;
use vstd::prelude::*;

verus! {

/// Levels of one side.
pub type LevelVec = Vec<LobLevel>;

/// Bids and asks within a percentage of the best price.
pub type LevelsWithinPct = (LevelVec, LevelVec);

/// An order book.
pub trait OrderBook: Sized {
    /// The levels of both sides.
    spec fn both_sides(&self) -> DepthView;

    /// An empty book.
    fn new() -> (r: Self)
        ensures
            r.both_sides() == DepthView::empty(),
    ;

    /// The number of bids.
    fn num_bids(&self) -> (r: usize)
        ensures
            r == self.both_sides().bids.len(),
    ;

    /// The number of asks.
    fn num_asks(&self) -> (r: usize)
        ensures
            r == self.both_sides().asks.len(),
    ;

    /// The best bid.
    fn best_bid(&self) -> (r: Option<Num>)
        ensures
            r == best_bid(self.both_sides().bids),
    ;

    /// The best ask.
    fn best_ask(&self) -> (r: Option<Num>)
        ensures
            r == best_ask(self.both_sides().asks),
    ;

    /// The best ask less the best bid.
    fn spread<A: Fn(FloatOp, Num, Num) -> Num>(&self, unit: &A) -> (r: Option<Num>)
        requires
            arithmetic(*unit),
        ensures
            r == spread(*unit, self.both_sides().bids, self.both_sides().asks),
    ;

    /// The levels of each side within a percentage of the best price.
    fn levels_within_pct<A: Fn(FloatOp, Num, Num) -> Num>(&self, top_pct: &Num, unit: &A) -> (r:
        LevelsWithinPct)
        requires
            arithmetic(*unit),
        ensures
            r.0@ == bids_within(*unit, self.both_sides().bids, *top_pct),
            r.1@ == asks_within(*unit, self.both_sides().asks, *top_pct),
    ;

    /// The sum of the sizes of the bids, the best first.
    fn total_bid_size<A: Fn(FloatOp, Num, Num) -> Num>(&self, unit: &A) -> (r: Num)
        requires
            arithmetic(*unit),
        ensures
            match total(*unit, best_first(self.both_sides().bids)) {
                Some(t) => r == t,
                None => r@ == (NumView { bits: 0, text: "0"@ }),
            },
    ;

    /// The sum of the sizes of the asks, the best first.
    fn total_ask_size<A: Fn(FloatOp, Num, Num) -> Num>(&self, unit: &A) -> (r: Num)
        requires
            arithmetic(*unit),
        ensures
            match total(*unit, self.both_sides().asks) {
                Some(t) => r == t,
                None => r@ == (NumView { bits: 0, text: "0"@ }),
            },
    ;

    /// The book as a line of text.
    fn display<A: Fn(FloatOp, Num, Num) -> Num>(
        &self,
        instrument: &str,
        top_pct: &Num,
        unit: &A,
    ) -> (r: Vec<Piece>)
        requires
            arithmetic(*unit),
        ensures
            line(r@) == book_line(*unit, self.both_sides(), instrument@),
    ;
}

impl OrderBook for crate::okx::lob::OrderBook {
    open spec fn both_sides(&self) -> DepthView {
        self@.depth
    }

    fn new() -> (r: Self) {
        crate::okx::lob::OrderBook::new()
    }

    fn num_bids(&self) -> (r: usize) {
        self.num_bids()
    }

    fn num_asks(&self) -> (r: usize) {
        self.num_asks()
    }

    fn best_bid(&self) -> (r: Option<Num>) {
        self.best_bid()
    }

    fn best_ask(&self) -> (r: Option<Num>) {
        self.best_ask()
    }

    fn spread<A: Fn(FloatOp, Num, Num) -> Num>(&self, unit: &A) -> (r: Option<Num>) {
        self.spread(unit)
    }

    fn levels_within_pct<A: Fn(FloatOp, Num, Num) -> Num>(&self, top_pct: &Num, unit: &A) -> (r:
        LevelsWithinPct) {
        self.levels_within_pct(top_pct, unit)
    }

    fn total_bid_size<A: Fn(FloatOp, Num, Num) -> Num>(&self, unit: &A) -> (r: Num) {
        self.total_bid_size(unit)
    }

    fn total_ask_size<A: Fn(FloatOp, Num, Num) -> Num>(&self, unit: &A) -> (r: Num) {
        self.total_ask_size(unit)
    }

    fn display<A: Fn(FloatOp, Num, Num) -> Num>(
        &self,
        instrument: &str,
        top_pct: &Num,
        unit: &A,
    ) -> (r: Vec<Piece>) {
        self.display(instrument, top_pct, unit)
    }
}

impl OrderBook for crate::kraken::lob::OrderBook {
    open spec fn both_sides(&self) -> DepthView {
        self@.depth
    }

    fn new() -> (r: Self) {
        crate::kraken::lob::OrderBook::new()
    }

    fn num_bids(&self) -> (r: usize) {
        self.num_bids()
    }

    fn num_asks(&self) -> (r: usize) {
        self.num_asks()
    }

    fn best_bid(&self) -> (r: Option<Num>) {
        self.best_bid()
    }

    fn best_ask(&self) -> (r: Option<Num>) {
        self.best_ask()
    }

    fn spread<A: Fn(FloatOp, Num, Num) -> Num>(&self, unit: &A) -> (r: Option<Num>) {
        self.spread(unit)
    }

    fn levels_within_pct<A: Fn(FloatOp, Num, Num) -> Num>(&self, top_pct: &Num, unit: &A) -> (r:
        LevelsWithinPct) {
        self.levels_within_pct(top_pct, unit)
    }

    fn total_bid_size<A: Fn(FloatOp, Num, Num) -> Num>(&self, unit: &A) -> (r: Num) {
        self.total_bid_size(unit)
    }

    fn total_ask_size<A: Fn(FloatOp, Num, Num) -> Num>(&self, unit: &A) -> (r: Num) {
        self.total_ask_size(unit)
    }

    fn display<A: Fn(FloatOp, Num, Num) -> Num>(
        &self,
        instrument: &str,
        top_pct: &Num,
        unit: &A,
    ) -> (r: Vec<Piece>) {
        self.display(instrument, top_pct, unit)
    }
}

impl OrderBook for crate::bitstamp::lob::OrderBook {
    open spec fn both_sides(&self) -> DepthView {
        self@.depth
    }

    fn new() -> (r: Self) {
        crate::bitstamp::lob::OrderBook::new()
    }

    fn num_bids(&self) -> (r: usize) {
        self.num_bids()
    }

    fn num_asks(&self) -> (r: usize) {
        self.num_asks()
    }

    fn best_bid(&self) -> (r: Option<Num>) {
        self.best_bid()
    }

    fn best_ask(&self) -> (r: Option<Num>) {
        self.best_ask()
    }

    fn spread<A: Fn(FloatOp, Num, Num) -> Num>(&self, unit: &A) -> (r: Option<Num>) {
        self.spread(unit)
    }

    fn levels_within_pct<A: Fn(FloatOp, Num, Num) -> Num>(&self, top_pct: &Num, unit: &A) -> (r:
        LevelsWithinPct) {
        self.levels_within_pct(top_pct, unit)
    }

    fn total_bid_size<A: Fn(FloatOp, Num, Num) -> Num>(&self, unit: &A) -> (r: Num) {
        self.total_bid_size(unit)
    }

    fn total_ask_size<A: Fn(FloatOp, Num, Num) -> Num>(&self, unit: &A) -> (r: Num) {
        self.total_ask_size(unit)
    }

    fn display<A: Fn(FloatOp, Num, Num) -> Num>(
        &self,
        instrument: &str,
        top_pct: &Num,
        unit: &A,
    ) -> (r: Vec<Piece>) {
        self.display(instrument, top_pct, unit)
    }
}

impl OrderBook for crate::bitvavo::lob::OrderBook {
    open spec fn both_sides(&self) -> DepthView {
        self@.depth
    }

    fn new() -> (r: Self) {
        crate::bitvavo::lob::OrderBook::new()
    }

    fn num_bids(&self) -> (r: usize) {
        self.num_bids()
    }

    fn num_asks(&self) -> (r: usize) {
        self.num_asks()
    }

    fn best_bid(&self) -> (r: Option<Num>) {
        self.best_bid()
    }

    fn best_ask(&self) -> (r: Option<Num>) {
        self.best_ask()
    }

    fn spread<A: Fn(FloatOp, Num, Num) -> Num>(&self, unit: &A) -> (r: Option<Num>) {
        self.spread(unit)
    }

    fn levels_within_pct<A: Fn(FloatOp, Num, Num) -> Num>(&self, top_pct: &Num, unit: &A) -> (r:
        LevelsWithinPct) {
        self.levels_within_pct(top_pct, unit)
    }

    fn total_bid_size<A: Fn(FloatOp, Num, Num) -> Num>(&self, unit: &A) -> (r: Num) {
        self.total_bid_size(unit)
    }

    fn total_ask_size<A: Fn(FloatOp, Num, Num) -> Num>(&self, unit: &A) -> (r: Num) {
        self.total_ask_size(unit)
    }

    fn display<A: Fn(FloatOp, Num, Num) -> Num>(
        &self,
        instrument: &str,
        top_pct: &Num,
        unit: &A,
    ) -> (r: Vec<Piece>) {
        self.display(instrument, top_pct, unit)
    }
}

} // verus!

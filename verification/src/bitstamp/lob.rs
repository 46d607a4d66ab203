//! The order book of Bitstamp.
//!
//! The book follows single orders and adds up those at one price. It holds
//! everything that was received; filters are applied only where an item is
//! made from it.

use crate::bitstamp::types::book_data_of;
use crate::bitstamp::types::trade_of;
use crate::bitstamp::types::BitstampView;
use crate::bitstamp::types::BitstampWsMessage;
use crate::bitstamp::types::BookDataView;
use crate::bitstamp::types::EntryView;
use crate::bitstamp::types::MessageType;
use crate::bitstamp::types::OrderBookData;
use crate::bitstamp::types::OrderEntry;
use crate::bitstamp::types::TradeData;
use crate::book::asks_within;
use crate::book::best_first;
use crate::book::bids_within;
use crate::book::filtered_item;
use crate::book::first_levels;
use crate::book::spread;
use crate::book::total;
use crate::book::total_size;
use crate::book::Depth;
use crate::book::DepthView;
pub use crate::book::Side;
use crate::display::book_line;
use crate::display::display_book;
use crate::items::lob_view;
use crate::items::LobItem;
use crate::items::LobLevel;
use crate::json::rows_view;
use crate::json::Json;
use crate::json::JsonText;
use crate::ladder::best_ask;
use crate::ladder::best_bid;
use crate::ladder::erase;
use crate::ladder::erase_is_local;
use crate::ladder::upsert_is_local;
use crate::line::line;
use crate::line::Piece;
use crate::num::answer;
use crate::num::arithmetic;
use crate::num::ask;
use crate::num::FloatOp;
use crate::num::Num;
use crate::num::NumView;
use vstd::prelude::*;

verus! {

/// Whether the book is left out of the stream, which then carries an empty
/// order book in its place.
pub const BITSTAMP_LOB_DISABLED: bool = true;

/// An order that the book follows.
#[derive(Debug, Clone)]
pub struct OrderInfo {
    pub id: u64,
    pub price: Num,
    pub size: Num,
    pub side: Side,
}

/// The place of the order with this number; the length of the list where
/// there is none.
pub open spec fn place_of(orders: Seq<OrderInfo>, id: u64) -> int
    decreases orders.len(),
{
    if orders.len() == 0 {
        0
    } else {
        let p = place_of(orders.drop_last(), id);
        if p < orders.len() - 1 || orders.last().id == id {
            p
        } else {
            orders.len() as int
        }
    }
}

/// The orders with one placed: instead of that with the same number, or else
/// after the others.
pub open spec fn placed(orders: Seq<OrderInfo>, order: OrderInfo) -> Seq<OrderInfo> {
    let p = place_of(orders, order.id);
    if p < orders.len() {
        orders.update(p, order)
    } else {
        orders.push(order)
    }
}

/// The sum of the sizes at a price, added one after the other; `None` where
/// there is no order.
pub open spec fn level_total<A: Fn(FloatOp, Num, Num) -> Num>(
    unit: A,
    orders: Seq<OrderInfo>,
    side: Side,
    key: int,
) -> Option<Num>
    decreases orders.len(),
{
    if orders.len() == 0 {
        None
    } else {
        let before = level_total(unit, orders.drop_last(), side, key);
        let order = orders.last();
        if order.side == side && order.price.key() == key {
            match before {
                None => Some(order.size),
                Some(t) => Some(answer(unit, FloatOp::Sum, t, order.size)),
            }
        } else {
            before
        }
    }
}

/// The place of a number is that of the first order that has it, and the end
/// where none has.
pub proof fn order_place(orders: Seq<OrderInfo>, id: u64)
    ensures
        0 <= place_of(orders, id) <= orders.len(),
        place_of(orders, id) < orders.len() ==> orders[place_of(orders, id)].id == id,
        forall|i: int| 0 <= i < place_of(orders, id) ==> (#[trigger] orders[i]).id != id,
    decreases orders.len(),
{
    if orders.len() > 0 {
        let t = orders.drop_last();
        order_place(t, id);
        assert forall|i: int| 0 <= i < place_of(orders, id) implies (
        #[trigger] orders[i]).id != id by {
            if i < t.len() {
                assert(orders[i] == t[i]);
            }
        }
    }
}

proof fn lemma_place_unique(orders: Seq<OrderInfo>, id: u64, p: int)
    requires
        0 <= p <= orders.len(),
        p < orders.len() ==> orders[p].id == id,
        forall|i: int| 0 <= i < p ==> (#[trigger] orders[i]).id != id,
    ensures
        place_of(orders, id) == p,
{
    order_place(orders, id);
    let q = place_of(orders, id);
    if q < p {
        assert(orders[q].id != id);
    } else if p < q {
        assert(orders[p].id != id);
    }
}

/// The mathematical content of an [`OrderBook`].
#[verifier::ext_equal]
pub struct BookView {
    pub orders: Seq<OrderInfo>,
    pub depth: DepthView,
    pub needs_resync: bool,
}

impl BookView {
    /// The book without orders and levels.
    pub open spec fn empty() -> BookView {
        BookView { orders: Seq::empty(), depth: DepthView::empty(), needs_resync: false }
    }

    /// The book with the level at a price set to the sum of its orders, or
    /// removed where that is zero.
    pub open spec fn rebuilt<A: Fn(FloatOp, Num, Num) -> Num>(
        self,
        unit: A,
        side: Side,
        price: Num,
    ) -> BookView {
        BookView {
            depth: match level_total(unit, self.orders, side, price.key()) {
                Some(size) => self.depth.stepped(side, LobLevel { price, size }),
                None => match side {
                    Side::Bid => DepthView {
                        bids: erase(self.depth.bids, price.key()),
                        asks: self.depth.asks,
                    },
                    Side::Ask => DepthView {
                        bids: self.depth.bids,
                        asks: erase(self.depth.asks, price.key()),
                    },
                },
            },
            ..self
        }
    }

    /// The book with a crossed one cleared, which asks for a resync.
    pub open spec fn repaired(self) -> BookView {
        if self.depth.is_crossed() {
            BookView { orders: Seq::empty(), depth: DepthView::empty(), needs_resync: true }
        } else {
            self
        }
    }

    /// The book after an order. Amount zero withdraws the order with this
    /// number; any other amount places it, unless it would cross the book.
    pub open spec fn ordered<A: Fn(FloatOp, Num, Num) -> Num>(
        self,
        unit: A,
        order: OrderInfo,
    ) -> BookView {
        if order.size.zero() {
            let p = place_of(self.orders, order.id);
            if p < self.orders.len() {
                let gone = self.orders[p];
                (BookView { orders: self.orders.remove(p), ..self }).rebuilt(
                    unit,
                    gone.side,
                    gone.price,
                ).repaired()
            } else {
                self
            }
        } else if self.depth.crosses(order.side, order.price) {
            self
        } else {
            (BookView { orders: placed(self.orders, order), ..self }).rebuilt(
                unit,
                order.side,
                order.price,
            ).repaired()
        }
    }

    /// The book after an order entry, if its price and amount are numbers.
    pub open spec fn entered<A: Fn(FloatOp, Num, Num) -> Num>(
        self,
        unit: A,
        entry: EntryView,
    ) -> BookView {
        match (entry.price.num(), entry.amount.num()) {
            (Some(price), Some(size)) => self.ordered(
                unit,
                OrderInfo { id: entry.id, price, size, side: side_of(entry.order_type) },
            ),
            _ => self,
        }
    }

    /// The book after rows of one side. Each row whose first two texts are
    /// numbers is an order with the number zero, its price and amount rounded
    /// to eight decimals.
    pub open spec fn rows<A: Fn(FloatOp, Num, Num) -> Num>(
        self,
        unit: A,
        rows: Seq<Seq<JsonText>>,
        side: Side,
    ) -> BookView
        decreases rows.len(),
    {
        if rows.len() == 0 {
            self
        } else {
            let before = self.rows(unit, rows.drop_last(), side);
            match row_order(rows.last(), side) {
                Some(order) => before.ordered(unit, order),
                None => before,
            }
        }
    }

    /// The book after book data: the bids, and then the asks.
    pub open spec fn fed<A: Fn(FloatOp, Num, Num) -> Num>(
        self,
        unit: A,
        data: BookDataView,
    ) -> BookView {
        self.rows(unit, data.bids, Side::Bid).rows(unit, data.asks, Side::Ask)
    }

    /// The book after a message. Book data are applied; a trade is taken as
    /// an order, its price and amount rounded to eight decimals.
    pub open spec fn processed<A: Fn(FloatOp, Num, Num) -> Num>(
        self,
        unit: A,
        msg: BitstampView,
    ) -> BookView {
        match msg.data {
            Some(data) => match msg.message_type() {
                MessageType::L2Snapshot | MessageType::L2Update => match book_data_of(data) {
                    Some(b) => self.fed(unit, b),
                    None => self,
                },
                MessageType::Trade => match trade_of(data) {
                    Some(t) => match (t.price.reading, t.amount.reading) {
                        (Some(price), Some(amount)) => self.ordered(
                            unit,
                            OrderInfo {
                                id: t.id,
                                price: price.rounded,
                                size: amount.rounded,
                                side: side_of(t.trade_type),
                            },
                        ),
                        _ => self,
                    },
                    None => self,
                },
                _ => self,
            },
            None => self,
        }
    }
}

/// The side of a type: 0 is a bid, anything else an ask.
pub open spec fn side_of(order_type: i64) -> Side {
    if order_type == 0 {
        Side::Bid
    } else {
        Side::Ask
    }
}

/// The order that a row stands for.
pub open spec fn row_order(row: Seq<JsonText>, side: Side) -> Option<OrderInfo> {
    if row.len() < 2 {
        None
    } else {
        match (row[0].reading, row[1].reading) {
            (Some(price), Some(amount)) => Some(
                OrderInfo { id: 0, price: price.rounded, size: amount.rounded, side },
            ),
            _ => None,
        }
    }
}

/// The order book.
#[derive(Debug, Clone)]
pub struct OrderBook {
    /// The orders, no two of which have the same number.
    orders: Vec<OrderInfo>,
    pub depth: Depth,
    /// A crossed book was cleared.
    needs_resync: bool,
}

impl View for OrderBook {
    type V = BookView;

    closed spec fn view(&self) -> BookView {
        BookView {
            orders: self.orders@,
            depth: self.depth@,
            needs_resync: self.needs_resync,
        }
    }
}

impl OrderBook {
    /// Both sides are in order.
    pub open spec fn wf(self) -> bool {
        self@.depth.wf()
    }

    /// An empty book.
    pub fn new() -> (r: OrderBook)
        ensures
            r.wf(),
            r@ == BookView::empty(),
    {
        OrderBook { orders: Vec::new(), depth: Depth::new(), needs_resync: false }
    }

    /// The orders that the book follows.
    pub fn orders(&self) -> (r: &Vec<OrderInfo>)
        ensures
            r@ == self@.orders,
    {
        &self.orders
    }

    /// The number of bids.
    pub fn num_bids(&self) -> (r: usize)
        ensures
            r == self@.depth.bids.len(),
    {
        self.depth.bids.len()
    }

    /// The number of asks.
    pub fn num_asks(&self) -> (r: usize)
        ensures
            r == self@.depth.asks.len(),
    {
        self.depth.asks.len()
    }

    /// The best bid.
    pub fn best_bid(&self) -> (r: Option<Num>)
        ensures
            r == best_bid(self@.depth.bids),
    {
        self.depth.bids.highest()
    }

    /// The best ask.
    pub fn best_ask(&self) -> (r: Option<Num>)
        ensures
            r == best_ask(self@.depth.asks),
    {
        self.depth.asks.lowest()
    }

    /// The best ask less the best bid.
    pub fn spread<A: Fn(FloatOp, Num, Num) -> Num>(&self, unit: &A) -> (r: Option<Num>)
        requires
            arithmetic(*unit),
        ensures
            r == spread(*unit, self@.depth.bids, self@.depth.asks),
    {
        self.depth.spread(unit)
    }

    /// The best `n` bids, the best first.
    pub fn top_bids(&self, n: usize) -> (r: Vec<LobLevel>)
        ensures
            r@ == first_levels(best_first(self@.depth.bids), n as int),
    {
        self.depth.top_bids(n)
    }

    /// The best `n` asks, the best first.
    pub fn top_asks(&self, n: usize) -> (r: Vec<LobLevel>)
        ensures
            r@ == first_levels(self@.depth.asks, n as int),
    {
        self.depth.top_asks(n)
    }

    /// The levels of each side within a percentage of the best price.
    pub fn levels_within_pct<A: Fn(FloatOp, Num, Num) -> Num>(&self, pct: &Num, unit: &A) -> (r: (
        Vec<LobLevel>,
        Vec<LobLevel>,
    ))
        requires
            arithmetic(*unit),
        ensures
            r.0@ == bids_within(*unit, self@.depth.bids, *pct),
            r.1@ == asks_within(*unit, self@.depth.asks, *pct),
    {
        self.depth.levels_within_pct(pct, unit)
    }

    /// The sum of the sizes of the bids, the best first.
    pub fn total_bid_size<A: Fn(FloatOp, Num, Num) -> Num>(&self, unit: &A) -> (r: Num)
        requires
            arithmetic(*unit),
        ensures
            match total(*unit, best_first(self@.depth.bids)) {
                Some(t) => r == t,
                None => r@ == (NumView { bits: 0, text: "0"@ }),
            },
    {
        let bids: Vec<LobLevel> = self.depth.top_bids(self.depth.bids.len());
        total_size(&bids, unit)
    }

    /// The sum of the sizes of the asks, the best first.
    pub fn total_ask_size<A: Fn(FloatOp, Num, Num) -> Num>(&self, unit: &A) -> (r: Num)
        requires
            arithmetic(*unit),
        ensures
            match total(*unit, self@.depth.asks) {
                Some(t) => r == t,
                None => r@ == (NumView { bits: 0, text: "0"@ }),
            },
    {
        total_size(self.depth.asks.levels(), unit)
    }

    /// The book as a line of text. The percentage plays no part in it.
    pub fn display<A: Fn(FloatOp, Num, Num) -> Num>(
        &self,
        instrument: &str,
        _top_pct: &Num,
        unit: &A,
    ) -> (r: Vec<Piece>)
        requires
            arithmetic(*unit),
        ensures
            line(r@) == book_line(*unit, self@.depth, instrument@),
    {
        display_book(&self.depth, instrument, unit)
    }

    /// The book as an item, with every level.
    pub fn full_lob_item<A: Fn(FloatOp, Num, Num) -> Num>(
        &self,
        ts: u64,
        exchange: &str,
        unit: &A,
    ) -> (r: Option<LobItem>)
        requires
            arithmetic(*unit),
        ensures
            lob_view(r) == crate::book::full_item(self@.depth, ts, exchange@),
    {
        let none: Num = Num::zero_value();
        let r = self.depth.to_lob_item(ts, exchange, None, &none, unit);
        r
    }

    /// The book as an item, with the filters applied.
    pub fn to_lob_item<A: Fn(FloatOp, Num, Num) -> Num>(
        &self,
        ts: u64,
        exchange: &str,
        max_level: Option<usize>,
        max_level_pct: &Num,
        unit: &A,
    ) -> (r: Option<LobItem>)
        requires
            arithmetic(*unit),
        ensures
            lob_view(r) == filtered_item(
                *unit,
                self@.depth.bids,
                self@.depth.asks,
                ts,
                exchange@,
                max_level,
                *max_level_pct,
            ),
    {
        self.depth.to_lob_item(ts, exchange, max_level, max_level_pct, unit)
    }

    fn find(&self, id: u64) -> (r: usize)
        ensures
            r == place_of(self@.orders, id),
            r <= self@.orders.len(),
    {
        let mut i: usize = 0;
        while i < self.orders.len() && self.orders[i].id != id
            invariant
                i <= self.orders.len(),
                forall|j: int| 0 <= j < i ==> (#[trigger] self.orders@[j]).id != id,
            ensures
                i <= self.orders.len(),
                i < self.orders.len() ==> self.orders@[i as int].id == id,
                forall|j: int| 0 <= j < i ==> (#[trigger] self.orders@[j]).id != id,
            decreases self.orders.len() - i,
        {
            i += 1;
        }
        proof {
            lemma_place_unique(self.orders@, id, i as int);
        }
        i
    }

    fn rebuild_price_level<A: Fn(FloatOp, Num, Num) -> Num>(
        &mut self,
        side: Side,
        price: &Num,
        unit: &A,
    )
        requires
            arithmetic(*unit),
            old(self).wf(),
        ensures
            final(self).wf(),
            final(self)@ == old(self)@.rebuilt(*unit, side, *price),
    {
        let key: i64 = price.sort_key();
        let mut sum: Option<Num> = None;
        let mut i: usize = 0;
        assert(self.orders@.take(0) =~= Seq::<OrderInfo>::empty());
        while i < self.orders.len()
            invariant
                i <= self.orders.len(),
                arithmetic(*unit),
                *self == *old(self),
                key == price.key(),
                sum == level_total(*unit, self.orders@.take(i as int), side, key as int),
            decreases self.orders.len() - i,
        {
            assert(self.orders@.take(i + 1).drop_last() =~= self.orders@.take(i as int));
            let order: &OrderInfo = &self.orders[i];
            if order.side == side && order.price.sort_key() == key {
                sum = match sum {
                    None => Some(order.size.clone()),
                    Some(t) => Some(ask(unit, FloatOp::Sum, &t, &order.size)),
                };
            }
            i += 1;
        }
        assert(self.orders@.take(self.orders@.len() as int) =~= self.orders@);
        match sum {
            Some(t) => {
                self.depth.set_level(side, price, &t);
            },
            None => {
                proof {
                    erase_is_local(self.depth@.bids, price.key());
                    erase_is_local(self.depth@.asks, price.key());
                }
                match side {
                    Side::Bid => self.depth.bids.remove(price),
                    Side::Ask => self.depth.asks.remove(price),
                }
            },
        }
    }

    fn repair_crossing(&mut self)
        requires
            old(self).wf(),
        ensures
            final(self).wf(),
            final(self)@ == old(self)@.repaired(),
    {
        if self.depth.repair().is_some() {
            self.orders = Vec::new();
            self.needs_resync = true;
        }
    }

    /// Places, changes or withdraws an order.
    pub fn set_order<A: Fn(FloatOp, Num, Num) -> Num>(&mut self, order: OrderInfo, unit: &A)
        requires
            arithmetic(*unit),
            old(self).wf(),
        ensures
            final(self).wf(),
            final(self)@ == old(self)@.ordered(*unit, order),
    {
        let p: usize = self.find(order.id);
        if order.size.is_zero() {
            if p < self.orders.len() {
                let gone: OrderInfo = self.orders.remove(p);
                self.rebuild_price_level(gone.side, &gone.price, unit);
                self.repair_crossing();
            }
        } else if !self.depth.would_cross(order.side, &order.price) {
            let side: Side = order.side;
            let price: Num = order.price.clone();
            if p < self.orders.len() {
                self.orders.set(p, order);
            } else {
                self.orders.push(order);
            }
            self.rebuild_price_level(side, &price, unit);
            self.repair_crossing();
        }
    }

    /// Takes in an order, if its price and amount are numbers.
    pub fn apply_order<A: Fn(FloatOp, Num, Num) -> Num>(&mut self, entry: &OrderEntry, unit: &A)
        requires
            arithmetic(*unit),
            old(self).wf(),
        ensures
            final(self).wf(),
            final(self)@ == old(self)@.entered(*unit, entry@),
    {
        match (entry.price_f64(), entry.amount_f64()) {
            (Some(price), Some(size)) => {
                let side: Side = if entry.is_bid() {
                    Side::Bid
                } else {
                    Side::Ask
                };
                self.set_order(OrderInfo { id: entry.id, price, size, side }, unit);
            },
            _ => {},
        }
    }

    fn apply_rows<A: Fn(FloatOp, Num, Num) -> Num>(
        &mut self,
        rows: &Vec<Vec<JsonText>>,
        side: Side,
        unit: &A,
    )
        requires
            arithmetic(*unit),
            old(self).wf(),
        ensures
            final(self).wf(),
            final(self)@ == old(self)@.rows(*unit, rows_view(rows@), side),
    {
        let ghost model = rows_view(rows@);
        let mut i: usize = 0;
        assert(model.take(0) =~= Seq::<Seq<JsonText>>::empty());
        while i < rows.len()
            invariant
                i <= rows.len(),
                arithmetic(*unit),
                self.wf(),
                model == rows_view(rows@),
                self@ == old(self)@.rows(*unit, model.take(i as int), side),
            decreases rows.len() - i,
        {
            proof {
                assert(model.take(i + 1).drop_last() =~= model.take(i as int));
                assert(model[i as int] == rows@[i as int]@);
            }
            let row: &Vec<JsonText> = &rows[i];
            if row.len() >= 2 {
                match (&row[0].reading, &row[1].reading) {
                    (Some(price), Some(amount)) => {
                        let order = OrderInfo {
                            id: 0,
                            price: price.rounded.clone(),
                            size: amount.rounded.clone(),
                            side,
                        };
                        self.set_order(order, unit);
                    },
                    _ => {},
                }
            }
            i += 1;
        }
        assert(model.take(model.len() as int) =~= model);
    }

    /// Takes in book data: the bids, and then the asks.
    pub fn apply_orderbook<A: Fn(FloatOp, Num, Num) -> Num>(&mut self, ob: &OrderBookData, unit: &A)
        requires
            arithmetic(*unit),
            old(self).wf(),
        ensures
            final(self).wf(),
            final(self)@ == old(self)@.fed(*unit, ob@),
    {
        self.apply_rows(&ob.bids, Side::Bid, unit);
        self.apply_rows(&ob.asks, Side::Ask, unit);
    }

    /// Takes in a message.
    pub fn process_msg<A: Fn(FloatOp, Num, Num) -> Num>(&mut self, msg: &BitstampWsMessage, unit: &A)
        requires
            arithmetic(*unit),
            old(self).wf(),
        ensures
            final(self).wf(),
            final(self)@ == old(self)@.processed(*unit, msg@),
    {
        let data: &Json = match msg.data {
            Some(d) => d,
            None => {
                return;
            },
        };
        match msg.message_type() {
            MessageType::L2Snapshot | MessageType::L2Update => match OrderBookData::from_value(
                data,
            ) {
                Some(ob) => {
                    self.apply_orderbook(&ob, unit);
                },
                None => {},
            },
            MessageType::Trade => match TradeData::from_value(data) {
                Some(t) => match (&t.price.reading, &t.amount.reading) {
                    (Some(price), Some(amount)) => {
                        let side: Side = if t.trade_type == 0 {
                            Side::Bid
                        } else {
                            Side::Ask
                        };
                        let order = OrderInfo {
                            id: t.id,
                            price: price.rounded.clone(),
                            size: amount.rounded.clone(),
                            side,
                        };
                        self.set_order(order, unit);
                    },
                    _ => {},
                },
                None => {},
            },
            _ => {},
        }
    }

    /// Whether a crossed book was cleared.
    pub fn needs_resync(&self) -> (r: bool)
        ensures
            r == self@.needs_resync,
    {
        self.needs_resync
    }

    /// Drops every order and level.
    pub fn reset(&mut self)
        ensures
            final(self).wf(),
            final(self)@ == BookView::empty(),
    {
        self.orders = Vec::new();
        self.depth.clear();
        self.needs_resync = false;
    }
}

impl Default for OrderBook {
    fn default() -> (r: Self)
        ensures
            r.wf(),
            r@ == BookView::empty(),
    {
        OrderBook::new()
    }
}

/// An order leaves a book in order that is in order, and not crossed one that
/// is not crossed.
pub proof fn order_never_crosses<A: Fn(FloatOp, Num, Num) -> Num>(
    b: BookView,
    unit: A,
    order: OrderInfo,
)
    requires
        b.depth.wf(),
    ensures
        b.ordered(unit, order).depth.wf(),
        !b.depth.is_crossed() ==> !b.ordered(unit, order).depth.is_crossed(),
{
    let p = place_of(b.orders, order.id);
    let (orders, side, price) = if order.size.zero() && p < b.orders.len() {
        (b.orders.remove(p), b.orders[p].side, b.orders[p].price)
    } else {
        (placed(b.orders, order), order.side, order.price)
    };
    erase_is_local(b.depth.bids, price.key());
    erase_is_local(b.depth.asks, price.key());
    match level_total(unit, orders, side, price.key()) {
        Some(size) => {
            upsert_is_local(b.depth.bids, price, size);
            upsert_is_local(b.depth.asks, price, size);
        },
        None => {},
    }
}

/// Rows of orders keep a book in order, and do not leave it crossed.
pub proof fn rows_never_cross<A: Fn(FloatOp, Num, Num) -> Num>(
    b: BookView,
    unit: A,
    rows: Seq<Seq<JsonText>>,
    side: Side,
)
    requires
        b.depth.wf(),
    ensures
        b.rows(unit, rows, side).depth.wf(),
        !b.depth.is_crossed() ==> !b.rows(unit, rows, side).depth.is_crossed(),
    decreases rows.len(),
{
    if rows.len() > 0 {
        rows_never_cross(b, unit, rows.drop_last(), side);
        match row_order(rows.last(), side) {
            Some(order) => {
                order_never_crosses(b.rows(unit, rows.drop_last(), side), unit, order);
            },
            None => {},
        }
    }
}

/// Whatever message comes, a book in order stays in order, and one that is
/// not crossed is not left crossed.
pub proof fn message_never_crosses<A: Fn(FloatOp, Num, Num) -> Num>(
    b: BookView,
    unit: A,
    msg: BitstampView,
)
    requires
        b.depth.wf(),
    ensures
        b.processed(unit, msg).depth.wf(),
        !b.depth.is_crossed() ==> !b.processed(unit, msg).depth.is_crossed(),
{
    match msg.data {
        Some(data) => {
            match book_data_of(data) {
                Some(d) => {
                    rows_never_cross(b, unit, d.bids, Side::Bid);
                    rows_never_cross(b.rows(unit, d.bids, Side::Bid), unit, d.asks, Side::Ask);
                },
                None => {},
            }
            match trade_of(data) {
                Some(t) => match (t.price.reading, t.amount.reading) {
                    (Some(price), Some(amount)) => {
                        order_never_crosses(
                            b,
                            unit,
                            OrderInfo {
                                id: t.id,
                                price: price.rounded,
                                size: amount.rounded,
                                side: side_of(t.trade_type),
                            },
                        );
                    },
                    _ => {},
                },
                None => {},
            }
        },
        None => {},
    }
}

/// No two orders have the same number.
pub open spec fn distinct(orders: Seq<OrderInfo>) -> bool {
    forall|i: int, j: int|
        0 <= i < j < orders.len() ==> (#[trigger] orders[i]).id != (#[trigger] orders[j]).id
}

/// Orders that have different numbers keep them, whatever order comes.
pub proof fn numbers_stay_distinct<A: Fn(FloatOp, Num, Num) -> Num>(
    b: BookView,
    unit: A,
    order: OrderInfo,
)
    requires
        distinct(b.orders),
    ensures
        distinct(b.ordered(unit, order).orders),
{
    order_place(b.orders, order.id);
    let p = place_of(b.orders, order.id);
    let next = placed(b.orders, order);
    assert forall|i: int, j: int| 0 <= i < j < next.len() implies (#[trigger] next[i]).id != (
    #[trigger] next[j]).id by {
        if p < b.orders.len() {
            assert(b.orders[i].id != b.orders[j].id);
        } else if j < b.orders.len() {
            assert(b.orders[i].id != b.orders[j].id);
        } else {
            assert(b.orders[i].id != order.id);
        }
    }
}

} // verus!

//! The Bitstamp side of a connection.

use crate::bitstamp::lob::message_never_crosses;
use crate::bitstamp::lob::BITSTAMP_LOB_DISABLED;
use crate::bitstamp::lob::BookView;
use crate::bitstamp::lob::OrderBook;
pub use crate::bitstamp::types::display_message;
pub use crate::bitstamp::types::display_message_at;
use crate::bitstamp::types::instrument_to_channel;
use crate::bitstamp::types::micros_to_millis;
use crate::bitstamp::types::BitstampView;
use crate::bitstamp::types::BitstampWsMessage;
use crate::bitstamp::types::BookDataView;
use crate::bitstamp::types::MessageType;
use crate::bitstamp::types::OrderBookData;
use crate::bitstamp::types::TradeDataView;
use crate::book::filtered_item;
use crate::clock::moment;
use crate::clock::now_millis;
use crate::config::DataKind;
use crate::emit::emit;
use crate::emit::emitted;
use crate::emit::remembered;
use crate::items::item_view;
use crate::items::lob_view;
use crate::items::ItemView;
use crate::items::LobItem;
use crate::items::LobView;
use crate::items::MarketDataItem;
use crate::items::TradeItem;
use crate::items::TradeView;
use crate::json::num_or_zero;
use crate::json::or_zero;
use crate::num::arithmetic;
use crate::num::FloatOp;
use crate::num::Num;
use crate::text::decimal;
use crate::text::json_string;
use crate::text::letters_lower;
use crate::text::quote;
use crate::text::requests;
use crate::text::unsigned_text;
use crate::urls::rest_endpoint;
use crate::urls::rest_url;
use crate::urls::websocket_endpoint;
use crate::urls::websocket_url;
use vstd::prelude::*;

verus! {

/// The request that subscribes to a channel.
pub open spec fn subscribe_request(channel: Seq<char>) -> Seq<char> {
    "{\"data\":{\"channel\":"@ + json_string(channel) + "},\"event\":\"bts:subscribe\"}"@
}

/// Builds the request that subscribes to a channel.
pub fn build_subscribe_msg(channel: &str) -> (r: String)
    ensures
        r@ == subscribe_request(channel@),
{
    "{\"data\":{\"channel\":".to_owned().concat(quote(channel).as_str()).concat(
        "},\"event\":\"bts:subscribe\"}",
    )
}

/// What is to be done about a new connection.
#[derive(Debug)]
pub enum Recovery {
    /// Nothing: the connection carries no order book.
    Nothing,
    /// The item to emit.
    Emit(MarketDataItem),
    /// A snapshot to fetch from this address.
    Fetch(String),
}

/// The state that the connection to Bitstamp keeps.
#[derive(Debug)]
pub struct BitstampAdapter {
    pub instrument: String,
    pub exchange: String,
    pub region: String,
    pub cli_instrument: String,
    pub max_level_pct: Num,
    pub max_level: Option<usize>,
    pub data_kind: DataKind,
    pub checksum_log: bool,
    /// The order book, with every level.
    pub book: OrderBook,
    /// The order book item emitted last.
    pub prev_lob: Option<LobItem>,
    /// The number of trades emitted.
    pub trade_seq: u64,
}

/// The mathematical content of a [`BitstampAdapter`].
#[verifier::ext_equal]
pub struct AdapterView {
    pub instrument: Seq<char>,
    pub exchange: Seq<char>,
    pub region: Seq<char>,
    pub cli_instrument: Seq<char>,
    pub max_level_pct: Num,
    pub max_level: Option<usize>,
    pub data_kind: DataKind,
    pub checksum_log: bool,
    pub book: BookView,
    pub prev_lob: Option<LobView>,
    pub trade_seq: u64,
}

impl View for BitstampAdapter {
    type V = AdapterView;

    open spec fn view(&self) -> AdapterView {
        AdapterView {
            instrument: self.instrument@,
            exchange: self.exchange@,
            region: self.region@,
            cli_instrument: self.cli_instrument@,
            max_level_pct: self.max_level_pct,
            max_level: self.max_level,
            data_kind: self.data_kind,
            checksum_log: self.checksum_log,
            book: self.book@,
            prev_lob: lob_view(self.prev_lob),
            trade_seq: self.trade_seq,
        }
    }
}

/// An order book item without levels.
pub open spec fn bare_item(ts: u64, exchange: Seq<char>) -> LobView {
    LobView { ts, exchange, bids: Seq::empty(), asks: Seq::empty() }
}

/// The item that a trade gives, with its number.
pub open spec fn trade_item(
    t: TradeDataView,
    ts: Option<u64>,
    exchange: Seq<char>,
    number: u64,
) -> ItemView {
    ItemView::Trade(
        TradeView {
            ts: moment(ts, 0),
            exchange,
            price: num_or_zero(t.price.num()),
            size: num_or_zero(t.amount.num()),
            side: t.side(),
            trade_id: if t.id == 0 {
                None
            } else {
                Some(decimal(t.id as nat))
            },
            seq_id: Some(number),
        },
    )
}

impl AdapterView {
    /// The item that a book stands for.
    pub open spec fn item_of<A: Fn(FloatOp, Num, Num) -> Num>(
        self,
        unit: A,
        book: BookView,
        ts: u64,
    ) -> Option<LobView> {
        filtered_item(
            unit,
            book.depth.bids,
            book.depth.asks,
            ts,
            self.exchange,
            self.max_level,
            self.max_level_pct,
        )
    }

    /// The item to emit for the book; one without levels while the book is
    /// left out.
    pub open spec fn lob<A: Fn(FloatOp, Num, Num) -> Num>(self, unit: A, ts: u64) -> Option<
        LobView,
    > {
        if BITSTAMP_LOB_DISABLED {
            Some(bare_item(ts, self.exchange))
        } else {
            self.item_of(unit, self.book, ts)
        }
    }

    /// The state after the book was emitted.
    pub open spec fn after_emit<A: Fn(FloatOp, Num, Num) -> Num>(
        self,
        unit: A,
        ts: u64,
    ) -> AdapterView {
        AdapterView { prev_lob: remembered(self.lob(unit, ts), self.prev_lob), ..self }
    }

    /// The state without book and without memory of what was emitted.
    pub open spec fn wiped(self) -> AdapterView {
        AdapterView { book: BookView::empty(), prev_lob: None, ..self }
    }

    /// The state with a message taken into the book.
    pub open spec fn fed<A: Fn(FloatOp, Num, Num) -> Num>(
        self,
        unit: A,
        msg: BitstampView,
    ) -> AdapterView {
        AdapterView { book: self.book.processed(unit, msg), ..self }
    }

    /// The message changes the book, and the book is subscribed to.
    pub open spec fn takes_book(self, msg: BitstampView) -> bool {
        self.data_kind.lob() && (msg.message_type() == MessageType::L2Snapshot
            || msg.message_type() == MessageType::L2Update)
    }

    /// The message is a trade that can be read, and trades are subscribed to.
    pub open spec fn takes_trade(self, msg: BitstampView) -> bool {
        self.data_kind.trade() && msg.message_type() == MessageType::Trade && msg.trade() is Some
    }

    /// The state after a message: the book takes in messages of its channel,
    /// and is wiped where it had to be cleared; trades are counted.
    pub open spec fn handled<A: Fn(FloatOp, Num, Num) -> Num>(
        self,
        unit: A,
        msg: BitstampView,
        now: u64,
    ) -> AdapterView {
        if self.takes_book(msg) {
            if self.fed(unit, msg).book.needs_resync {
                self.wiped()
            } else {
                self.fed(unit, msg).after_emit(unit, moment(msg.timestamp_ms(), now))
            }
        } else if self.takes_trade(msg) {
            AdapterView { trade_seq: (self.trade_seq + 1) as u64, ..self }
        } else {
            self
        }
    }

    /// The item that a message gives.
    pub open spec fn item<A: Fn(FloatOp, Num, Num) -> Num>(
        self,
        unit: A,
        msg: BitstampView,
        now: u64,
    ) -> Option<ItemView> {
        if self.takes_book(msg) {
            if self.fed(unit, msg).book.needs_resync {
                None
            } else {
                emitted(
                    self.fed(unit, msg).lob(unit, moment(msg.timestamp_ms(), now)),
                    self.prev_lob,
                )
            }
        } else if self.takes_trade(msg) {
            Some(
                trade_item(
                    msg.trade()->0,
                    msg.timestamp_ms(),
                    self.exchange,
                    (self.trade_seq + 1) as u64,
                ),
            )
        } else {
            None
        }
    }

    /// What to subscribe to: the name of each channel and the request.
    pub open spec fn subscriptions(self) -> Seq<(Seq<char>, Seq<char>)> {
        let orders = "diff_order_book_"@ + letters_lower(self.instrument);
        let trades = "live_trades_"@ + letters_lower(self.instrument);
        (if self.data_kind.lob() {
            seq![(orders, subscribe_request(orders))]
        } else {
            Seq::empty()
        }) + (if self.data_kind.trade() {
            seq![(trades, subscribe_request(trades))]
        } else {
            Seq::empty()
        })
    }

    /// The address of a snapshot of the book.
    pub open spec fn snapshot_address(self) -> Seq<char> {
        rest_endpoint(self.region, self.exchange) + "/order_book/"@ + self.cli_instrument
            + "?group="@ + decimal(
            match self.max_level {
                Some(n) => n as nat,
                None => 400,
            },
        )
    }

    /// The item that a snapshot stands for; `None` where it gives no bid or
    /// no ask.
    pub open spec fn snapshot_item<A: Fn(FloatOp, Num, Num) -> Num>(
        self,
        unit: A,
        data: BookDataView,
        now: u64,
    ) -> Option<LobView> {
        self.item_of(
            unit,
            BookView::empty().fed(unit, data),
            moment(data_moment(data), now),
        )
    }
}

/// The moment of a snapshot, in milliseconds.
pub open spec fn data_moment(data: BookDataView) -> Option<u64> {
    micros_to_millis(data.microtimestamp)
}

impl BitstampAdapter {
    /// The book is in order.
    pub open spec fn wf(self) -> bool {
        self.book.wf()
    }

    /// The state before any message.
    pub fn new(
        instrument: String,
        exchange: String,
        region: String,
        cli_instrument: String,
        max_level_pct: Num,
        max_level: Option<usize>,
        data_kind: DataKind,
        checksum_log: bool,
    ) -> (r: BitstampAdapter)
        ensures
            r.wf(),
            r@ == (AdapterView {
                instrument: instrument@,
                exchange: exchange@,
                region: region@,
                cli_instrument: cli_instrument@,
                max_level_pct,
                max_level,
                data_kind,
                checksum_log,
                book: BookView::empty(),
                prev_lob: None,
                trade_seq: 0,
            }),
    {
        BitstampAdapter {
            instrument,
            exchange,
            region,
            cli_instrument,
            max_level_pct,
            max_level,
            data_kind,
            checksum_log,
            book: OrderBook::new(),
            prev_lob: None,
            trade_seq: 0,
        }
    }

    /// The instrument.
    pub fn instrument(&self) -> (r: &str)
        ensures
            r@ == self@.instrument,
    {
        self.instrument.as_str()
    }

    /// The name of the exchange.
    pub fn exchange(&self) -> (r: &str)
        ensures
            r@ == self@.exchange,
    {
        self.exchange.as_str()
    }

    fn bare(&self, ts: u64) -> (r: LobItem)
        ensures
            r@ == bare_item(ts, self@.exchange),
    {
        LobItem { ts, exchange: self.exchange.clone(), bids: Vec::new(), asks: Vec::new() }
    }

    /// Emits the book as it is now, unless it was emitted like this before.
    pub fn emit_lob<A: Fn(FloatOp, Num, Num) -> Num>(&mut self, ts: u64, unit: &A) -> (r: Option<
        MarketDataItem,
    >)
        requires
            arithmetic(*unit),
            old(self).wf(),
        ensures
            final(self).wf(),
            item_view(r) == emitted(old(self)@.lob(*unit, ts), old(self)@.prev_lob),
            final(self)@ == old(self)@.after_emit(*unit, ts),
    {
        let item: Option<LobItem> = if BITSTAMP_LOB_DISABLED {
            Some(self.bare(ts))
        } else {
            self.book.to_lob_item(
                ts,
                self.exchange.as_str(),
                self.max_level,
                &self.max_level_pct,
                unit,
            )
        };
        emit(item, &mut self.prev_lob)
    }

    /// Drops the book and the memory of what was emitted.
    pub fn reset_local(&mut self)
        ensures
            final(self).wf(),
            final(self)@ == old(self)@.wiped(),
    {
        self.book.reset();
        self.prev_lob = None;
    }

    /// The channels to subscribe to, each with its request.
    pub fn subscribe_msgs(&self) -> (r: Vec<(String, String)>)
        ensures
            requests(r@) == self@.subscriptions(),
    {
        let mut msgs: Vec<(String, String)> = Vec::new();
        let channel: String = instrument_to_channel(self.instrument.as_str());
        if self.data_kind.contains(DataKind::LOB) {
            let orders: String = "diff_order_book_".to_owned().concat(channel.as_str());
            let request: String = build_subscribe_msg(orders.as_str());
            msgs.push((orders, request));
        }
        if self.data_kind.contains(DataKind::TRADE) {
            let trades: String = "live_trades_".to_owned().concat(channel.as_str());
            let request: String = build_subscribe_msg(trades.as_str());
            msgs.push((trades, request));
        }
        assert(requests(msgs@) =~= self@.subscriptions());
        msgs
    }

    /// Takes in a message that arrives at a moment.
    pub fn handle_message_at<A: Fn(FloatOp, Num, Num) -> Num>(
        &mut self,
        msg: &BitstampWsMessage,
        unit: &A,
        now: u64,
    ) -> (r: Option<MarketDataItem>)
        requires
            arithmetic(*unit),
            old(self).wf(),
            old(self)@.takes_trade(msg@) ==> old(self)@.trade_seq < u64::MAX,
        ensures
            final(self).wf(),
            item_view(r) == old(self)@.item(*unit, msg@, now),
            final(self)@ == old(self)@.handled(*unit, msg@, now),
    {
        match msg.message_type() {
            MessageType::L2Snapshot | MessageType::L2Update => {
                if !self.data_kind.contains(DataKind::LOB) {
                    return None;
                }
                let ts: u64 = msg.timestamp_ms().unwrap_or(now);
                self.book.process_msg(msg, unit);
                if self.book.needs_resync() {
                    self.reset_local();
                    return None;
                }
                self.emit_lob(ts, unit)
            },
            MessageType::Trade => {
                if !self.data_kind.contains(DataKind::TRADE) {
                    return None;
                }
                match msg.trade() {
                    Some(t) => {
                        let ts: u64 = msg.timestamp_ms().unwrap_or(0);
                        let trade_id: Option<String> = if t.id == 0 {
                            None
                        } else {
                            Some(unsigned_text(t.id))
                        };
                        self.trade_seq = self.trade_seq + 1;
                        Some(
                            MarketDataItem::Trade(
                                TradeItem {
                                    ts,
                                    exchange: self.exchange.clone(),
                                    price: or_zero(t.price_f64()),
                                    size: or_zero(t.amount_f64()),
                                    side: t.side(),
                                    trade_id,
                                    seq_id: Some(self.trade_seq),
                                },
                            ),
                        )
                    },
                    None => None,
                }
            },
            MessageType::Event | MessageType::Unknown => None,
        }
    }

    /// Takes in a message. One about the book that has no timestamp is given
    /// that of the clock.
    pub fn handle_message<A: Fn(FloatOp, Num, Num) -> Num>(
        &mut self,
        msg: &BitstampWsMessage,
        unit: &A,
    ) -> (r: Option<MarketDataItem>)
        requires
            arithmetic(*unit),
            old(self).wf(),
            old(self)@.takes_trade(msg@) ==> old(self)@.trade_seq < u64::MAX,
        ensures
            final(self).wf(),
            exists|now: u64|
                item_view(r) == #[trigger] old(self)@.item(*unit, msg@, now) && final(self)@
                    == old(self)@.handled(*unit, msg@, now),
    {
        let now: u64 = now_millis();
        self.handle_message_at(msg, unit, now)
    }

    /// Whether the message only shows that the connection lives: never, as
    /// the pings of the WebSocket do.
    pub fn handle_heartbeat(&self, _msg: &BitstampWsMessage) -> (r: bool)
        ensures
            !r,
    {
        false
    }

    /// Milliseconds between pings.
    pub fn keepalive_interval_ms(&self) -> (r: u64)
        ensures
            r == 5000,
    {
        5000
    }

    /// The ping to send: none, as the pings of the WebSocket will do.
    pub fn ping_msg(&self) -> (r: Option<String>)
        ensures
            r is None,
    {
        None
    }

    /// The endpoint to connect to.
    pub fn url(&self) -> (r: String)
        ensures
            r@ == websocket_endpoint(self@.region, self@.exchange),
    {
        websocket_url(self.region.as_str(), self.exchange.as_str()).to_owned()
    }

    /// Prepares for a new connection, at a moment. A connection that carries
    /// the order book starts it anew, from a snapshot unless the book is left
    /// out.
    pub fn on_reconnect_at(&mut self, now: u64) -> (r: Recovery)
        requires
            old(self).wf(),
        ensures
            final(self).wf(),
            !old(self)@.data_kind.lob() ==> r is Nothing && final(self)@ == old(self)@,
            old(self)@.data_kind.lob() ==> final(self)@ == old(self)@.wiped(),
            old(self)@.data_kind.lob() && BITSTAMP_LOB_DISABLED ==> (r matches Recovery::Emit(i)
                && i@ == ItemView::Lob(bare_item(now, old(self)@.exchange))),
            old(self)@.data_kind.lob() && !BITSTAMP_LOB_DISABLED ==> (r matches Recovery::Fetch(a)
                && a@ == old(self)@.snapshot_address()),
    {
        if !self.data_kind.contains(DataKind::LOB) {
            return Recovery::Nothing;
        }
        self.reset_local();
        if BITSTAMP_LOB_DISABLED {
            return Recovery::Emit(MarketDataItem::Lob(self.bare(now)));
        }
        let depth: u64 = match self.max_level {
            Some(n) => n as u64,
            None => 400,
        };
        Recovery::Fetch(
            rest_url(self.region.as_str(), self.exchange.as_str()).to_owned().concat(
                "/order_book/",
            ).concat(self.cli_instrument.as_str()).concat("?group=").concat(
                unsigned_text(depth).as_str(),
            ),
        )
    }

    /// The item that a snapshot gives at a moment; `None` where it gives no
    /// bid or no ask.
    pub fn snapshot_item_at<A: Fn(FloatOp, Num, Num) -> Num>(
        &self,
        data: &OrderBookData,
        unit: &A,
        now: u64,
    ) -> (r: Option<MarketDataItem>)
        requires
            arithmetic(*unit),
        ensures
            item_view(r) == (match self@.snapshot_item(*unit, data@, now) {
                Some(lob) => Some(ItemView::Lob(lob)),
                None => None,
            }),
    {
        let mut book: OrderBook = OrderBook::new();
        book.apply_orderbook(data, unit);
        let ts: u64 = data.timestamp_ms().unwrap_or(now);
        match book.to_lob_item(
            ts,
            self.exchange.as_str(),
            self.max_level,
            &self.max_level_pct,
            unit,
        ) {
            Some(lob) => Some(MarketDataItem::Lob(lob)),
            None => None,
        }
    }
}

impl AdapterView {
    /// The state after messages, each with the moment it arrived at.
    pub open spec fn after_all<A: Fn(FloatOp, Num, Num) -> Num>(
        self,
        unit: A,
        msgs: Seq<(BitstampView, u64)>,
    ) -> AdapterView
        decreases msgs.len(),
    {
        if msgs.len() == 0 {
            self
        } else {
            let before = self.after_all(unit, msgs.drop_last());
            before.handled(unit, msgs.last().0, msgs.last().1)
        }
    }

    /// The book is in order, not crossed, and asks for no resync.
    pub open spec fn healthy(self) -> bool {
        self.book.depth.wf() && !self.book.depth.is_crossed() && !self.book.needs_resync
    }
}

/// A healthy state stays healthy, whatever messages come: the book is never
/// seen crossed.
pub proof fn always_healthy<A: Fn(FloatOp, Num, Num) -> Num>(
    a: AdapterView,
    unit: A,
    msgs: Seq<(BitstampView, u64)>,
)
    requires
        a.healthy(),
    ensures
        a.after_all(unit, msgs).healthy(),
    decreases msgs.len(),
{
    if msgs.len() > 0 {
        always_healthy(a, unit, msgs.drop_last());
        let before = a.after_all(unit, msgs.drop_last());
        message_never_crosses(before.book, unit, msgs.last().0);
    }
}

/// The number of trades that messages hold.
pub open spec fn trades(a: AdapterView, msgs: Seq<(BitstampView, u64)>) -> int
    decreases msgs.len(),
{
    if msgs.len() == 0 {
        0
    } else {
        trades(a, msgs.drop_last()) + (if a.takes_trade(msgs.last().0) {
            1int
        } else {
            0
        })
    }
}

/// Trades are numbered one after the other, whatever comes between them, and
/// the number of the next trade follows from how many there were.
pub proof fn trades_are_numbered<A: Fn(FloatOp, Num, Num) -> Num>(
    a: AdapterView,
    unit: A,
    msgs: Seq<(BitstampView, u64)>,
)
    requires
        a.trade_seq + trades(a, msgs) <= u64::MAX,
    ensures
        a.after_all(unit, msgs).trade_seq == a.trade_seq + trades(a, msgs),
        a.after_all(unit, msgs).data_kind == a.data_kind,
        trades(a, msgs) >= 0,
    decreases msgs.len(),
{
    if msgs.len() > 0 {
        trades_are_numbered(a, unit, msgs.drop_last());
    }
}

/// A new connection leaves the numbering of trades as it is.
pub proof fn numbering_survives_reconnecting<A: Fn(FloatOp, Num, Num) -> Num>(
    a: AdapterView,
    unit: A,
    msgs: Seq<(BitstampView, u64)>,
)
    requires
        a.trade_seq + trades(a, msgs) <= u64::MAX,
    ensures
        a.after_all(unit, msgs).wiped().trade_seq == a.trade_seq + trades(a, msgs),
{
    trades_are_numbered(a, unit, msgs);
}

/// While the book is left out, every order book item that is emitted is
/// without levels, and after one has been emitted none is until the state is
/// wiped.
pub proof fn left_out_book_is_bare<A: Fn(FloatOp, Num, Num) -> Num>(
    a: AdapterView,
    unit: A,
    msg: BitstampView,
    now: u64,
)
    requires
        BITSTAMP_LOB_DISABLED,
    ensures
        a.item(unit, msg, now) matches Some(ItemView::Lob(lob)) ==> lob.bids.len() == 0
            && lob.asks.len() == 0 && lob.exchange == a.exchange,
        (a.prev_lob matches Some(p) && p.bids.len() == 0 && p.asks.len() == 0) ==> !(a.item(
            unit,
            msg,
            now,
        ) matches Some(ItemView::Lob(_))),
{
}

/// A kind of data that is not subscribed to gives no items and changes
/// nothing.
pub proof fn other_kinds_are_ignored<A: Fn(FloatOp, Num, Num) -> Num>(
    a: AdapterView,
    unit: A,
    msg: BitstampView,
    now: u64,
)
    ensures
        !a.data_kind.lob() ==> a.handled(unit, msg, now).book == a.book && !(a.item(
            unit,
            msg,
            now,
        ) matches Some(ItemView::Lob(_))),
        !a.data_kind.trade() ==> a.handled(unit, msg, now).trade_seq == a.trade_seq && !(a.item(
            unit,
            msg,
            now,
        ) matches Some(ItemView::Trade(_))),
{
}

} // verus!

//! The OKX side of a connection.

use crate::book::filled;
use crate::book::filtered_item;
use crate::book::threshold;
use crate::book::DepthView;
use crate::book::Note;
use crate::clock::moment;
use crate::clock::now_millis;
use crate::config::DataKind;
use crate::emit::emit;
use crate::emit::emitted;
use crate::emit::remembered;
use crate::items::item_view;
use crate::items::lob_view;
use crate::items::ItemView;
use crate::items::LobItem;
use crate::items::LobView;
use crate::items::MarketDataItem;
use crate::items::TradeItem;
use crate::items::TradeView;
use crate::json::is_text;
use crate::json::num_or_zero;
use crate::json::or_zero;
use crate::ladder::best_ask;
use crate::ladder::best_bid;
use crate::ladder::prices_are_numbers;
use crate::laws::item_is_not_crossed;
use crate::laws::item_is_well_formed;
use crate::num::arithmetic;
use crate::num::FloatOp;
use crate::num::Num;
use crate::okx::lob::message_never_crosses;
use crate::okx::lob::parsed;
use crate::okx::lob::BookView;
use crate::okx::lob::OrderBook;
use crate::okx::types::levels_at;
use crate::okx::types::trade_of;
use crate::okx::types::MessageType;
use crate::okx::types::OkxView;
use crate::okx::types::OkxWsMessage;
use crate::okx::types::TradeData;
use crate::text::json_string;
use crate::text::quote;
use crate::text::requests;
use crate::text::time_of_day;
use crate::urls::websocket_endpoint;
use crate::urls::websocket_url;
use vstd::prelude::*;

verus! {

/// The request that subscribes to a channel of an instrument.
pub open spec fn subscribe_request(channel: Seq<char>, instrument: Seq<char>) -> Seq<char> {
    "{\"args\":[{\"channel\":"@ + json_string(channel) + ",\"instId\":"@ + json_string(instrument)
        + "}],\"op\":\"subscribe\"}"@
}

/// Builds the request that subscribes to a channel of an instrument.
pub fn build_subscribe_msg(channel: &str, instrument: &str) -> (r: String)
    ensures
        r@ == subscribe_request(channel@, instrument@),
{
    "{\"args\":[{\"channel\":".to_owned().concat(quote(channel).as_str()).concat(
        ",\"instId\":",
    ).concat(quote(instrument).as_str()).concat("}],\"op\":\"subscribe\"}")
}

/// A message as a line: the time, the tag and the summary.
pub open spec fn message_line(msg: OkxView, now: u64) -> Seq<char> {
    "["@ + time_of_day(moment(msg.timestamp_ms(), now) as int) + " "@ + msg.message_type().tag()
        + "] "@ + msg.summary()
}

/// Formats a message for display, as of a moment.
pub fn display_message_at(msg: &OkxWsMessage, now: u64) -> (r: String)
    ensures
        r@ == message_line(msg@, now),
{
    "[".to_owned().concat(msg.formatted_time_at(now).as_str()).concat(" ").concat(
        msg.display_type(),
    ).concat("] ").concat(msg.summary().as_str())
}

/// Formats a message for display.
pub fn display_message(msg: &OkxWsMessage) -> (r: String)
    ensures
        exists|now: u64| r@ == #[trigger] message_line(msg@, now),
{
    let now: u64 = now_millis();
    display_message_at(msg, now)
}

/// The answer to a ping of the server, which repeats the ping's timestamp.
pub open spec fn pong_answer(ts: Option<Seq<char>>) -> Seq<char> {
    match ts {
        Some(t) => "{\"event\":\"pong\",\"ts\":"@ + json_string(t) + "}"@,
        None => "{\"event\":\"pong\"}"@,
    }
}

/// The state that the connection to OKX keeps.
#[derive(Debug)]
pub struct OkxAdapter {
    pub instrument: String,
    pub region: String,
    pub max_level_pct: Num,
    pub max_level: Option<usize>,
    pub data_kind: DataKind,
    pub checksum_log: bool,
    /// The order book, with every level.
    pub book: OrderBook,
    /// What the last message about the book gave cause to note.
    pub notes: Vec<Note>,
    /// The order book item emitted last.
    pub prev_lob: Option<LobItem>,
}

/// The mathematical content of an [`OkxAdapter`].
#[verifier::ext_equal]
pub struct AdapterView {
    pub instrument: Seq<char>,
    pub region: Seq<char>,
    pub max_level_pct: Num,
    pub max_level: Option<usize>,
    pub data_kind: DataKind,
    pub checksum_log: bool,
    pub book: BookView,
    pub notes: Seq<Note>,
    pub prev_lob: Option<LobView>,
}

impl View for OkxAdapter {
    type V = AdapterView;

    open spec fn view(&self) -> AdapterView {
        AdapterView {
            instrument: self.instrument@,
            region: self.region@,
            max_level_pct: self.max_level_pct,
            max_level: self.max_level,
            data_kind: self.data_kind,
            checksum_log: self.checksum_log,
            book: self.book@,
            notes: self.notes@,
            prev_lob: lob_view(self.prev_lob),
        }
    }
}

/// The trade item that the first of the data entries stands for.
pub open spec fn trade_item(msg: OkxView) -> Option<ItemView> {
    if msg.data.len() == 0 {
        None
    } else {
        match trade_of(msg.data[0]) {
            Some(t) => Some(
                ItemView::Trade(
                    TradeView {
                        ts: moment(msg.timestamp_ms(), 0),
                        exchange: "okx"@,
                        price: num_or_zero(t.px.num()),
                        size: num_or_zero(t.sz.num()),
                        side: t.side,
                        trade_id: if t.trade_id.len() == 0 {
                            None
                        } else {
                            Some(t.trade_id)
                        },
                        seq_id: t.seq_id,
                    },
                ),
            ),
            None => None,
        }
    }
}

/// The moment a message about the book belongs to. One without a timestamp is
/// given the present, unless it says neither that it is a snapshot nor that
/// it is an update.
pub open spec fn book_moment(msg: OkxView, now: u64) -> u64 {
    moment(
        msg.timestamp_ms(),
        if msg.message_type() == MessageType::L2 {
            0
        } else {
            now
        },
    )
}

impl AdapterView {
    /// The state before any message.
    pub open spec fn initial(
        instrument: Seq<char>,
        region: Seq<char>,
        max_level_pct: Num,
        max_level: Option<usize>,
        data_kind: DataKind,
        checksum_log: bool,
    ) -> AdapterView {
        AdapterView {
            instrument,
            region,
            max_level_pct,
            max_level,
            data_kind,
            checksum_log,
            book: BookView {
                depth: DepthView::empty(),
                needs_resync: false,
                awaiting_snapshot: true,
                checksum_failed: false,
                checksum_log,
            },
            notes: Seq::empty(),
            prev_lob: None,
        }
    }

    /// The item that the book stands for.
    pub open spec fn lob<A: Fn(FloatOp, Num, Num) -> Num>(self, unit: A, ts: u64) -> Option<
        LobView,
    > {
        filtered_item(
            unit,
            self.book.depth.bids,
            self.book.depth.asks,
            ts,
            "okx"@,
            self.max_level,
            self.max_level_pct,
        )
    }

    /// The state after the book was emitted.
    pub open spec fn after_emit<A: Fn(FloatOp, Num, Num) -> Num>(
        self,
        unit: A,
        ts: u64,
    ) -> AdapterView {
        AdapterView { prev_lob: remembered(self.lob(unit, ts), self.prev_lob), ..self }
    }

    /// The state without book and without memory of what was emitted.
    pub open spec fn wiped(self) -> AdapterView {
        AdapterView { book: self.book.fresh(), prev_lob: None, ..self }
    }

    /// The state with a message taken into the book.
    pub open spec fn fed(self, msg: OkxView) -> AdapterView {
        AdapterView { book: self.book.processed(msg), notes: self.book.notes(msg), ..self }
    }

    /// The message changes the book, and the book is subscribed to.
    pub open spec fn takes_book(self, msg: OkxView) -> bool {
        self.data_kind.lob() && (msg.message_type() == MessageType::L2Snapshot
            || msg.message_type() == MessageType::L2Update || msg.message_type()
            == MessageType::L2)
    }

    /// The message is passed over: the book awaits a snapshot, and this is none.
    pub open spec fn passes_over(self, msg: OkxView) -> bool {
        self.book.awaiting_snapshot && !msg.is_snapshot()
    }

    /// The book can no longer be used: it has to be seeded anew.
    pub open spec fn lost(self) -> bool {
        self.book.needs_resync || self.book.awaiting_snapshot
    }

    /// The state after a message: the book takes in messages of its channel,
    /// a snapshot first, and is wiped where it had to be cleared.
    pub open spec fn handled<A: Fn(FloatOp, Num, Num) -> Num>(
        self,
        unit: A,
        msg: OkxView,
        now: u64,
    ) -> AdapterView {
        if self.takes_book(msg) {
            if self.passes_over(msg) {
                self
            } else if self.fed(msg).lost() {
                self.fed(msg).wiped()
            } else {
                self.fed(msg).after_emit(unit, book_moment(msg, now))
            }
        } else {
            self
        }
    }

    /// The item that a message gives.
    pub open spec fn item<A: Fn(FloatOp, Num, Num) -> Num>(
        self,
        unit: A,
        msg: OkxView,
        now: u64,
    ) -> Option<ItemView> {
        if self.takes_book(msg) {
            if self.passes_over(msg) || self.fed(msg).lost() {
                None
            } else {
                emitted(self.fed(msg).lob(unit, book_moment(msg, now)), self.prev_lob)
            }
        } else if msg.message_type() == MessageType::Trade && self.data_kind.trade() {
            trade_item(msg)
        } else {
            None
        }
    }

    /// What to subscribe to: the name of each channel and the request.
    pub open spec fn subscriptions(self) -> Seq<(Seq<char>, Seq<char>)> {
        (if self.data_kind.lob() {
            seq![("books"@, subscribe_request("books"@, self.instrument))]
        } else {
            Seq::empty()
        }) + (if self.data_kind.trade() {
            seq![("trades"@, subscribe_request("trades"@, self.instrument))]
        } else {
            Seq::empty()
        })
    }
}

impl OkxAdapter {
    /// The book is in order.
    pub open spec fn wf(self) -> bool {
        self.book.wf()
    }

    /// The state before any message.
    pub fn new(
        instrument: String,
        region: String,
        max_level_pct: Num,
        max_level: Option<usize>,
        data_kind: DataKind,
        checksum_log: bool,
    ) -> (r: OkxAdapter)
        ensures
            r.wf(),
            r@ == AdapterView::initial(
                instrument@,
                region@,
                max_level_pct,
                max_level,
                data_kind,
                checksum_log,
            ),
    {
        let mut book: OrderBook = OrderBook::new();
        book.set_checksum_log(checksum_log);
        OkxAdapter {
            instrument,
            region,
            max_level_pct,
            max_level,
            data_kind,
            checksum_log,
            book,
            notes: Vec::new(),
            prev_lob: None,
        }
    }

    /// The instrument.
    pub fn instrument(&self) -> (r: &str)
        ensures
            r@ == self@.instrument,
    {
        self.instrument.as_str()
    }

    /// The name of the exchange.
    pub fn exchange(&self) -> (r: &'static str)
        ensures
            r@ == "okx"@,
    {
        "okx"
    }

    /// Emits the book as it is now, unless it was emitted like this before.
    pub fn emit_lob<A: Fn(FloatOp, Num, Num) -> Num>(&mut self, ts: u64, unit: &A) -> (r: Option<
        MarketDataItem,
    >)
        requires
            arithmetic(*unit),
            old(self).wf(),
        ensures
            final(self).wf(),
            item_view(r) == emitted(old(self)@.lob(*unit, ts), old(self)@.prev_lob),
            final(self)@ == old(self)@.after_emit(*unit, ts),
    {
        let item: Option<LobItem> = self.book.to_lob_item(
            ts,
            "okx",
            self.max_level,
            &self.max_level_pct,
            unit,
        );
        emit(item, &mut self.prev_lob)
    }

    /// Drops the book and the memory of what was emitted.
    pub fn reset_local(&mut self)
        ensures
            final(self).wf(),
            final(self)@ == old(self)@.wiped(),
    {
        self.book.reset();
        self.prev_lob = None;
    }

    /// The channels to subscribe to, each with its request.
    pub fn subscribe_msgs(&self) -> (r: Vec<(String, String)>)
        ensures
            requests(r@) == self@.subscriptions(),
    {
        let mut msgs: Vec<(String, String)> = Vec::new();
        if self.data_kind.contains(DataKind::LOB) {
            msgs.push(("books".to_owned(), build_subscribe_msg("books", self.instrument.as_str())));
        }
        if self.data_kind.contains(DataKind::TRADE) {
            msgs.push(
                ("trades".to_owned(), build_subscribe_msg("trades", self.instrument.as_str())),
            );
        }
        assert(requests(msgs@) =~= self@.subscriptions());
        msgs
    }

    fn trade(&self, msg: &OkxWsMessage) -> (r: Option<MarketDataItem>)
        ensures
            item_view(r) == trade_item(msg@),
    {
        let trade: Option<TradeData> = match msg.first() {
            Some(d) => TradeData::from_value(d),
            None => None,
        };
        match trade {
            Some(t) => {
                let ts: u64 = msg.timestamp_ms().unwrap_or(0);
                let trade_id: Option<String> = if t.trade_id.as_str().is_empty() {
                    None
                } else {
                    Some(t.trade_id)
                };
                Some(
                    MarketDataItem::Trade(
                        TradeItem {
                            ts,
                            exchange: "okx".to_owned(),
                            price: or_zero(t.px.num()),
                            size: or_zero(t.sz.num()),
                            side: t.side,
                            trade_id,
                            seq_id: t.seq_id,
                        },
                    ),
                )
            },
            None => None,
        }
    }

    /// Takes in a message that arrives at a moment.
    pub fn handle_message_at<A: Fn(FloatOp, Num, Num) -> Num>(
        &mut self,
        msg: &OkxWsMessage,
        unit: &A,
        now: u64,
    ) -> (r: Option<MarketDataItem>)
        requires
            arithmetic(*unit),
            old(self).wf(),
        ensures
            final(self).wf(),
            item_view(r) == old(self)@.item(*unit, msg@, now),
            final(self)@ == old(self)@.handled(*unit, msg@, now),
            old(self)@.book.awaiting_snapshot && !msg@.is_snapshot() ==> !(r matches Some(
                MarketDataItem::Lob(_),
            )),
    {
        let message_type: MessageType = msg.message_type();
        match message_type {
            MessageType::L2Snapshot | MessageType::L2Update | MessageType::L2 => {
                if !self.data_kind.contains(DataKind::LOB) {
                    return None;
                }
                let otherwise: u64 = if message_type == MessageType::L2 { 0 } else { now };
                let ts: u64 = msg.timestamp_ms().unwrap_or(otherwise);
                if self.book.awaiting_snapshot() && !msg.is_snapshot() {
                    return None;
                }
                self.notes = self.book.process_msg(msg);
                if self.book.needs_resync() || self.book.awaiting_snapshot() {
                    self.reset_local();
                    return None;
                }
                self.emit_lob(ts, unit)
            },
            MessageType::Trade => {
                if !self.data_kind.contains(DataKind::TRADE) {
                    return None;
                }
                self.trade(msg)
            },
            MessageType::Event | MessageType::Unknown => None,
        }
    }

    /// Takes in a message. A snapshot or an update of the book that has no
    /// timestamp is given that of the clock.
    pub fn handle_message<A: Fn(FloatOp, Num, Num) -> Num>(
        &mut self,
        msg: &OkxWsMessage,
        unit: &A,
    ) -> (r: Option<MarketDataItem>)
        requires
            arithmetic(*unit),
            old(self).wf(),
        ensures
            final(self).wf(),
            exists|now: u64|
                item_view(r) == #[trigger] old(self)@.item(*unit, msg@, now) && final(self)@
                    == old(self)@.handled(*unit, msg@, now),
            old(self)@.book.awaiting_snapshot && !msg@.is_snapshot() ==> !(r matches Some(
                MarketDataItem::Lob(_),
            )),
    {
        let now: u64 = now_millis();
        self.handle_message_at(msg, unit, now)
    }

    /// Whether the message only shows that the connection lives.
    pub fn handle_heartbeat(&self, msg: &OkxWsMessage) -> (r: bool)
        ensures
            r == (msg@.message_type() == MessageType::Event),
    {
        matches!(msg.message_type(), MessageType::Event)
    }

    /// Milliseconds between pings.
    pub fn keepalive_interval_ms(&self) -> (r: u64)
        ensures
            r == 18000,
    {
        18000
    }

    /// The ping to send: none, as the server sends pings of its own and
    /// refuses those of a client.
    pub fn ping_msg(&self) -> (r: Option<String>)
        ensures
            r is None,
    {
        None
    }

    /// Whether the message answers a ping.
    pub fn is_pong(&self, msg: &OkxWsMessage) -> (r: bool)
        ensures
            r == (msg@.event == Some("pong"@)),
    {
        is_text(msg.event, "pong")
    }

    /// The answer to a ping of the server; `None` for any other message.
    pub fn server_ping_response(&self, msg: &OkxWsMessage) -> (r: Option<String>)
        ensures
            r is Some <==> msg@.event == Some("ping"@),
            r matches Some(s) ==> s@ == pong_answer(msg@.ts),
    {
        if is_text(msg.event, "ping") {
            match msg.ts {
                Some(t) => Some(
                    "{\"event\":\"pong\",\"ts\":".to_owned().concat(quote(t).as_str()).concat(
                        "}",
                    ),
                ),
                None => Some("{\"event\":\"pong\"}".to_owned()),
            }
        } else {
            None
        }
    }

    /// The endpoint to connect to.
    pub fn url(&self) -> (r: String)
        ensures
            r@ == websocket_endpoint(self@.region, "okx"@),
    {
        websocket_url(self.region.as_str(), "okx").to_owned()
    }

    /// Prepares for a new connection: the first snapshot on it starts the
    /// book anew. There is nothing to emit.
    pub fn on_reconnect(&mut self) -> (r: Vec<MarketDataItem>)
        ensures
            final(self).wf(),
            final(self)@ == old(self)@.wiped(),
            r@.len() == 0,
    {
        self.reset_local();
        Vec::new()
    }

    /// A state with the same settings that has seen no message.
    pub fn fresh_adapter(&self) -> (r: OkxAdapter)
        ensures
            r.wf(),
            r@ == AdapterView::initial(
                self@.instrument,
                self@.region,
                self@.max_level_pct,
                self@.max_level,
                self@.data_kind,
                self@.checksum_log,
            ),
    {
        OkxAdapter::new(
            self.instrument.clone(),
            self.region.clone(),
            self.max_level_pct.clone(),
            self.max_level,
            self.data_kind,
            self.checksum_log,
        )
    }
}

/// What befalls the state: a message that arrives at a moment, or a new
/// connection.
pub enum Occurrence {
    Message(OkxView, u64),
    Reconnect,
}

impl AdapterView {
    /// The state after an occurrence.
    pub open spec fn befallen<A: Fn(FloatOp, Num, Num) -> Num>(
        self,
        unit: A,
        o: Occurrence,
    ) -> AdapterView {
        match o {
            Occurrence::Message(msg, now) => self.handled(unit, msg, now),
            Occurrence::Reconnect => self.wiped(),
        }
    }

    /// The state after occurrences, one after the other.
    pub open spec fn after_all<A: Fn(FloatOp, Num, Num) -> Num>(
        self,
        unit: A,
        story: Seq<Occurrence>,
    ) -> AdapterView
        decreases story.len(),
    {
        if story.len() == 0 {
            self
        } else {
            self.after_all(unit, story.drop_last()).befallen(unit, story.last())
        }
    }

    /// The book is in order, not crossed, asks for no resync, and is empty as
    /// long as it awaits a snapshot.
    pub open spec fn healthy(self) -> bool {
        &&& self.book.depth.wf()
        &&& !self.book.depth.is_crossed()
        &&& !self.book.needs_resync
        &&& self.book.awaiting_snapshot ==> self.book.depth == DepthView::empty()
    }

    /// The occurrence at a place of the story is a snapshot of the book, and
    /// the book has not been wiped since.
    pub open spec fn seeded_at<A: Fn(FloatOp, Num, Num) -> Num>(
        self,
        unit: A,
        story: Seq<Occurrence>,
        i: int,
    ) -> bool {
        &&& 0 <= i < story.len()
        &&& story[i] matches Occurrence::Message(msg, _) && self.takes_book(msg)
            && msg.is_snapshot()
        &&& forall|j: int|
            i < j <= story.len() ==> !(#[trigger] self.after_all(
                unit,
                story.take(j),
            )).book.awaiting_snapshot
    }
}

/// A healthy state stays healthy, whatever befalls it: the book is never
/// seen crossed.
pub proof fn always_healthy<A: Fn(FloatOp, Num, Num) -> Num>(
    a: AdapterView,
    unit: A,
    story: Seq<Occurrence>,
)
    requires
        a.healthy(),
    ensures
        a.after_all(unit, story).healthy(),
    decreases story.len(),
{
    if story.len() > 0 {
        always_healthy(a, unit, story.drop_last());
        let before = a.after_all(unit, story.drop_last());
        match story.last() {
            Occurrence::Message(msg, _) => {
                message_never_crosses(before.book, msg);
            },
            Occurrence::Reconnect => {},
        }
    }
}

/// Whatever has befallen the state, an order book that is emitted is not
/// crossed: its best bid is below its best ask, where the prices of the book
/// are numbers.
pub proof fn emitted_book_is_not_crossed<A: Fn(FloatOp, Num, Num) -> Num>(
    a: AdapterView,
    unit: A,
    story: Seq<Occurrence>,
    msg: OkxView,
    now: u64,
)
    requires
        a.healthy(),
        prices_are_numbers(a.after_all(unit, story).fed(msg).book.depth.bids),
        prices_are_numbers(a.after_all(unit, story).fed(msg).book.depth.asks),
    ensures
        a.after_all(unit, story).item(unit, msg, now) matches Some(ItemView::Lob(lob))
            ==> lob.bids.len() > 0 && lob.asks.len() > 0 && lob.bids.last().price.below(
            lob.asks[0].price,
        ),
{
    always_healthy(a, unit, story);
    let before = a.after_all(unit, story);
    message_never_crosses(before.book, msg);
    let d = before.fed(msg).book.depth;
    let ts = book_moment(msg, now);
    let floor = threshold(unit, FloatOp::PercentBelow, best_bid(d.bids), before.max_level_pct);
    let ceiling = threshold(unit, FloatOp::PercentAbove, best_ask(d.asks), before.max_level_pct);
    item_is_well_formed(d, ts, "okx"@, before.max_level, floor, ceiling);
    item_is_not_crossed(d, ts, "okx"@, before.max_level, floor, ceiling);
}

/// A message after which the book had to be cleared gives no item and wipes
/// the state; from then on the book awaits a snapshot.
pub proof fn clearing_wipes_the_book<A: Fn(FloatOp, Num, Num) -> Num>(
    a: AdapterView,
    unit: A,
    msg: OkxView,
    now: u64,
    ts: u64,
)
    requires
        a.takes_book(msg),
        !a.passes_over(msg),
        a.fed(msg).lost(),
    ensures
        a.item(unit, msg, now) is None,
        a.handled(unit, msg, now) == a.fed(msg).wiped(),
        a.handled(unit, msg, now).book.awaiting_snapshot,
        a.handled(unit, msg, now).lob(unit, ts) is None,
        a.handled(unit, msg, now).prev_lob is None,
{
    reveal(Seq::filter);
}

/// The first order book that is emitted by a state that awaits a snapshot is
/// that snapshot: the levels of the message, filtered as configured, and
/// nothing else.
pub proof fn first_book_is_the_snapshot<A: Fn(FloatOp, Num, Num) -> Num>(
    a: AdapterView,
    unit: A,
    msg: OkxView,
    now: u64,
)
    requires
        a.healthy(),
        a.book.awaiting_snapshot,
    ensures
        a.item(unit, msg, now) matches Some(ItemView::Lob(lob)) ==> msg.is_snapshot()
            && filtered_item(
            unit,
            filled(parsed(levels_at(msg.data[0], "bids"@))),
            filled(parsed(levels_at(msg.data[0], "asks"@))),
            book_moment(msg, now),
            "okx"@,
            a.max_level,
            a.max_level_pct,
        ) == Some(lob),
{
    if a.item(unit, msg, now) matches Some(ItemView::Lob(_)) {
        let bids = levels_at(msg.data[0], "bids"@);
        let asks = levels_at(msg.data[0], "asks"@);
        assert(bids.len() == 0 ==> filled(parsed(bids)) =~= Seq::empty());
        assert(asks.len() == 0 ==> filled(parsed(asks)) =~= Seq::empty());
        assert(a.fed(msg).book.depth.bids == filled(parsed(bids)));
        assert(a.fed(msg).book.depth.asks == filled(parsed(asks)));
    }
}

/// Where a snapshot stands in a story that goes on without a wipe, it stands
/// in the longer story.
proof fn lemma_still_seeded<A: Fn(FloatOp, Num, Num) -> Num>(
    a: AdapterView,
    unit: A,
    story: Seq<Occurrence>,
    i: int,
)
    requires
        story.len() > 0,
        a.seeded_at(unit, story.drop_last(), i),
        !a.after_all(unit, story).book.awaiting_snapshot,
    ensures
        a.seeded_at(unit, story, i),
{
    let t = story.drop_last();
    assert(story[i] == t[i]);
    assert forall|j: int| i < j <= story.len() implies !(#[trigger] a.after_all(
        unit,
        story.take(j),
    )).book.awaiting_snapshot by {
        if j < story.len() {
            assert(story.take(j) =~= t.take(j));
        } else {
            assert(story.take(j) =~= story);
        }
    }
}

/// A snapshot that ends the waiting for one stands at the end of its story.
proof fn lemma_newly_seeded<A: Fn(FloatOp, Num, Num) -> Num>(
    a: AdapterView,
    unit: A,
    story: Seq<Occurrence>,
)
    requires
        story.len() > 0,
        a.after_all(unit, story.drop_last()).data_kind == a.data_kind,
        a.after_all(unit, story.drop_last()).book.awaiting_snapshot,
        !a.after_all(unit, story).book.awaiting_snapshot,
    ensures
        a.seeded_at(unit, story, story.len() - 1),
{
    let last = story.len() - 1;
    assert forall|j: int| last < j <= story.len() implies !(#[trigger] a.after_all(
        unit,
        story.take(j),
    )).book.awaiting_snapshot by {
        assert(story.take(j) =~= story);
    }
}

/// What befalls the state leaves the kinds of data as they are.
proof fn lemma_data_kind<A: Fn(FloatOp, Num, Num) -> Num>(
    a: AdapterView,
    unit: A,
    story: Seq<Occurrence>,
)
    ensures
        a.after_all(unit, story).data_kind == a.data_kind,
    decreases story.len(),
{
    if story.len() > 0 {
        lemma_data_kind(a, unit, story.drop_last());
    }
}

proof fn lemma_seeded<A: Fn(FloatOp, Num, Num) -> Num>(
    a: AdapterView,
    unit: A,
    story: Seq<Occurrence>,
)
    requires
        a.book.awaiting_snapshot,
        !a.after_all(unit, story).book.awaiting_snapshot,
    ensures
        exists|i: int| #[trigger] a.seeded_at(unit, story, i),
    decreases story.len(),
{
    if story.len() > 0 {
        let t = story.drop_last();
        if a.after_all(unit, t).book.awaiting_snapshot {
            lemma_data_kind(a, unit, t);
            lemma_newly_seeded(a, unit, story);
        } else {
            lemma_seeded(a, unit, t);
            let i = choose|i: int| #[trigger] a.seeded_at(unit, t, i);
            lemma_still_seeded(a, unit, story, i);
        }
    }
}

/// A snapshot comes first: whatever befalls a state that awaits one, an order
/// book is emitted only by a snapshot, or after a snapshot since which the
/// book has not been wiped.
pub proof fn snapshot_comes_first<A: Fn(FloatOp, Num, Num) -> Num>(
    a: AdapterView,
    unit: A,
    story: Seq<Occurrence>,
    msg: OkxView,
    now: u64,
)
    requires
        a.book.awaiting_snapshot,
    ensures
        a.after_all(unit, story).item(unit, msg, now) matches Some(ItemView::Lob(_)) ==> (
        a.takes_book(msg) && msg.is_snapshot()) || exists|i: int|
            #[trigger] a.seeded_at(unit, story, i),
{
    lemma_data_kind(a, unit, story);
    if !a.after_all(unit, story).book.awaiting_snapshot {
        lemma_seeded(a, unit, story);
    }
}

/// A wiped state awaits a snapshot and holds no book.
pub proof fn wiping_awaits_a_snapshot(a: AdapterView)
    ensures
        a.wiped().book.awaiting_snapshot,
        a.wiped().healthy(),
        a.wiped().prev_lob is None,
{
}

/// A kind of data that is not subscribed to gives no items and changes nothing.
pub proof fn other_kinds_are_ignored<A: Fn(FloatOp, Num, Num) -> Num>(
    a: AdapterView,
    unit: A,
    msg: OkxView,
    now: u64,
)
    ensures
        !a.data_kind.lob() ==> a.handled(unit, msg, now) == a && !(a.item(
            unit,
            msg,
            now,
        ) matches Some(ItemView::Lob(_))),
        !a.data_kind.trade() ==> !(a.item(unit, msg, now) matches Some(ItemView::Trade(_))),
{
}

} // verus!

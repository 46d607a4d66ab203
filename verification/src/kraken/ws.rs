//! The Kraken side of a connection.

use crate::book::filled;
use crate::book::filtered_item;
use crate::book::threshold;
use crate::book::DepthView;
use crate::book::Note;
use crate::clock::moment;
use crate::clock::now_millis;
use crate::config::DataKind;
use crate::emit::emit;
use crate::emit::emitted;
use crate::emit::remembered;
use crate::items::item_view;
use crate::items::lob_view;
use crate::items::ItemView;
use crate::items::LobItem;
use crate::items::LobView;
use crate::items::MarketDataItem;
use crate::items::TradeItem;
use crate::items::TradeView;
use crate::json::is_text;
use crate::kraken::lob::levels_at;
use crate::kraken::lob::message_never_crosses;
use crate::kraken::lob::BookView;
use crate::kraken::lob::OrderBook;
use crate::kraken::types::trade_of;
use crate::kraken::types::KrakenView;
use crate::kraken::types::KrakenWsMessage;
use crate::kraken::types::MessageType;
use crate::kraken::types::TradeData;
use crate::ladder::best_ask;
use crate::ladder::best_bid;
use crate::ladder::prices_are_numbers;
use crate::laws::item_is_not_crossed;
use crate::laws::item_is_well_formed;
use crate::line::add_line;
use crate::line::add_text;
use crate::line::line;
use crate::line::Piece;
use crate::line::PieceView;
use crate::num::arithmetic;
use crate::num::FloatOp;
use crate::num::Num;
use crate::text::json_string;
use crate::text::parse_unsigned;
use crate::text::quote;
use crate::text::requests;
use crate::text::time_of_day;
use crate::text::unsigned_value;
use crate::urls::websocket_endpoint;
use crate::urls::websocket_url;
use vstd::prelude::*;

verus! {

/// The request that subscribes to a channel of an instrument.
pub open spec fn subscribe_request(channel: Seq<char>, instrument: Seq<char>) -> Seq<char> {
    "{\"method\":\"subscribe\",\"params\":{\"channel\":"@ + json_string(channel)
        + ",\"symbol\":["@ + json_string(instrument) + "]}}"@
}

/// Builds the request that subscribes to a channel of an instrument.
pub fn build_subscribe_msg(channel: &str, instrument: &str) -> (r: String)
    ensures
        r@ == subscribe_request(channel@, instrument@),
{
    "{\"method\":\"subscribe\",\"params\":{\"channel\":".to_owned().concat(
        quote(channel).as_str(),
    ).concat(",\"symbol\":[").concat(quote(instrument).as_str()).concat("]}}")
}

/// Builds the request that subscribes to the list of instruments.
pub fn build_instrument_subscribe_msg() -> (r: String)
    ensures
        r@ == "{\"method\":\"subscribe\",\"params\":{\"channel\":\"instrument\"}}"@,
{
    "{\"method\":\"subscribe\",\"params\":{\"channel\":\"instrument\"}}".to_owned()
}

/// A message as a line: the time, the tag and the summary.
pub open spec fn message_line(msg: KrakenView, now: u64) -> Seq<PieceView> {
    seq![
        PieceView::Text(
            "["@ + time_of_day(moment(msg.timestamp_ms(), now) as int) + " "@
                + msg.message_type().tag() + "] "@,
        ),
    ] + msg.summary()
}

/// Formats a message for display, as of a moment.
pub fn display_message_at(msg: &KrakenWsMessage, now: u64) -> (r: Vec<Piece>)
    ensures
        line(r@) == message_line(msg@, now),
{
    let mut out: Vec<Piece> = Vec::new();
    assert(line(out@) =~= Seq::<PieceView>::empty());
    let head: String = "[".to_owned().concat(msg.formatted_time_at(now).as_str()).concat(
        " ",
    ).concat(msg.display_type()).concat("] ");
    add_text(&mut out, head.as_str());
    add_line(&mut out, msg.summary());
    assert(line(out@) =~= message_line(msg@, now));
    out
}

/// Formats a message for display.
pub fn display_message(msg: &KrakenWsMessage) -> (r: Vec<Piece>)
    ensures
        exists|now: u64| line(r@) == #[trigger] message_line(msg@, now),
{
    let now: u64 = now_millis();
    display_message_at(msg, now)
}

/// The state that the connection to Kraken keeps.
#[derive(Debug)]
pub struct KrakenAdapter {
    pub instrument: String,
    pub region: String,
    pub max_level_pct: Num,
    pub max_level: Option<usize>,
    pub data_kind: DataKind,
    pub checksum_log: bool,
    pub crossguard_log: bool,
    /// The order book, with every level.
    pub book: OrderBook,
    /// What the last message about the book gave cause to note.
    pub notes: Vec<Note>,
    /// The order book item emitted last.
    pub prev_lob: Option<LobItem>,
}

/// The mathematical content of a [`KrakenAdapter`].
#[verifier::ext_equal]
pub struct AdapterView {
    pub instrument: Seq<char>,
    pub region: Seq<char>,
    pub max_level_pct: Num,
    pub max_level: Option<usize>,
    pub data_kind: DataKind,
    pub checksum_log: bool,
    pub crossguard_log: bool,
    pub book: BookView,
    pub notes: Seq<Note>,
    pub prev_lob: Option<LobView>,
}

impl View for KrakenAdapter {
    type V = AdapterView;

    open spec fn view(&self) -> AdapterView {
        AdapterView {
            instrument: self.instrument@,
            region: self.region@,
            max_level_pct: self.max_level_pct,
            max_level: self.max_level,
            data_kind: self.data_kind,
            checksum_log: self.checksum_log,
            crossguard_log: self.crossguard_log,
            book: self.book@,
            notes: self.notes@,
            prev_lob: lob_view(self.prev_lob),
        }
    }
}

/// The trade item that the first of the data entries stands for.
pub open spec fn trade_item(msg: KrakenView) -> Option<ItemView> {
    if msg.data.len() == 0 {
        None
    } else {
        match trade_of(msg.data[0]) {
            Some(t) => Some(
                ItemView::Trade(
                    TradeView {
                        ts: moment(msg.timestamp_ms(), 0),
                        exchange: "kraken"@,
                        price: t.price,
                        size: t.qty,
                        side: t.side,
                        trade_id: if t.trade_id.len() == 0 {
                            None
                        } else {
                            Some(t.trade_id)
                        },
                        seq_id: if t.trade_id.len() == 0 {
                            None
                        } else {
                            unsigned_value(t.trade_id)
                        },
                    },
                ),
            ),
            None => None,
        }
    }
}

impl AdapterView {
    /// The item that the book stands for.
    pub open spec fn lob<A: Fn(FloatOp, Num, Num) -> Num>(self, unit: A, ts: u64) -> Option<
        LobView,
    > {
        filtered_item(
            unit,
            self.book.depth.bids,
            self.book.depth.asks,
            ts,
            "kraken"@,
            self.max_level,
            self.max_level_pct,
        )
    }

    /// The state after the book was emitted.
    pub open spec fn after_emit<A: Fn(FloatOp, Num, Num) -> Num>(
        self,
        unit: A,
        ts: u64,
    ) -> AdapterView {
        AdapterView { prev_lob: remembered(self.lob(unit, ts), self.prev_lob), ..self }
    }

    /// The state without book and without memory of what was emitted.
    pub open spec fn wiped(self) -> AdapterView {
        AdapterView { book: self.book.fresh(), prev_lob: None, ..self }
    }

    /// The state with a message taken into the book.
    pub open spec fn fed(self, msg: KrakenView) -> AdapterView {
        AdapterView { book: self.book.processed(msg), notes: self.book.notes(msg), ..self }
    }

    /// The message changes the book, and the book is subscribed to.
    pub open spec fn takes_book(self, msg: KrakenView) -> bool {
        self.data_kind.lob() && (msg.message_type() == MessageType::L2Snapshot
            || msg.message_type() == MessageType::L2Update || msg.message_type()
            == MessageType::L2)
    }

    /// The message is passed over: the book awaits a snapshot, and this is none.
    pub open spec fn passes_over(self, msg: KrakenView) -> bool {
        self.book.awaiting_snapshot && !msg.is_snapshot()
    }

    /// The book can no longer be used: it has to be seeded anew.
    pub open spec fn lost(self) -> bool {
        self.book.needs_resync || self.book.awaiting_snapshot
    }

    /// The state after a message: the book takes in messages of its channel,
    /// a snapshot first, and is wiped where messages are missing or it had to be
    /// cleared.
    pub open spec fn handled<A: Fn(FloatOp, Num, Num) -> Num>(
        self,
        unit: A,
        msg: KrakenView,
        now: u64,
    ) -> AdapterView {
        if self.takes_book(msg) {
            if self.passes_over(msg) {
                self
            } else if self.fed(msg).lost() {
                self.fed(msg).wiped()
            } else {
                self.fed(msg).after_emit(unit, moment(msg.timestamp_ms(), now))
            }
        } else {
            self
        }
    }

    /// The item that a message gives.
    pub open spec fn item<A: Fn(FloatOp, Num, Num) -> Num>(
        self,
        unit: A,
        msg: KrakenView,
        now: u64,
    ) -> Option<ItemView> {
        if self.takes_book(msg) {
            if self.passes_over(msg) || self.fed(msg).lost() {
                None
            } else {
                emitted(
                    self.fed(msg).lob(unit, moment(msg.timestamp_ms(), now)),
                    self.prev_lob,
                )
            }
        } else if msg.message_type() == MessageType::Trade && self.data_kind.trade() {
            trade_item(msg)
        } else {
            None
        }
    }

    /// What to subscribe to: the name of each channel and the request.
    pub open spec fn subscriptions(self) -> Seq<(Seq<char>, Seq<char>)> {
        (if self.data_kind.lob() {
            seq![("book"@, subscribe_request("book"@, self.instrument))]
        } else {
            Seq::empty()
        }) + (if self.data_kind.trade() {
            seq![("trade"@, subscribe_request("trade"@, self.instrument))]
        } else {
            Seq::empty()
        })
    }
}

impl KrakenAdapter {
    /// The book is in order.
    pub open spec fn wf(self) -> bool {
        self.book.wf()
    }

    /// The state before any message.
    pub fn new(
        instrument: String,
        region: String,
        max_level_pct: Num,
        max_level: Option<usize>,
        data_kind: DataKind,
        checksum_log: bool,
        crossguard_log: bool,
    ) -> (r: KrakenAdapter)
        ensures
            r.wf(),
            r@ == (AdapterView {
                instrument: instrument@,
                region: region@,
                max_level_pct,
                max_level,
                data_kind,
                checksum_log,
                crossguard_log,
                book: BookView {
                    depth: DepthView::empty(),
                    last_sequence: None,
                    needs_resync: false,
                    awaiting_snapshot: true,
                    checksum_failed: false,
                    checksum_log,
                    crossguard_log,
                },
                notes: Seq::empty(),
                prev_lob: None,
            }),
    {
        let mut book: OrderBook = OrderBook::new();
        book.set_checksum_log(checksum_log);
        book.set_crossguard_log(crossguard_log);
        KrakenAdapter {
            instrument,
            region,
            max_level_pct,
            max_level,
            data_kind,
            checksum_log,
            crossguard_log,
            book,
            notes: Vec::new(),
            prev_lob: None,
        }
    }

    /// The instrument.
    pub fn instrument(&self) -> (r: &str)
        ensures
            r@ == self@.instrument,
    {
        self.instrument.as_str()
    }

    /// The name of the exchange.
    pub fn exchange(&self) -> (r: &'static str)
        ensures
            r@ == "kraken"@,
    {
        "kraken"
    }

    /// Emits the book as it is now, unless it was emitted like this before.
    pub fn emit_lob<A: Fn(FloatOp, Num, Num) -> Num>(&mut self, ts: u64, unit: &A) -> (r: Option<
        MarketDataItem,
    >)
        requires
            arithmetic(*unit),
            old(self).wf(),
        ensures
            final(self).wf(),
            item_view(r) == emitted(old(self)@.lob(*unit, ts), old(self)@.prev_lob),
            final(self)@ == old(self)@.after_emit(*unit, ts),
    {
        let item: Option<LobItem> = self.book.to_lob_item(
            ts,
            "kraken",
            self.max_level,
            &self.max_level_pct,
            unit,
        );
        emit(item, &mut self.prev_lob)
    }

    /// Drops the book and the memory of what was emitted.
    pub fn reset_local(&mut self)
        ensures
            final(self).wf(),
            final(self)@ == old(self)@.wiped(),
    {
        self.book.reset();
        self.prev_lob = None;
    }

    /// The channels to subscribe to, each with its request.
    pub fn subscribe_msgs(&self) -> (r: Vec<(String, String)>)
        ensures
            requests(r@) == self@.subscriptions(),
    {
        let mut msgs: Vec<(String, String)> = Vec::new();
        if self.data_kind.contains(DataKind::LOB) {
            msgs.push(("book".to_owned(), build_subscribe_msg("book", self.instrument.as_str())));
        }
        if self.data_kind.contains(DataKind::TRADE) {
            msgs.push(("trade".to_owned(), build_subscribe_msg("trade", self.instrument.as_str())));
        }
        assert(requests(msgs@) =~= self@.subscriptions());
        msgs
    }

    fn trade(&self, msg: &KrakenWsMessage) -> (r: Option<MarketDataItem>)
        ensures
            item_view(r) == trade_item(msg@),
    {
        let trade: Option<TradeData> = match msg.first() {
            Some(d) => TradeData::from_value(d),
            None => None,
        };
        match trade {
            Some(t) => {
                let ts: u64 = msg.timestamp_ms().unwrap_or(0);
                let named: bool = !t.trade_id.as_str().is_empty();
                let seq_id: Option<u64> = if named {
                    parse_unsigned(t.trade_id.as_str())
                } else {
                    None
                };
                let trade_id: Option<String> = if named {
                    Some(t.trade_id)
                } else {
                    None
                };
                Some(
                    MarketDataItem::Trade(
                        TradeItem {
                            ts,
                            exchange: "kraken".to_owned(),
                            price: t.price,
                            size: t.qty,
                            side: t.side,
                            trade_id,
                            seq_id,
                        },
                    ),
                )
            },
            None => None,
        }
    }

    /// Takes in a message that arrives at a moment.
    pub fn handle_message_at<A: Fn(FloatOp, Num, Num) -> Num>(
        &mut self,
        msg: &KrakenWsMessage,
        unit: &A,
        now: u64,
    ) -> (r: Option<MarketDataItem>)
        requires
            arithmetic(*unit),
            old(self).wf(),
        ensures
            final(self).wf(),
            item_view(r) == old(self)@.item(*unit, msg@, now),
            final(self)@ == old(self)@.handled(*unit, msg@, now),
            old(self)@.book.awaiting_snapshot && !msg@.is_snapshot() ==> !(r matches Some(
                MarketDataItem::Lob(_),
            )),
    {
        match msg.message_type() {
            MessageType::L2Snapshot | MessageType::L2Update | MessageType::L2 => {
                if !self.data_kind.contains(DataKind::LOB) {
                    return None;
                }
                let ts: u64 = msg.timestamp_ms().unwrap_or(now);
                if self.book.awaiting_snapshot() && !msg.is_snapshot() {
                    return None;
                }
                self.notes = self.book.process_msg(msg);
                if self.book.needs_resync() || self.book.awaiting_snapshot() {
                    self.reset_local();
                    return None;
                }
                self.emit_lob(ts, unit)
            },
            MessageType::Trade => {
                if !self.data_kind.contains(DataKind::TRADE) {
                    return None;
                }
                self.trade(msg)
            },
            MessageType::Heartbeat | MessageType::Status | MessageType::Instrument
            | MessageType::Event | MessageType::Unknown => None,
        }
    }

    /// Takes in a message. One about the book that has no timestamp is given
    /// that of the clock.
    pub fn handle_message<A: Fn(FloatOp, Num, Num) -> Num>(
        &mut self,
        msg: &KrakenWsMessage,
        unit: &A,
    ) -> (r: Option<MarketDataItem>)
        requires
            arithmetic(*unit),
            old(self).wf(),
        ensures
            final(self).wf(),
            exists|now: u64|
                item_view(r) == #[trigger] old(self)@.item(*unit, msg@, now) && final(self)@
                    == old(self)@.handled(*unit, msg@, now),
            old(self)@.book.awaiting_snapshot && !msg@.is_snapshot() ==> !(r matches Some(
                MarketDataItem::Lob(_),
            )),
    {
        let now: u64 = now_millis();
        self.handle_message_at(msg, unit, now)
    }

    /// Whether the message only shows that the connection lives.
    pub fn handle_heartbeat(&self, msg: &KrakenWsMessage) -> (r: bool)
        ensures
            r == (msg@.message_type() == MessageType::Heartbeat || msg@.message_type()
                == MessageType::Event),
    {
        matches!(msg.message_type(), MessageType::Heartbeat | MessageType::Event)
    }

    /// Milliseconds between pings.
    pub fn keepalive_interval_ms(&self) -> (r: u64)
        ensures
            r == 6000,
    {
        6000
    }

    /// The ping to send.
    pub fn ping_msg(&self) -> (r: Option<String>)
        ensures
            r matches Some(s) && s@ == "{\"method\":\"ping\"}"@,
    {
        Some("{\"method\":\"ping\"}".to_owned())
    }

    /// Whether the message answers a ping.
    pub fn is_pong(&self, msg: &KrakenWsMessage) -> (r: bool)
        ensures
            r == (msg@.method == Some("pong"@)),
    {
        is_text(msg.method, "pong")
    }

    /// The endpoint to connect to.
    pub fn url(&self) -> (r: String)
        ensures
            r@ == websocket_endpoint(self@.region, "kraken"@),
    {
        websocket_url(self.region.as_str(), "kraken").to_owned()
    }

    /// Prepares for a new connection: the first snapshot on it starts the
    /// book anew. There is nothing to emit.
    pub fn on_reconnect(&mut self) -> (r: Vec<MarketDataItem>)
        ensures
            final(self).wf(),
            final(self)@ == old(self)@.wiped(),
            r@.len() == 0,
    {
        self.reset_local();
        Vec::new()
    }
}

/// What befalls the state: a message that arrives at a moment, or a new
/// connection.
pub enum Occurrence {
    Message(KrakenView, u64),
    Reconnect,
}

impl AdapterView {
    /// The state after an occurrence.
    pub open spec fn befallen<A: Fn(FloatOp, Num, Num) -> Num>(
        self,
        unit: A,
        o: Occurrence,
    ) -> AdapterView {
        match o {
            Occurrence::Message(msg, now) => self.handled(unit, msg, now),
            Occurrence::Reconnect => self.wiped(),
        }
    }

    /// The state after occurrences, one after the other.
    pub open spec fn after_all<A: Fn(FloatOp, Num, Num) -> Num>(
        self,
        unit: A,
        story: Seq<Occurrence>,
    ) -> AdapterView
        decreases story.len(),
    {
        if story.len() == 0 {
            self
        } else {
            self.after_all(unit, story.drop_last()).befallen(unit, story.last())
        }
    }

    /// The book is in order, not crossed, no message is known to be missing,
    /// and it is empty as long as it awaits a snapshot.
    pub open spec fn healthy(self) -> bool {
        &&& self.book.depth.wf()
        &&& !self.book.depth.is_crossed()
        &&& !self.book.needs_resync
        &&& self.book.awaiting_snapshot ==> self.book.depth == DepthView::empty()
    }

    /// The occurrence at a place of the story is a snapshot of the book, and
    /// the book has not been wiped since.
    pub open spec fn seeded_at<A: Fn(FloatOp, Num, Num) -> Num>(
        self,
        unit: A,
        story: Seq<Occurrence>,
        i: int,
    ) -> bool {
        &&& 0 <= i < story.len()
        &&& story[i] matches Occurrence::Message(msg, _) && self.takes_book(msg)
            && msg.is_snapshot()
        &&& forall|j: int|
            i < j <= story.len() ==> !(#[trigger] self.after_all(
                unit,
                story.take(j),
            )).book.awaiting_snapshot
    }
}

/// A healthy state stays healthy, whatever befalls it: the book is never
/// seen crossed, and never used while messages are missing from it.
pub proof fn always_healthy<A: Fn(FloatOp, Num, Num) -> Num>(
    a: AdapterView,
    unit: A,
    story: Seq<Occurrence>,
)
    requires
        a.healthy(),
    ensures
        a.after_all(unit, story).healthy(),
    decreases story.len(),
{
    if story.len() > 0 {
        always_healthy(a, unit, story.drop_last());
        let before = a.after_all(unit, story.drop_last());
        match story.last() {
            Occurrence::Message(msg, _) => {
                message_never_crosses(before.book, msg);
            },
            Occurrence::Reconnect => {},
        }
    }
}

/// Whatever has befallen the state, an order book that is emitted is not
/// crossed: its best bid is below its best ask, where the prices of the book
/// are numbers.
pub proof fn emitted_book_is_not_crossed<A: Fn(FloatOp, Num, Num) -> Num>(
    a: AdapterView,
    unit: A,
    story: Seq<Occurrence>,
    msg: KrakenView,
    now: u64,
)
    requires
        a.healthy(),
        prices_are_numbers(a.after_all(unit, story).fed(msg).book.depth.bids),
        prices_are_numbers(a.after_all(unit, story).fed(msg).book.depth.asks),
    ensures
        a.after_all(unit, story).item(unit, msg, now) matches Some(ItemView::Lob(lob))
            ==> lob.bids.len() > 0 && lob.asks.len() > 0 && lob.bids.last().price.below(
            lob.asks[0].price,
        ),
{
    always_healthy(a, unit, story);
    let before = a.after_all(unit, story);
    message_never_crosses(before.book, msg);
    let d = before.fed(msg).book.depth;
    let ts = moment(msg.timestamp_ms(), now);
    let floor = threshold(unit, FloatOp::PercentBelow, best_bid(d.bids), before.max_level_pct);
    let ceiling = threshold(unit, FloatOp::PercentAbove, best_ask(d.asks), before.max_level_pct);
    item_is_well_formed(d, ts, "kraken"@, before.max_level, floor, ceiling);
    item_is_not_crossed(d, ts, "kraken"@, before.max_level, floor, ceiling);
}

/// A message that shows that others are missing, or after which the book had
/// to be cleared, gives no item and wipes the state; from then on the book
/// awaits a snapshot.
pub proof fn gap_wipes_the_book<A: Fn(FloatOp, Num, Num) -> Num>(
    a: AdapterView,
    unit: A,
    msg: KrakenView,
    now: u64,
    ts: u64,
)
    requires
        a.takes_book(msg),
        !a.passes_over(msg),
        a.fed(msg).lost(),
    ensures
        a.item(unit, msg, now) is None,
        a.handled(unit, msg, now) == a.fed(msg).wiped(),
        a.handled(unit, msg, now).book.awaiting_snapshot,
        a.handled(unit, msg, now).lob(unit, ts) is None,
        a.handled(unit, msg, now).prev_lob is None,
{
    reveal(Seq::filter);
}

/// The first order book that is emitted by a state that awaits a snapshot is
/// that snapshot: the levels of the message, filtered as configured, and
/// nothing else.
pub proof fn first_book_is_the_snapshot<A: Fn(FloatOp, Num, Num) -> Num>(
    a: AdapterView,
    unit: A,
    msg: KrakenView,
    now: u64,
)
    requires
        a.healthy(),
        a.book.awaiting_snapshot,
    ensures
        a.item(unit, msg, now) matches Some(ItemView::Lob(lob)) ==> msg.is_snapshot()
            && filtered_item(
            unit,
            filled(levels_at(msg.data[0], "bids"@)),
            filled(levels_at(msg.data[0], "asks"@)),
            moment(msg.timestamp_ms(), now),
            "kraken"@,
            a.max_level,
            a.max_level_pct,
        ) == Some(lob),
{
    if a.item(unit, msg, now) matches Some(ItemView::Lob(_)) {
        let bids = levels_at(msg.data[0], "bids"@);
        let asks = levels_at(msg.data[0], "asks"@);
        assert(bids.len() == 0 ==> filled(bids) =~= Seq::empty());
        assert(asks.len() == 0 ==> filled(asks) =~= Seq::empty());
        assert(a.fed(msg).book.depth.bids == filled(bids));
        assert(a.fed(msg).book.depth.asks == filled(asks));
    }
}

/// Where a snapshot stands in a story that goes on without a wipe, it stands
/// in the longer story.
proof fn lemma_still_seeded<A: Fn(FloatOp, Num, Num) -> Num>(
    a: AdapterView,
    unit: A,
    story: Seq<Occurrence>,
    i: int,
)
    requires
        story.len() > 0,
        a.seeded_at(unit, story.drop_last(), i),
        !a.after_all(unit, story).book.awaiting_snapshot,
    ensures
        a.seeded_at(unit, story, i),
{
    let t = story.drop_last();
    assert(story[i] == t[i]);
    assert forall|j: int| i < j <= story.len() implies !(#[trigger] a.after_all(
        unit,
        story.take(j),
    )).book.awaiting_snapshot by {
        if j < story.len() {
            assert(story.take(j) =~= t.take(j));
        } else {
            assert(story.take(j) =~= story);
        }
    }
}

/// A snapshot that ends the waiting for one stands at the end of its story.
proof fn lemma_newly_seeded<A: Fn(FloatOp, Num, Num) -> Num>(
    a: AdapterView,
    unit: A,
    story: Seq<Occurrence>,
)
    requires
        story.len() > 0,
        a.after_all(unit, story.drop_last()).data_kind == a.data_kind,
        a.after_all(unit, story.drop_last()).book.awaiting_snapshot,
        !a.after_all(unit, story).book.awaiting_snapshot,
    ensures
        a.seeded_at(unit, story, story.len() - 1),
{
    let last = story.len() - 1;
    assert forall|j: int| last < j <= story.len() implies !(#[trigger] a.after_all(
        unit,
        story.take(j),
    )).book.awaiting_snapshot by {
        assert(story.take(j) =~= story);
    }
}

/// What befalls the state leaves the kinds of data as they are.
proof fn lemma_data_kind<A: Fn(FloatOp, Num, Num) -> Num>(
    a: AdapterView,
    unit: A,
    story: Seq<Occurrence>,
)
    ensures
        a.after_all(unit, story).data_kind == a.data_kind,
    decreases story.len(),
{
    if story.len() > 0 {
        lemma_data_kind(a, unit, story.drop_last());
    }
}

proof fn lemma_seeded<A: Fn(FloatOp, Num, Num) -> Num>(
    a: AdapterView,
    unit: A,
    story: Seq<Occurrence>,
)
    requires
        a.book.awaiting_snapshot,
        !a.after_all(unit, story).book.awaiting_snapshot,
    ensures
        exists|i: int| #[trigger] a.seeded_at(unit, story, i),
    decreases story.len(),
{
    if story.len() > 0 {
        let t = story.drop_last();
        if a.after_all(unit, t).book.awaiting_snapshot {
            lemma_data_kind(a, unit, t);
            lemma_newly_seeded(a, unit, story);
        } else {
            lemma_seeded(a, unit, t);
            let i = choose|i: int| #[trigger] a.seeded_at(unit, t, i);
            lemma_still_seeded(a, unit, story, i);
        }
    }
}

/// A snapshot comes first: whatever befalls a state that awaits one, an order
/// book is emitted only by a snapshot, or after a snapshot since which the
/// book has not been wiped.
pub proof fn snapshot_comes_first<A: Fn(FloatOp, Num, Num) -> Num>(
    a: AdapterView,
    unit: A,
    story: Seq<Occurrence>,
    msg: KrakenView,
    now: u64,
)
    requires
        a.book.awaiting_snapshot,
    ensures
        a.after_all(unit, story).item(unit, msg, now) matches Some(ItemView::Lob(_)) ==> (
        a.takes_book(msg) && msg.is_snapshot()) || exists|i: int|
            #[trigger] a.seeded_at(unit, story, i),
{
    lemma_data_kind(a, unit, story);
    if !a.after_all(unit, story).book.awaiting_snapshot {
        lemma_seeded(a, unit, story);
    }
}

/// A wiped state awaits a snapshot and holds no book.
pub proof fn wiping_awaits_a_snapshot(a: AdapterView)
    ensures
        a.wiped().book.awaiting_snapshot,
        a.wiped().healthy(),
        a.wiped().prev_lob is None,
{
}

/// A kind of data that is not subscribed to gives no items and changes nothing.
pub proof fn other_kinds_are_ignored<A: Fn(FloatOp, Num, Num) -> Num>(
    a: AdapterView,
    unit: A,
    msg: KrakenView,
    now: u64,
)
    ensures
        !a.data_kind.lob() ==> a.handled(unit, msg, now) == a && !(a.item(
            unit,
            msg,
            now,
        ) matches Some(ItemView::Lob(_))),
        !a.data_kind.trade() ==> !(a.item(unit, msg, now) matches Some(ItemView::Trade(_))),
{
}

} // verus!

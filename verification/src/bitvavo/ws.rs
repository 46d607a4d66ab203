//! The Bitvavo side of a connection.

use crate::bitvavo::lob::readable;
use crate::bitvavo::lob::updates_keep_order;
use crate::bitvavo::lob::BookView;
use crate::bitvavo::lob::OrderBook;
use crate::bitvavo::types::BitvavoView;
use crate::bitvavo::types::BitvavoWsMessage;
use crate::bitvavo::types::BookSnapshot;
use crate::bitvavo::types::BookUpdate;
use crate::bitvavo::types::MessageType;
use crate::bitvavo::types::TradeDataView;
use crate::book::filtered_item;
use crate::book::DepthView;
use crate::clock::moment;
use crate::clock::now_millis;
use crate::config::DataKind;
use crate::emit::emit;
use crate::emit::emitted;
use crate::emit::remembered;
use crate::items::item_view;
use crate::items::lob_view;
use crate::items::text_view;
use crate::items::ItemView;
use crate::items::LobItem;
use crate::items::LobView;
use crate::items::MarketDataItem;
use crate::items::TradeItem;
use crate::items::TradeView;
use crate::json::num_or_zero;
use crate::json::or_zero;
use crate::num::arithmetic;
use crate::num::FloatOp;
use crate::num::Num;
use crate::text::decimal;
use crate::text::hex;
use crate::text::hex_text;
use crate::text::json_string;
use crate::text::quote;
use crate::text::requests;
use crate::text::unsigned_text;
use crate::urls::websocket_endpoint;
use crate::urls::websocket_url;
use crate::wsloop::secs_span;
use hmac::Mac;
use std::time::Duration;
use vstd::prelude::*;
use vstd::utf8::encode_utf8;

verus! {

/// The HMAC-SHA256 of a message under a key.
pub uninterp spec fn hmac_sha256(key: Seq<u8>, message: Seq<u8>) -> Seq<u8>;

/// `hmac::Hmac` over `sha2::Sha256`, keyed with `new_from_slice`, which takes
/// a key of any length, and fed the message: 32 bytes that depend on the key
/// and the message alone.
#[verifier::external_body]
fn sign(key: &[u8], message: &[u8]) -> (r: Vec<u8>)
    ensures
        r@ == hmac_sha256(key@, message@),
        r@.len() == 32,
{
    let mut mac = hmac::Hmac::<sha2::Sha256>::new_from_slice(key).expect("any length will do");
    mac.update(message);
    mac.finalize().into_bytes().to_vec()
}

/// The signature of a moment: the HMAC-SHA256, in hexadecimal, of the moment
/// followed by what is requested.
pub open spec fn signature(secret: Seq<char>, timestamp: u64) -> Seq<char> {
    hex(
        hmac_sha256(
            encode_utf8(secret),
            encode_utf8(decimal(timestamp as nat) + "GET/v2/websocket"@),
        ),
    )
}

/// The request that authenticates, signed for a moment.
pub open spec fn auth_request(key: Seq<char>, secret: Seq<char>, timestamp: u64) -> Seq<char> {
    "{\"action\":\"authenticate\",\"key\":"@ + json_string(key) + ",\"signature\":"@
        + json_string(signature(secret, timestamp)) + ",\"timestamp\":"@ + decimal(
        timestamp as nat,
    ) + "}"@
}

/// Builds the request that authenticates, signed for a moment. The signature
/// has 64 digits.
pub fn build_auth_msg_at(key: &str, secret: &str, timestamp: u64) -> (r: String)
    ensures
        r@ == auth_request(key@, secret@, timestamp),
        signature(secret@, timestamp).len() == 64,
{
    let payload: String = unsigned_text(timestamp).concat("GET/v2/websocket");
    let mac: Vec<u8> = sign(secret.as_bytes(), payload.as_str().as_bytes());
    let sig: String = hex_text(&mac);
    proof {
        hexadecimal_has_two_digits_a_byte(mac@);
    }
    "{\"action\":\"authenticate\",\"key\":".to_owned().concat(quote(key).as_str()).concat(
        ",\"signature\":",
    ).concat(quote(sig.as_str()).as_str()).concat(",\"timestamp\":").concat(
        unsigned_text(timestamp).as_str(),
    ).concat("}")
}

/// Builds the request that authenticates, signed for the moment of the clock.
pub fn build_auth_msg(key: &str, secret: &str) -> (r: String)
    ensures
        exists|timestamp: u64| r@ == #[trigger] auth_request(key@, secret@, timestamp),
{
    let timestamp: u64 = now_millis();
    build_auth_msg_at(key, secret, timestamp)
}

/// Bytes in hexadecimal are two digits each.
pub proof fn hexadecimal_has_two_digits_a_byte(bytes: Seq<u8>)
    ensures
        hex(bytes).len() == 2 * bytes.len(),
        forall|i: int|
            0 <= i < hex(bytes).len() ==> ('0' <= #[trigger] hex(bytes)[i] <= '9' || 'a' <= hex(
                bytes,
            )[i] <= 'f'),
    decreases bytes.len(),
{
    if bytes.len() > 0 {
        let t = bytes.drop_last();
        hexadecimal_has_two_digits_a_byte(t);
        assert forall|i: int| 0 <= i < hex(bytes).len() implies ('0' <= #[trigger] hex(bytes)[i]
            <= '9' || 'a' <= hex(bytes)[i] <= 'f') by {
            if i < hex(t).len() {
                assert(hex(bytes)[i] == hex(t)[i]);
            }
        }
    }
}

/// The request that subscribes to a channel of a market.
pub open spec fn subscribe_request(channel: Seq<char>, market: Seq<char>) -> Seq<char> {
    "{\"action\":\"subscribe\",\"channels\":[{\"markets\":["@ + json_string(market)
        + "],\"name\":"@ + json_string(channel) + "}]}"@
}

/// Builds the request that subscribes to a channel of a market.
pub fn build_subscribe_msg(channel: &str, market: &str) -> (r: String)
    ensures
        r@ == subscribe_request(channel@, market@),
{
    "{\"action\":\"subscribe\",\"channels\":[{\"markets\":[".to_owned().concat(
        quote(market).as_str(),
    ).concat("],\"name\":").concat(quote(channel).as_str()).concat("}]}")
}

/// The request for the full order book of a market.
pub open spec fn getbook_request(market: Seq<char>, depth: u64) -> Seq<char> {
    "{\"action\":\"getBook\",\"depth\":"@ + decimal(depth as nat) + ",\"market\":"@
        + json_string(market) + ",\"requestId\":1}"@
}

/// Builds the request for the full order book of a market.
pub fn build_getbook_msg(market: &str, depth: u64) -> (r: String)
    ensures
        r@ == getbook_request(market@, depth),
{
    "{\"action\":\"getBook\",\"depth\":".to_owned().concat(
        unsigned_text(depth).as_str(),
    ).concat(",\"market\":").concat(quote(market).as_str()).concat(",\"requestId\":1}")
}

/// The state that the connection to Bitvavo keeps.
#[derive(Debug)]
pub struct BitvavoAdapter {
    pub instrument: String,
    /// The name that items carry.
    pub exchange: &'static str,
    pub region: String,
    pub api_key: Option<String>,
    pub api_secret: Option<String>,
    pub max_level_pct: Num,
    pub max_level: Option<usize>,
    pub data_kind: DataKind,
    /// The order book, with every level.
    pub book: OrderBook,
    /// The order book item emitted last.
    pub prev_lob: Option<LobItem>,
    /// The number of trades emitted.
    pub trade_seq: u64,
}

/// The mathematical content of a [`BitvavoAdapter`].
#[verifier::ext_equal]
pub struct AdapterView {
    pub instrument: Seq<char>,
    pub exchange: Seq<char>,
    pub region: Seq<char>,
    pub api_key: Option<Seq<char>>,
    pub api_secret: Option<Seq<char>>,
    pub max_level_pct: Num,
    pub max_level: Option<usize>,
    pub data_kind: DataKind,
    pub book: BookView,
    pub prev_lob: Option<LobView>,
    pub trade_seq: u64,
}

impl View for BitvavoAdapter {
    type V = AdapterView;

    open spec fn view(&self) -> AdapterView {
        AdapterView {
            instrument: self.instrument@,
            exchange: self.exchange@,
            region: self.region@,
            api_key: text_view(self.api_key),
            api_secret: text_view(self.api_secret),
            max_level_pct: self.max_level_pct,
            max_level: self.max_level,
            data_kind: self.data_kind,
            book: self.book@,
            prev_lob: lob_view(self.prev_lob),
            trade_seq: self.trade_seq,
        }
    }
}

/// The item that a trade gives, with its number.
pub open spec fn trade_item(exchange: Seq<char>, t: TradeDataView, number: u64) -> ItemView {
    ItemView::Trade(
        TradeView {
            ts: t.timestamp,
            exchange,
            price: num_or_zero(t.price.num()),
            size: num_or_zero(t.amount.num()),
            side: t.side,
            trade_id: if t.id.len() == 0 {
                None
            } else {
                Some(t.id)
            },
            seq_id: Some(number),
        },
    )
}

/// A moment in nanoseconds as milliseconds, or the present where there is none.
pub open spec fn milliseconds(ns: Option<u64>, now: u64) -> u64 {
    match ns {
        Some(n) => (n / 1_000_000) as u64,
        None => now,
    }
}

impl AdapterView {
    /// The item that the book stands for.
    pub open spec fn lob<A: Fn(FloatOp, Num, Num) -> Num>(self, unit: A, ts: u64) -> Option<
        LobView,
    > {
        filtered_item(
            unit,
            self.book.depth.bids,
            self.book.depth.asks,
            ts,
            self.exchange,
            self.max_level,
            self.max_level_pct,
        )
    }

    /// The state after the book was emitted.
    pub open spec fn after_emit<A: Fn(FloatOp, Num, Num) -> Num>(
        self,
        unit: A,
        ts: u64,
    ) -> AdapterView {
        AdapterView { prev_lob: remembered(self.lob(unit, ts), self.prev_lob), ..self }
    }

    /// The state with a message taken into the book; `None` where the message
    /// is not about the book or the book is not subscribed to.
    pub open spec fn fed(self, msg: BitvavoView) -> Option<AdapterView> {
        if !self.data_kind.lob() {
            None
        } else if msg.message_type() == MessageType::BookSnapshot {
            match msg.book_snapshot() {
                Some(snap) => Some(
                    AdapterView { book: self.book.snapshot(snap).drained(), ..self },
                ),
                None => None,
            }
        } else if msg.message_type() == MessageType::BookUpdate {
            match msg.book_update() {
                Some(update) => Some(AdapterView { book: self.book.update(update), ..self }),
                None => None,
            }
        } else {
            None
        }
    }

    /// The moment a message about the book belongs to.
    pub open spec fn book_moment(self, msg: BitvavoView, now: u64) -> u64 {
        if msg.message_type() == MessageType::BookSnapshot {
            milliseconds(
                match msg.book_snapshot() {
                    Some(snap) => snap.timestamp,
                    None => None,
                },
                now,
            )
        } else {
            milliseconds(msg.timestamp, now)
        }
    }

    /// The message is a trade, and trades are subscribed to.
    pub open spec fn takes_trade(self, msg: BitvavoView) -> bool {
        self.data_kind.trade() && msg.message_type() == MessageType::Trade
    }

    /// The state after a message.
    pub open spec fn handled<A: Fn(FloatOp, Num, Num) -> Num>(
        self,
        unit: A,
        msg: BitvavoView,
        now: u64,
    ) -> AdapterView {
        match self.fed(msg) {
            Some(next) => next.after_emit(unit, self.book_moment(msg, now)),
            None => if self.takes_trade(msg) {
                AdapterView { trade_seq: (self.trade_seq + 1) as u64, ..self }
            } else {
                self
            },
        }
    }

    /// The item that a message gives.
    pub open spec fn item<A: Fn(FloatOp, Num, Num) -> Num>(
        self,
        unit: A,
        msg: BitvavoView,
        now: u64,
    ) -> Option<ItemView> {
        match self.fed(msg) {
            Some(next) => emitted(next.lob(unit, self.book_moment(msg, now)), self.prev_lob),
            None => if self.takes_trade(msg) {
                Some(trade_item(self.exchange, msg.trade()->0, (self.trade_seq + 1) as u64))
            } else {
                None
            },
        }
    }

    /// The message can be taken in: every row that would be read can be, and
    /// trades can still be numbered.
    pub open spec fn accepts(self, msg: BitvavoView) -> bool {
        &&& self.data_kind.lob() && msg.message_type() == MessageType::BookSnapshot
            && msg.book_snapshot() is Some ==> {
            let snap = msg.book_snapshot()->0;
            readable(snap.bids) && readable(snap.asks) && self.book.snapshot(snap).can_drain()
        }
        &&& self.data_kind.lob() && msg.message_type() == MessageType::BookUpdate
            ==> self.book.accepts(msg.book_update()->0)
        &&& self.takes_trade(msg) ==> self.trade_seq < u64::MAX
    }

    /// What to subscribe to: the name of each request and the request.
    pub open spec fn subscriptions(self) -> Seq<(Seq<char>, Seq<char>)> {
        (if self.data_kind.lob() {
            seq![
                ("book"@, subscribe_request("book"@, self.instrument)),
                (
                    "getbook"@,
                    getbook_request(
                        self.instrument,
                        match self.max_level {
                            Some(n) => n as u64,
                            None => 1000,
                        },
                    ),
                ),
            ]
        } else {
            Seq::empty()
        }) + (if self.data_kind.trade() {
            seq![("trades"@, subscribe_request("trades"@, self.instrument))]
        } else {
            Seq::empty()
        })
    }
}

impl BitvavoAdapter {
    /// The book is in order.
    pub open spec fn wf(self) -> bool {
        self.book.wf()
    }

    /// The state before any message.
    pub fn new(
        instrument: String,
        region: String,
        api_key: Option<String>,
        api_secret: Option<String>,
        max_level_pct: Num,
        max_level: Option<usize>,
        data_kind: DataKind,
    ) -> (r: BitvavoAdapter)
        ensures
            r.wf(),
            r@ == (AdapterView {
                instrument: instrument@,
                exchange: "bitvavo"@,
                region: region@,
                api_key: text_view(api_key),
                api_secret: text_view(api_secret),
                max_level_pct,
                max_level,
                data_kind,
                book: BookView {
                    depth: DepthView::empty(),
                    last_mdseq: None,
                    pending: Seq::empty(),
                },
                prev_lob: None,
                trade_seq: 0,
            }),
    {
        BitvavoAdapter {
            instrument,
            exchange: "bitvavo",
            region,
            api_key,
            api_secret,
            max_level_pct,
            max_level,
            data_kind,
            book: OrderBook::new(),
            prev_lob: None,
            trade_seq: 0,
        }
    }

    /// The instrument.
    pub fn instrument(&self) -> (r: &str)
        ensures
            r@ == self@.instrument,
    {
        self.instrument.as_str()
    }

    /// The name of the exchange.
    pub fn exchange(&self) -> (r: &'static str)
        ensures
            r@ == self@.exchange,
    {
        self.exchange
    }

    /// Emits the book as it is now, unless it was emitted like this before.
    pub fn emit_lob<A: Fn(FloatOp, Num, Num) -> Num>(&mut self, ts: u64, unit: &A) -> (r: Option<
        MarketDataItem,
    >)
        requires
            arithmetic(*unit),
            old(self).wf(),
        ensures
            final(self).wf(),
            item_view(r) == emitted(old(self)@.lob(*unit, ts), old(self)@.prev_lob),
            final(self)@ == old(self)@.after_emit(*unit, ts),
    {
        let item: Option<LobItem> = self.book.to_lob_item(
            ts,
            self.exchange,
            self.max_level,
            &self.max_level_pct,
            unit,
        );
        emit(item, &mut self.prev_lob)
    }

    fn ts_ms(ns: Option<u64>, now: u64) -> (r: u64)
        ensures
            r == milliseconds(ns, now),
    {
        match ns {
            Some(n) => n / 1_000_000,
            None => now,
        }
    }

    /// The requests to send once authenticated, each with its name.
    pub fn subscribe_msgs(&self) -> (r: Vec<(String, String)>)
        ensures
            requests(r@) == self@.subscriptions(),
    {
        let mut msgs: Vec<(String, String)> = Vec::new();
        if self.data_kind.contains(DataKind::LOB) {
            msgs.push(("book".to_owned(), build_subscribe_msg("book", self.instrument.as_str())));
            let depth: u64 = match self.max_level {
                Some(n) => n as u64,
                None => 1000,
            };
            msgs.push(("getbook".to_owned(), build_getbook_msg(self.instrument.as_str(), depth)));
        }
        if self.data_kind.contains(DataKind::TRADE) {
            msgs.push(
                ("trades".to_owned(), build_subscribe_msg("trades", self.instrument.as_str())),
            );
        }
        assert(requests(msgs@) =~= self@.subscriptions());
        msgs
    }

    /// The requests that authenticate, signed for a moment; `None` without
    /// key or secret.
    pub fn auth_msgs_at(&self, timestamp: u64) -> (r: Option<Vec<(String, String)>>)
        ensures
            r is Some <==> self@.api_key is Some && self@.api_secret is Some,
            r matches Some(v) ==> requests(v@) == seq![
                ("auth"@, auth_request(self@.api_key->0, self@.api_secret->0, timestamp)),
            ],
    {
        match (&self.api_key, &self.api_secret) {
            (Some(key), Some(secret)) => {
                let mut msgs: Vec<(String, String)> = Vec::new();
                msgs.push(
                    (
                        "auth".to_owned(),
                        build_auth_msg_at(key.as_str(), secret.as_str(), timestamp),
                    ),
                );
                assert(requests(msgs@) =~= seq![
                    ("auth"@, auth_request(self@.api_key->0, self@.api_secret->0, timestamp)),
                ]);
                Some(msgs)
            },
            _ => None,
        }
    }

    /// The requests that authenticate, signed for the moment of the clock;
    /// `None` without key or secret.
    pub fn auth_msgs(&self) -> (r: Option<Vec<(String, String)>>)
        ensures
            r is Some <==> self@.api_key is Some && self@.api_secret is Some,
            r matches Some(v) ==> exists|timestamp: u64|
                requests(v@) == seq![
                    (
                        "auth"@,
                        #[trigger] auth_request(self@.api_key->0, self@.api_secret->0, timestamp),
                    ),
                ],
    {
        let timestamp: u64 = now_millis();
        self.auth_msgs_at(timestamp)
    }

    /// Whether the message confirms that the authentication succeeded.
    pub fn is_auth_confirmed(&self, msg: &BitvavoWsMessage) -> (r: bool)
        ensures
            r == msg@.is_auth_confirmed(),
    {
        msg.is_auth_confirmed()
    }

    /// How long to wait for the authentication to be confirmed.
    pub fn auth_confirmation_timeout(&self) -> (r: Option<Duration>)
        ensures
            r == Some(secs_span(10)),
    {
        Some(Duration::from_secs(10))
    }

    /// Whether a message can be taken in. The rows of an order book that are
    /// to be read must have a price, and a size beside a price that is a
    /// number.
    pub fn can_handle(&self, msg: &BitvavoWsMessage) -> (r: bool)
        ensures
            r == self@.accepts(msg@),
    {
        match msg.message_type() {
            MessageType::BookSnapshot => {
                if !self.data_kind.contains(DataKind::LOB) {
                    return true;
                }
                match msg.book_snapshot() {
                    Some(snap) => self.book.can_take_snapshot(snap),
                    None => true,
                }
            },
            MessageType::BookUpdate => {
                if !self.data_kind.contains(DataKind::LOB) {
                    return true;
                }
                match msg.book_update() {
                    Some(update) => self.book.can_take_update(&update),
                    None => true,
                }
            },
            MessageType::Trade => !self.data_kind.contains(DataKind::TRADE) || self.trade_seq
                < u64::MAX,
            MessageType::Auth | MessageType::Event | MessageType::Unknown => true,
        }
    }

    /// Takes in a message that arrives at a moment.
    pub fn handle_message_at<A: Fn(FloatOp, Num, Num) -> Num>(
        &mut self,
        msg: &BitvavoWsMessage,
        unit: &A,
        now: u64,
    ) -> (r: Option<MarketDataItem>)
        requires
            arithmetic(*unit),
            old(self).wf(),
            old(self)@.accepts(msg@),
        ensures
            final(self).wf(),
            item_view(r) == old(self)@.item(*unit, msg@, now),
            final(self)@ == old(self)@.handled(*unit, msg@, now),
    {
        match msg.message_type() {
            MessageType::BookSnapshot => {
                if !self.data_kind.contains(DataKind::LOB) {
                    return None;
                }
                match msg.book_snapshot() {
                    Some(snap) => {
                        self.book.apply_snapshot(snap);
                        self.book.drain_pending();
                        let ts: u64 = BitvavoAdapter::ts_ms(snap.timestamp, now);
                        self.emit_lob(ts, unit)
                    },
                    None => None,
                }
            },
            MessageType::BookUpdate => {
                if !self.data_kind.contains(DataKind::LOB) {
                    return None;
                }
                match msg.book_update() {
                    Some(update) => {
                        self.book.apply_update(&update);
                        let ts: u64 = BitvavoAdapter::ts_ms(update.timestamp, now);
                        self.emit_lob(ts, unit)
                    },
                    None => None,
                }
            },
            MessageType::Trade => {
                if !self.data_kind.contains(DataKind::TRADE) {
                    return None;
                }
                match msg.trade() {
                    Some(t) => {
                        self.trade_seq = self.trade_seq + 1;
                        let trade_id: Option<String> = if t.id.as_str().is_empty() {
                            None
                        } else {
                            Some(t.id)
                        };
                        Some(
                            MarketDataItem::Trade(
                                TradeItem {
                                    ts: t.timestamp,
                                    exchange: self.exchange.to_owned(),
                                    price: or_zero(t.price.num()),
                                    size: or_zero(t.amount.num()),
                                    side: t.side,
                                    trade_id,
                                    seq_id: Some(self.trade_seq),
                                },
                            ),
                        )
                    },
                    None => None,
                }
            },
            MessageType::Auth | MessageType::Event | MessageType::Unknown => None,
        }
    }

    /// Takes in a message. One about the book that has no timestamp is given
    /// that of the clock.
    pub fn handle_message<A: Fn(FloatOp, Num, Num) -> Num>(
        &mut self,
        msg: &BitvavoWsMessage,
        unit: &A,
    ) -> (r: Option<MarketDataItem>)
        requires
            arithmetic(*unit),
            old(self).wf(),
            old(self)@.accepts(msg@),
        ensures
            final(self).wf(),
            exists|now: u64|
                item_view(r) == #[trigger] old(self)@.item(*unit, msg@, now) && final(self)@
                    == old(self)@.handled(*unit, msg@, now),
    {
        let now: u64 = now_millis();
        self.handle_message_at(msg, unit, now)
    }

    /// Whether the message only shows that the connection lives.
    pub fn handle_heartbeat(&self, msg: &BitvavoWsMessage) -> (r: bool)
        ensures
            r == (msg@.message_type() == MessageType::Auth || msg@.message_type()
                == MessageType::Event),
    {
        matches!(msg.message_type(), MessageType::Auth | MessageType::Event)
    }

    /// Milliseconds between pings.
    pub fn keepalive_interval_ms(&self) -> (r: u64)
        ensures
            r == 5000,
    {
        5000
    }

    /// The endpoint to connect to.
    pub fn url(&self) -> (r: String)
        ensures
            r@ == websocket_endpoint(self@.region, "bitvavo"@),
    {
        websocket_url(self.region.as_str(), "bitvavo").to_owned()
    }
}

impl AdapterView {
    /// The state after messages, each with the moment it arrived at.
    pub open spec fn after_all<A: Fn(FloatOp, Num, Num) -> Num>(
        self,
        unit: A,
        msgs: Seq<(BitvavoView, u64)>,
    ) -> AdapterView
        decreases msgs.len(),
    {
        if msgs.len() == 0 {
            self
        } else {
            let before = self.after_all(unit, msgs.drop_last());
            before.handled(unit, msgs.last().0, msgs.last().1)
        }
    }
}

/// The number of trades that messages hold.
pub open spec fn trades(a: AdapterView, msgs: Seq<(BitvavoView, u64)>) -> int
    decreases msgs.len(),
{
    if msgs.len() == 0 {
        0
    } else {
        trades(a, msgs.drop_last()) + (if a.takes_trade(msgs.last().0) {
            1int
        } else {
            0
        })
    }
}

/// Trades are numbered one after the other, whatever comes between them, and
/// the number of the next trade follows from how many there were.
pub proof fn trades_are_numbered<A: Fn(FloatOp, Num, Num) -> Num>(
    a: AdapterView,
    unit: A,
    msgs: Seq<(BitvavoView, u64)>,
)
    requires
        a.trade_seq + trades(a, msgs) <= u64::MAX,
    ensures
        a.after_all(unit, msgs).trade_seq == a.trade_seq + trades(a, msgs),
        a.after_all(unit, msgs).data_kind == a.data_kind,
        trades(a, msgs) >= 0,
    decreases msgs.len(),
{
    if msgs.len() > 0 {
        lemma_trades_grow(a, msgs);
        trades_are_numbered(a, unit, msgs.drop_last());
    }
}

proof fn lemma_trades_grow(a: AdapterView, msgs: Seq<(BitvavoView, u64)>)
    requires
        msgs.len() > 0,
    ensures
        trades(a, msgs.drop_last()) <= trades(a, msgs),
{
}

/// The item of a trade carries the next number.
pub proof fn trade_carries_next_number<A: Fn(FloatOp, Num, Num) -> Num>(
    a: AdapterView,
    unit: A,
    msg: BitvavoView,
    now: u64,
)
    requires
        a.takes_trade(msg),
        a.trade_seq < u64::MAX,
    ensures
        a.item(unit, msg, now) matches Some(ItemView::Trade(t)) && t.seq_id == Some(
            (a.trade_seq + 1) as u64,
        ),
        a.handled(unit, msg, now).trade_seq == a.trade_seq + 1,
{
}

/// A book in order stays in order, whatever messages come.
pub proof fn always_ordered<A: Fn(FloatOp, Num, Num) -> Num>(
    a: AdapterView,
    unit: A,
    msgs: Seq<(BitvavoView, u64)>,
)
    requires
        a.book.depth.wf(),
    ensures
        a.after_all(unit, msgs).book.depth.wf(),
    decreases msgs.len(),
{
    if msgs.len() > 0 {
        always_ordered(a, unit, msgs.drop_last());
        let before = a.after_all(unit, msgs.drop_last());
        let msg = msgs.last().0;
        match msg.book_snapshot() {
            Some(snap) => {
                let s = before.book.snapshot(snap);
                updates_keep_order(before.book, snap, Seq::empty());
                updates_keep_order(BookView { pending: Seq::empty(), ..s }, snap, s.pending);
            },
            None => {},
        }
        match msg.book_update() {
            Some(update) => {
                let one = seq![update];
                assert(one.drop_last() =~= Seq::empty());
                assert(before.book.updates(Seq::empty()) == before.book);
                assert(before.book.updates(one) == before.book.update(update));
                updates_keep_order(
                    before.book,
                    crate::bitvavo::types::SnapshotView {
                        market: Seq::empty(),
                        nonce: 0,
                        bids: Seq::empty(),
                        asks: Seq::empty(),
                        timestamp: None,
                        mdseqno: 0,
                    },
                    one,
                );
            },
            None => {},
        }
    }
}

} // verus!

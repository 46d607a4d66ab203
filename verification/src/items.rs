//! The items a stream delivers, and its errors.

use crate::config::ConfigError;
use crate::num::Num;
use crate::num::NumView;
use crate::text::decimal;
use crate::text::unsigned_text;
use vstd::prelude::*;

verus! {

/// A price and the size that stands at it.
#[derive(Debug)]
pub struct LobLevel {
    pub price: Num,
    pub size: Num,
}

impl Clone for LobLevel {
    fn clone(&self) -> (r: Self)
        ensures
            r == *self,
    {
        LobLevel { price: self.price.clone(), size: self.size.clone() }
    }
}

impl LobLevel {
    /// Both numbers are equal as numbers.
    pub open spec fn equals(self, other: LobLevel) -> bool {
        self.price.equals(other.price) && self.size.equals(other.size)
    }
}

/// A limit order book: bids and asks, both in ascending order of price, so
/// that the best bid is last and the best ask is first.
#[derive(Debug)]
pub struct LobItem {
    /// Exchange timestamp in milliseconds since the epoch.
    pub ts: u64,
    /// Name of the exchange.
    pub exchange: String,
    pub bids: Vec<LobLevel>,
    pub asks: Vec<LobLevel>,
}

/// The mathematical content of a [`LobItem`].
pub struct LobView {
    pub ts: u64,
    pub exchange: Seq<char>,
    pub bids: Seq<LobLevel>,
    pub asks: Seq<LobLevel>,
}

impl View for LobItem {
    type V = LobView;

    open spec fn view(&self) -> LobView {
        LobView { ts: self.ts, exchange: self.exchange@, bids: self.bids@, asks: self.asks@ }
    }
}

/// A trade.
#[derive(Debug)]
pub struct TradeItem {
    /// Exchange timestamp in milliseconds since the epoch.
    pub ts: u64,
    /// Name of the exchange.
    pub exchange: String,
    pub price: Num,
    pub size: Num,
    /// `buy` or `sell`.
    pub side: String,
    /// The exchange's identifier of the trade, where it gives one.
    pub trade_id: Option<String>,
    /// The sequence number of the trade, where there is one.
    pub seq_id: Option<u64>,
}

/// The mathematical content of a [`TradeItem`].
pub struct TradeView {
    pub ts: u64,
    pub exchange: Seq<char>,
    pub price: NumView,
    pub size: NumView,
    pub side: Seq<char>,
    pub trade_id: Option<Seq<char>>,
    pub seq_id: Option<u64>,
}

/// The content of an optional text.
pub open spec fn text_view(t: Option<String>) -> Option<Seq<char>> {
    match t {
        Some(s) => Some(s@),
        None => None,
    }
}

impl View for TradeItem {
    type V = TradeView;

    open spec fn view(&self) -> TradeView {
        TradeView {
            ts: self.ts,
            exchange: self.exchange@,
            price: self.price@,
            size: self.size@,
            side: self.side@,
            trade_id: text_view(self.trade_id),
            seq_id: self.seq_id,
        }
    }
}

/// An item of a market data stream.
#[derive(Debug)]
pub enum MarketDataItem {
    /// The state of the order book.
    Lob(LobItem),
    /// A trade.
    Trade(TradeItem),
}

/// The mathematical content of a [`MarketDataItem`].
pub enum ItemView {
    Lob(LobView),
    Trade(TradeView),
}

impl View for MarketDataItem {
    type V = ItemView;

    open spec fn view(&self) -> ItemView {
        match *self {
            MarketDataItem::Lob(l) => ItemView::Lob(l@),
            MarketDataItem::Trade(t) => ItemView::Trade(t@),
        }
    }
}

/// The content of an optional item.
pub open spec fn item_view(item: Option<MarketDataItem>) -> Option<ItemView> {
    match item {
        Some(i) => Some(i@),
        None => None,
    }
}

/// The content of an optional order book item.
pub open spec fn lob_view(item: Option<LobItem>) -> Option<LobView> {
    match item {
        Some(i) => Some(i@),
        None => None,
    }
}

impl MarketDataItem {
    /// The timestamp in milliseconds since the epoch.
    pub fn timestamp_ms(&self) -> (r: u64)
        ensures
            r == (match self@ {
                ItemView::Lob(l) => l.ts,
                ItemView::Trade(t) => t.ts,
            }),
    {
        match self {
            MarketDataItem::Lob(l) => l.ts,
            MarketDataItem::Trade(t) => t.ts,
        }
    }
}

/// Copies a list of levels.
pub fn copy_levels(levels: &Vec<LobLevel>) -> (r: Vec<LobLevel>)
    ensures
        r@ == levels@,
{
    let mut out: Vec<LobLevel> = Vec::new();
    let mut i: usize = 0;
    while i < levels.len()
        invariant
            i <= levels.len(),
            out@ == levels@.take(i as int),
        decreases levels.len() - i,
    {
        out.push(levels[i].clone());
        assert(levels@.take(i + 1) =~= levels@.take(i as int).push(levels@[i as int]));
        i += 1;
    }
    assert(levels@.take(levels@.len() as int) =~= levels@);
    out
}

impl Clone for LobItem {
    fn clone(&self) -> (r: Self)
        ensures
            r@ == self@,
    {
        LobItem {
            ts: self.ts,
            exchange: self.exchange.clone(),
            bids: copy_levels(&self.bids),
            asks: copy_levels(&self.asks),
        }
    }
}

/// Two lists of levels are equal, level by level, as numbers.
pub open spec fn levels_equal(a: Seq<LobLevel>, b: Seq<LobLevel>) -> bool {
    a.len() == b.len() && forall|i: int| 0 <= i < a.len() ==> (#[trigger] a[i]).equals(b[i])
}

/// Compares two lists of levels.
pub fn same_levels(a: &Vec<LobLevel>, b: &Vec<LobLevel>) -> (r: bool)
    ensures
        r == levels_equal(a@, b@),
{
    if a.len() != b.len() {
        return false;
    }
    let mut i: usize = 0;
    while i < a.len()
        invariant
            i <= a.len() == b.len(),
            forall|j: int| 0 <= j < i ==> (#[trigger] a@[j]).equals(b@[j]),
        decreases a.len() - i,
    {
        if !(a[i].price.same(&b[i].price) && a[i].size.same(&b[i].size)) {
            assert(!a@[i as int].equals(b@[i as int]));
            return false;
        }
        i += 1;
    }
    true
}

/// What can go wrong while ingesting.
#[derive(Debug, Clone, PartialEq)]
pub enum IngestError {
    /// The configuration is not valid.
    Config(String),
    /// The WebSocket connection failed.
    Connection(String),
    /// A subscribe message could not be sent.
    Subscribe(String),
    /// A message could not be read.
    Parse(String),
    /// The reconnect attempts are used up.
    MaxReconnectsExceeded(u32),
    /// The receiver is gone.
    ChannelClosed,
    /// A ping could not be sent.
    Heartbeat(String),
    /// The peer did not answer in time.
    RequestTimeout(String),
    /// The exchange reported an error.
    Exchange(String),
    /// Input or output failed.
    Io(String),
}

/// The mathematical content of an [`IngestError`].
pub enum IngestErrorView {
    Config(Seq<char>),
    Connection(Seq<char>),
    Subscribe(Seq<char>),
    Parse(Seq<char>),
    MaxReconnectsExceeded(u32),
    ChannelClosed,
    Heartbeat(Seq<char>),
    RequestTimeout(Seq<char>),
    Exchange(Seq<char>),
    Io(Seq<char>),
}

impl View for IngestError {
    type V = IngestErrorView;

    open spec fn view(&self) -> IngestErrorView {
        match *self {
            IngestError::Config(s) => IngestErrorView::Config(s@),
            IngestError::Connection(s) => IngestErrorView::Connection(s@),
            IngestError::Subscribe(s) => IngestErrorView::Subscribe(s@),
            IngestError::Parse(s) => IngestErrorView::Parse(s@),
            IngestError::MaxReconnectsExceeded(n) => IngestErrorView::MaxReconnectsExceeded(n),
            IngestError::ChannelClosed => IngestErrorView::ChannelClosed,
            IngestError::Heartbeat(s) => IngestErrorView::Heartbeat(s@),
            IngestError::RequestTimeout(s) => IngestErrorView::RequestTimeout(s@),
            IngestError::Exchange(s) => IngestErrorView::Exchange(s@),
            IngestError::Io(s) => IngestErrorView::Io(s@),
        }
    }
}

impl IngestErrorView {
    /// The message an error is reported with.
    pub open spec fn message(self) -> Seq<char> {
        match self {
            IngestErrorView::Config(s) => "config error: "@ + s,
            IngestErrorView::Connection(s) => "connection error: "@ + s,
            IngestErrorView::Subscribe(s) => "subscribe error: "@ + s,
            IngestErrorView::Parse(s) => "parse error: "@ + s,
            IngestErrorView::MaxReconnectsExceeded(n) => "max reconnect attempts ("@ + decimal(
                n as nat,
            ) + ") exceeded"@,
            IngestErrorView::ChannelClosed => "channel closed"@,
            IngestErrorView::Heartbeat(s) => "heartbeat error: "@ + s,
            IngestErrorView::RequestTimeout(s) => "request timeout: "@ + s,
            IngestErrorView::Exchange(s) => "exchange error: "@ + s,
            IngestErrorView::Io(s) => "I/O error: "@ + s,
        }
    }
}

fn labelled(label: &str, s: &String) -> (r: String)
    ensures
        r@ == label@ + s@,
{
    label.to_owned().concat(s.as_str())
}

impl IngestError {
    /// The error's message.
    pub fn to_string(&self) -> (r: String)
        ensures
            r@ == self@.message(),
    {
        match self {
            IngestError::Config(s) => labelled("config error: ", s),
            IngestError::Connection(s) => labelled("connection error: ", s),
            IngestError::Subscribe(s) => labelled("subscribe error: ", s),
            IngestError::Parse(s) => labelled("parse error: ", s),
            IngestError::MaxReconnectsExceeded(n) => "max reconnect attempts (".to_owned().concat(
                unsigned_text(*n as u64).as_str(),
            ).concat(") exceeded"),
            IngestError::ChannelClosed => "channel closed".to_owned(),
            IngestError::Heartbeat(s) => labelled("heartbeat error: ", s),
            IngestError::RequestTimeout(s) => labelled("request timeout: ", s),
            IngestError::Exchange(s) => labelled("exchange error: ", s),
            IngestError::Io(s) => labelled("I/O error: ", s),
        }
    }

}

impl From<ConfigError> for IngestError {
    /// A configuration error, with the message of the reason.
    fn from(err: ConfigError) -> (r: Self)
        ensures
            r@ == IngestErrorView::Config(err@.message()),
    {
        IngestError::Config(err.to_string())
    }
}

impl vstd::std_specs::convert::FromSpecImpl<ConfigError> for IngestError {
    open spec fn obeys_from_spec() -> bool {
        false
    }

    open spec fn from_spec(err: ConfigError) -> Self {
        arbitrary()
    }
}

/// The message of an error ends with the text that the error carries, and
/// says before it what kind of error it is.
pub proof fn message_carries_the_text(e: IngestErrorView, s: Seq<char>)
    ensures
        e == IngestErrorView::Config(s) || e == IngestErrorView::Connection(s) || e
            == IngestErrorView::Subscribe(s) || e == IngestErrorView::Parse(s) || e
            == IngestErrorView::Heartbeat(s) || e == IngestErrorView::RequestTimeout(s) || e
            == IngestErrorView::Exchange(s) || e == IngestErrorView::Io(s) ==> {
            &&& e.message().len() > s.len()
            &&& e.message().skip(e.message().len() - s.len()) == s
        },
        e == IngestErrorView::Config(s) ==> crate::text::begins(e.message(), "config "@),
        e == IngestErrorView::Connection(s) ==> crate::text::begins(e.message(), "connection "@),
        e == IngestErrorView::Subscribe(s) ==> crate::text::begins(e.message(), "subscribe "@),
        e == IngestErrorView::Parse(s) ==> crate::text::begins(e.message(), "parse "@),
        e == IngestErrorView::Heartbeat(s) ==> crate::text::begins(e.message(), "heartbeat "@),
        e == IngestErrorView::RequestTimeout(s) ==> crate::text::begins(
            e.message(),
            "request timeout"@,
        ),
        e == IngestErrorView::Exchange(s) ==> crate::text::begins(e.message(), "exchange "@),
        e == IngestErrorView::Io(s) ==> crate::text::begins(e.message(), "I/O "@),
{
    reveal_strlit("config error: ");
    reveal_strlit("connection error: ");
    reveal_strlit("subscribe error: ");
    reveal_strlit("parse error: ");
    reveal_strlit("heartbeat error: ");
    reveal_strlit("request timeout: ");
    reveal_strlit("exchange error: ");
    reveal_strlit("I/O error: ");
    reveal_strlit("config ");
    reveal_strlit("connection ");
    reveal_strlit("subscribe ");
    reveal_strlit("parse ");
    reveal_strlit("heartbeat ");
    reveal_strlit("request timeout");
    reveal_strlit("exchange ");
    reveal_strlit("I/O ");
    let m = e.message();
    if e == IngestErrorView::Config(s) {
        assert(m.take(7) =~= "config "@);
    }
    if e == IngestErrorView::Connection(s) {
        assert(m.take(11) =~= "connection "@);
    }
    if e == IngestErrorView::Subscribe(s) {
        assert(m.take(10) =~= "subscribe "@);
    }
    if e == IngestErrorView::Parse(s) {
        assert(m.take(6) =~= "parse "@);
    }
    if e == IngestErrorView::Heartbeat(s) {
        assert(m.take(10) =~= "heartbeat "@);
    }
    if e == IngestErrorView::RequestTimeout(s) {
        assert(m.take(15) =~= "request timeout"@);
    }
    if e == IngestErrorView::Exchange(s) {
        assert(m.take(9) =~= "exchange "@);
    }
    if e == IngestErrorView::Io(s) {
        assert(m.take(4) =~= "I/O "@);
    }
    if m.len() >= s.len() && (e == IngestErrorView::Config(s) || e == IngestErrorView::Connection(s)
        || e == IngestErrorView::Subscribe(s) || e == IngestErrorView::Parse(s) || e
        == IngestErrorView::Heartbeat(s) || e == IngestErrorView::RequestTimeout(s) || e
        == IngestErrorView::Exchange(s) || e == IngestErrorView::Io(s)) {
        assert(m.skip(m.len() - s.len()) =~= s);
    }
}

/// An item shows each of its fields.
pub proof fn items_show_their_fields(l: LobItem, t: TradeItem)
    ensures
        l@.ts == l.ts,
        l@.exchange == l.exchange@,
        l@.bids == l.bids@,
        l@.asks == l.asks@,
        t@.ts == t.ts,
        t@.exchange == t.exchange@,
        t@.price.bits == t.price.bits,
        t@.price.text == t.price.text@,
        t@.size.bits == t.size.bits,
        t@.size.text == t.size.text@,
        t@.side == t.side@,
        t.trade_id matches Some(id) ==> t@.trade_id == Some(id@),
        t.trade_id is None ==> t@.trade_id is None,
        t@.seq_id == t.seq_id,
        MarketDataItem::Lob(l)@ == ItemView::Lob(l@),
        MarketDataItem::Trade(t)@ == ItemView::Trade(t@),
        item_view(Some(MarketDataItem::Lob(l))) == Some(ItemView::Lob(l@)),
        item_view(None) is None,
        lob_view(Some(l)) == Some(l@),
        lob_view(None) is None,
{
}

/// The message of used up attempts tells how many they were.
pub proof fn used_up_attempts_are_told(n: u32)
    ensures
        ({
            let m = IngestErrorView::MaxReconnectsExceeded(n).message();
            let k = decimal(n as nat).len() as int;
            &&& crate::text::begins(m, "max reconnect attempts ("@)
            &&& m.subrange(24, 24 + k) == decimal(n as nat)
            &&& m.skip(24 + k) == ") exceeded"@
        }),
        IngestErrorView::ChannelClosed.message() == "channel closed"@,
{
    reveal_strlit("max reconnect attempts (");
    reveal_strlit(") exceeded");
    let m = IngestErrorView::MaxReconnectsExceeded(n).message();
    let k = decimal(n as nat).len() as int;
    assert(m.take(24) =~= "max reconnect attempts ("@);
    assert(m.subrange(24, 24 + k) =~= decimal(n as nat));
    assert(m.skip(24 + k) =~= ") exceeded"@);
}

} // verus!

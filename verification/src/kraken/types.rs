//! Messages of Kraken.

use crate::clock::moment;
use crate::clock::now_millis;
use crate::clock::parse_rfc3339;
use crate::clock::rfc3339;
use crate::json::any_field;
use crate::json::array_field;
use crate::json::check_named_once;
use crate::json::check_record;
use crate::json::deref;
use crate::json::double_field;
use crate::json::elements;
use crate::json::field;
use crate::json::get_field;
use crate::json::is_record;
use crate::json::is_text;
use crate::json::json_text;
use crate::json::named_once;
use crate::json::number_or_text_field;
use crate::json::optional_bool_field;
use crate::json::optional_text_field;
use crate::json::optional_unsigned_field;
use crate::json::read_any;
use crate::json::read_array;
use crate::json::read_double;
use crate::json::read_number_or_text;
use crate::json::read_optional_bool;
use crate::json::read_optional_text;
use crate::json::read_optional_unsigned;
use crate::json::read_signed;
use crate::json::read_text;
use crate::json::signed_field;
use crate::json::text_field;
use crate::json::view_str;
use crate::json::write_json;
use crate::json::Json;
use crate::json::JsonText;
use crate::line::add_fixed;
use crate::line::add_line;
use crate::line::add_text;
use crate::line::line;
use crate::line::Piece;
use crate::line::PieceView;
use crate::num::Num;
use crate::num::NumView;
use crate::text::same_text;
use crate::text::time_of_day;
use crate::text::time_text;
use vstd::prelude::*;

verus! {

/// What a message is about.
#[derive(Debug, Clone, Copy, PartialEq, Eq, Structural)]
pub enum MessageType {
    L2Snapshot,
    L2Update,
    L2,
    Trade,
    Heartbeat,
    Status,
    Instrument,
    Event,
    Unknown,
}

/// The envelope of a message.
#[derive(Debug)]
pub struct KrakenWsMessage<'a> {
    pub channel: Option<&'a str>,
    /// The member `type`.
    pub msg_type: Option<&'a str>,
    pub data: Option<&'a Vec<Json>>,
    pub sequence: Option<u64>,
    pub method: Option<&'a str>,
    pub success: Option<bool>,
    pub error: Option<&'a Json>,
}

/// The mathematical content of a [`KrakenWsMessage`].
pub struct KrakenView {
    pub channel: Option<Seq<char>>,
    pub msg_type: Option<Seq<char>>,
    pub data: Seq<Json>,
    pub sequence: Option<u64>,
    pub method: Option<Seq<char>>,
    pub success: Option<bool>,
    /// The member `error`, as JSON writes it.
    pub error: Option<Seq<char>>,
}

impl<'a> View for KrakenWsMessage<'a> {
    type V = KrakenView;

    open spec fn view(&self) -> KrakenView {
        KrakenView {
            channel: view_str(self.channel),
            msg_type: view_str(self.msg_type),
            data: elements(self.data),
            sequence: self.sequence,
            method: view_str(self.method),
            success: self.success,
            error: written(deref(self.error)),
        }
    }
}

/// No member of a message is named twice.
pub open spec fn members_once(v: Json) -> bool {
    &&& named_once(v, "channel"@)
    &&& named_once(v, "type"@)
    &&& named_once(v, "data"@)
    &&& named_once(v, "sequence"@)
    &&& named_once(v, "method"@)
    &&& named_once(v, "success"@)
    &&& named_once(v, "error"@)
}

fn check_members(v: &Json) -> (r: bool)
    ensures
        r == members_once(*v),
{
    check_named_once(v, "channel")
        && check_named_once(v, "type")
        && check_named_once(v, "data")
        && check_named_once(v, "sequence")
        && check_named_once(v, "method")
        && check_named_once(v, "success")
        && check_named_once(v, "error")
}

/// A value, where there is one, as JSON writes it.
pub open spec fn written(v: Option<Json>) -> Option<Seq<char>> {
    match v {
        Some(e) => Some(json_text(e)),
        None => None,
    }
}

/// The message that a JSON value stands for, if it has the right shape.
pub open spec fn message_of(v: Json) -> Option<KrakenView> {
    match (
        optional_text_field(field(v, "channel"@, 0)),
        optional_text_field(field(v, "type"@, 1)),
        array_field(field(v, "data"@, 2)),
        optional_unsigned_field(field(v, "sequence"@, 3)),
        optional_text_field(field(v, "method"@, 4)),
        optional_bool_field(field(v, "success"@, 5)),
    ) {
        (
            Some(channel),
            Some(msg_type),
            Some(data),
            Some(sequence),
            Some(method),
            Some(success),
        ) => if is_record(v, 7)
            && members_once(v) {
            let error = written(any_field(field(v, "error"@, 6)));
            Some(KrakenView { channel, msg_type, data, sequence, method, success, error })
        } else {
            None
        },
        _ => None,
    }
}

/// The moment a timestamp stands for: a timestamp of RFC 3339, or else a
/// number of seconds.
pub open spec fn timestamp_value(ts: JsonText) -> Option<u64> {
    match rfc3339(ts.text@) {
        Some(ms) => Some(
            if ms >= 0 {
                ms as u64
            } else {
                (ms + 0x1_0000_0000_0000_0000) as u64
            },
        ),
        None => match ts.reading {
            Some(r) => Some(r.millis),
            None => None,
        },
    }
}

/// Reads a timestamp.
pub fn parse_kraken_timestamp(ts: &JsonText) -> (r: Option<u64>)
    ensures
        r == timestamp_value(*ts),
{
    match parse_rfc3339(ts.text.as_str()) {
        Some(ms) => Some(
            if ms >= 0 {
                ms as u64
            } else {
                u64::MAX - (-(ms + 1)) as u64
            },
        ),
        None => match &ts.reading {
            Some(r) => Some(r.millis),
            None => None,
        },
    }
}

/// A trade.
#[derive(Debug)]
pub struct TradeData {
    pub symbol: String,
    pub side: String,
    pub price: Num,
    pub qty: Num,
    pub trade_id: String,
    pub timestamp: String,
}

/// The mathematical content of a [`TradeData`].
pub struct TradeDataView {
    pub symbol: Seq<char>,
    pub side: Seq<char>,
    pub price: NumView,
    pub qty: NumView,
    pub trade_id: Seq<char>,
    pub timestamp: Seq<char>,
}

impl View for TradeData {
    type V = TradeDataView;

    open spec fn view(&self) -> TradeDataView {
        TradeDataView {
            symbol: self.symbol@,
            side: self.side@,
            price: self.price@,
            qty: self.qty@,
            trade_id: self.trade_id@,
            timestamp: self.timestamp@,
        }
    }
}

/// The trade that a JSON value stands for, if it has the right shape.
pub open spec fn trade_of(v: Json) -> Option<TradeDataView> {
    match (
        text_field(field(v, "symbol"@, 0)),
        text_field(field(v, "side"@, 1)),
        double_field(field(v, "price"@, 2)),
        double_field(field(v, "qty"@, 3)),
        number_or_text_field(field(v, "trade_id"@, 4)),
        text_field(field(v, "timestamp"@, 5)),
    ) {
        (
            Some(symbol),
            Some(side),
            Some(price),
            Some(qty),
            Some(trade_id),
            Some(timestamp),
        ) => if is_record(v, 6) {
            Some(
                TradeDataView {
                    symbol: symbol.text,
                    side: side.text,
                    price,
                    qty,
                    trade_id: trade_id.text,
                    timestamp: timestamp.text,
                },
            )
        } else {
            None
        },
        _ => None,
    }
}

impl TradeData {
    /// Reads a trade.
    pub fn from_value(v: &Json) -> (r: Option<TradeData>)
        ensures
            (match r {
                Some(t) => Some(t@),
                None => None,
            }) == trade_of(*v),
    {
        if !check_record(v, 6) {
            return None;
        }
        let symbol = read_text(get_field(v, "symbol", 0));
        let side = read_text(get_field(v, "side", 1));
        let price = read_double(get_field(v, "price", 2));
        let qty = read_double(get_field(v, "qty", 3));
        let trade_id = read_number_or_text(get_field(v, "trade_id", 4));
        let timestamp = read_text(get_field(v, "timestamp", 5));
        match (symbol, side, price, qty, trade_id, timestamp) {
            (
                Some(symbol),
                Some(side),
                Some(price),
                Some(qty),
                Some(trade_id),
                Some(timestamp),
            ) => Some(
                TradeData {
                    symbol: symbol.text,
                    side: side.text,
                    price,
                    qty,
                    trade_id: trade_id.text,
                    timestamp: timestamp.text,
                },
            ),
            _ => None,
        }
    }
}

/// A level as Kraken writes it.
#[derive(Debug)]
pub struct LobLevel {
    pub price: Num,
    pub qty: Num,
}

/// The mathematical content of a [`LobLevel`].
pub struct LobLevelView {
    pub price: NumView,
    pub qty: NumView,
}

impl View for LobLevel {
    type V = LobLevelView;

    open spec fn view(&self) -> LobLevelView {
        LobLevelView { price: self.price@, qty: self.qty@ }
    }
}

/// The level that a JSON value stands for, if it has the right shape.
pub open spec fn level_of(v: Json) -> Option<LobLevelView> {
    match (double_field(field(v, "price"@, 0)), double_field(field(v, "qty"@, 1))) {
        (Some(price), Some(qty)) => if is_record(v, 2) {
            Some(LobLevelView { price, qty })
        } else {
            None
        },
        _ => None,
    }
}

/// The levels that a JSON array stands for, if all have the right shape.
pub open spec fn levels_of(f: Option<Json>) -> Option<Seq<LobLevelView>> {
    match array_field(f) {
        Some(a) => if forall|i: int| 0 <= i < a.len() ==> level_of(#[trigger] a[i]) is Some {
            Some(a.map_values(|v: Json| level_of(v)->0))
        } else {
            None
        },
        None => None,
    }
}

/// The contents of levels.
pub open spec fn level_views(levels: Seq<LobLevel>) -> Seq<LobLevelView> {
    levels.map_values(|l: LobLevel| l@)
}

fn read_level(v: &Json) -> (r: Option<LobLevel>)
    ensures
        (match r {
            Some(l) => Some(l@),
            None => None,
        }) == level_of(*v),
{
    if !check_record(v, 2) {
        return None;
    }
    match (read_double(get_field(v, "price", 0)), read_double(get_field(v, "qty", 1))) {
        (Some(price), Some(qty)) => Some(LobLevel { price, qty }),
        _ => None,
    }
}

fn read_levels(f: Option<&Json>) -> (r: Option<Vec<LobLevel>>)
    ensures
        (match r {
            Some(l) => Some(level_views(l@)),
            None => None,
        }) == levels_of(deref(f)),
{
    match read_array(f) {
        None => None,
        Some(None) => {
            let none: Vec<LobLevel> = Vec::new();
            assert(elements(None) =~= Seq::<Json>::empty());
            assert(level_views(none@) =~= Seq::<Json>::empty().map_values(
                |v: Json| level_of(v)->0,
            ));
            Some(none)
        },
        Some(Some(a)) => {
            let ghost pick = |v: Json| level_of(v)->0;
            let mut out: Vec<LobLevel> = Vec::new();
            let mut i: usize = 0;
            while i < a.len()
                invariant
                    i <= a.len(),
                    array_field(deref(f)) == Some(a@),
                    out@.len() == i,
                    forall|j: int| 0 <= j < i ==> level_of(#[trigger] a@[j]) is Some,
                    forall|j: int| 0 <= j < i ==> (#[trigger] out@[j])@ == level_of(a@[j])->0,
                decreases a.len() - i,
            {
                match read_level(&a[i]) {
                    Some(l) => {
                        out.push(l);
                    },
                    None => {
                        assert(level_of(a@[i as int]) is None);
                        return None;
                    },
                }
                i += 1;
            }
            assert(level_views(out@) =~= a@.map_values(pick));
            Some(out)
        },
    }
}

/// A snapshot or an update of the book.
#[derive(Debug)]
pub struct LobData {
    pub symbol: String,
    pub bids: Vec<LobLevel>,
    pub asks: Vec<LobLevel>,
    pub checksum: i64,
    pub timestamp: String,
}

/// The mathematical content of a [`LobData`].
pub struct LobDataView {
    pub symbol: Seq<char>,
    pub bids: Seq<LobLevelView>,
    pub asks: Seq<LobLevelView>,
    pub checksum: i64,
    pub timestamp: Seq<char>,
}

impl View for LobData {
    type V = LobDataView;

    open spec fn view(&self) -> LobDataView {
        LobDataView {
            symbol: self.symbol@,
            bids: level_views(self.bids@),
            asks: level_views(self.asks@),
            checksum: self.checksum,
            timestamp: self.timestamp@,
        }
    }
}

/// The content of optional book data.
pub open spec fn lob_data_view(d: Option<LobData>) -> Option<LobDataView> {
    match d {
        Some(l) => Some(l@),
        None => None,
    }
}

/// The book data that a JSON value stands for, if it has the right shape.
pub open spec fn lob_data_of(v: Json) -> Option<LobDataView> {
    match (
        text_field(field(v, "symbol"@, 0)),
        levels_of(field(v, "bids"@, 1)),
        levels_of(field(v, "asks"@, 2)),
        signed_field(field(v, "checksum"@, 3)),
        text_field(field(v, "timestamp"@, 4)),
    ) {
        (Some(symbol), Some(bids), Some(asks), Some(checksum), Some(timestamp)) => if is_record(
            v,
            5,
        ) {
            Some(
                LobDataView {
                    symbol: symbol.text,
                    bids,
                    asks,
                    checksum,
                    timestamp: timestamp.text,
                },
            )
        } else {
            None
        },
        _ => None,
    }
}

impl LobData {
    /// Reads book data.
    pub fn from_value(v: &Json) -> (r: Option<LobData>)
        ensures
            lob_data_view(r) == lob_data_of(*v),
    {
        if !check_record(v, 5) {
            return None;
        }
        let symbol = read_text(get_field(v, "symbol", 0));
        let bids = read_levels(get_field(v, "bids", 1));
        let asks = read_levels(get_field(v, "asks", 2));
        let checksum = read_signed(get_field(v, "checksum", 3));
        let timestamp = read_text(get_field(v, "timestamp", 4));
        match (symbol, bids, asks, checksum, timestamp) {
            (Some(symbol), Some(bids), Some(asks), Some(checksum), Some(timestamp)) => Some(
                LobData { symbol: symbol.text, bids, asks, checksum, timestamp: timestamp.text },
            ),
            _ => None,
        }
    }
}

/// A price and a quantity that are both numbers.
pub open spec fn quoted(v: Json) -> Option<(Num, Num)> {
    match (v.at("price"@), v.at("qty"@)) {
        (Some(p), Some(q)) => match (p.double(), q.double()) {
            (Some(price), Some(qty)) => Some((price, qty)),
            _ => None,
        },
        _ => None,
    }
}

/// Reads a price and a quantity.
pub fn read_quote(v: &Json) -> (r: Option<(Num, Num)>)
    ensures
        r == quoted(*v),
{
    match (v.get("price"), v.get("qty")) {
        (Some(p), Some(q)) => match (p.as_double(), q.as_double()) {
            (Some(price), Some(qty)) => Some((price, qty)),
            _ => None,
        },
        _ => None,
    }
}

/// Levels for display: of those among the first `n` that are quotes, the
/// price to two decimals and the quantity to four in brackets.
pub open spec fn levels_line(a: Seq<Json>, n: int) -> Seq<PieceView>
    decreases n,
{
    if n <= 0 {
        Seq::empty()
    } else {
        let before = levels_line(a, n - 1);
        match quoted(a[n - 1]) {
            Some((price, qty)) => (if before.len() == 0 {
                before
            } else {
                before.push(PieceView::Text(", "@))
            }).push(PieceView::Fixed { num: price, decimals: 2 }).push(
                PieceView::Text(" ("@),
            ).push(PieceView::Fixed { num: qty, decimals: 4 }).push(PieceView::Text(")"@)),
            None => before,
        }
    }
}

/// The first two levels of a side, for display.
pub open spec fn top_levels(d: Json, key: Seq<char>) -> Seq<PieceView> {
    match d.at(key) {
        Some(Json::Arr(a)) => levels_line(
            a@,
            if a@.len() < 2 {
                a@.len() as int
            } else {
                2
            },
        ),
        _ => Seq::empty(),
    }
}

/// Formats the first two levels of a side.
fn format_top_levels(data: &Json, key: &str) -> (r: Vec<Piece>)
    ensures
        line(r@) == top_levels(*data, key@),
{
    let mut out: Vec<Piece> = Vec::new();
    assert(line(out@) =~= Seq::<PieceView>::empty());
    match data.get(key) {
        Some(v) => match v {
            Json::Arr(a) => {
                let n: usize = if a.len() < 2 { a.len() } else { 2 };
                let mut i: usize = 0;
                while i < n
                    invariant
                        i <= n <= a@.len(),
                        line(out@) == levels_line(a@, i as int),
                    decreases n - i,
                {
                    match read_quote(&a[i]) {
                        Some((price, qty)) => {
                            if out.len() != 0 {
                                add_text(&mut out, ", ");
                            }
                            add_fixed(&mut out, &price, 2);
                            add_text(&mut out, " (");
                            add_fixed(&mut out, &qty, 4);
                            add_text(&mut out, ")");
                        },
                        None => {},
                    }
                    i += 1;
                }
            },
            _ => {},
        },
        None => {},
    }
    out
}

impl KrakenView {
    /// The message holds a snapshot of the book: it has data, and says that it
    /// is a snapshot or does not say what it is.
    pub open spec fn is_snapshot(self) -> bool {
        self.data.len() > 0 && (self.msg_type is None || self.msg_type == Some("snapshot"@))
    }

    /// The message holds changes to the book.
    pub open spec fn is_update(self) -> bool {
        self.data.len() > 0 && self.msg_type == Some("update"@)
    }

    /// The checksum of the book that comes with the message; zero says that
    /// there is none.
    pub open spec fn checksum(self) -> Option<i64> {
        if self.data.len() == 0 {
            None
        } else {
            match self.data[0].at("checksum"@) {
                Some(c) => match c.signed() {
                    Some(n) => if n != 0 {
                        Some(n)
                    } else {
                        None
                    },
                    None => None,
                },
                None => None,
            }
        }
    }

    /// What the message is about.
    pub open spec fn message_type(self) -> MessageType {
        match self.channel {
            Some(c) => if c == "book"@ {
                if self.msg_type == Some("snapshot"@) {
                    MessageType::L2Snapshot
                } else if self.msg_type == Some("update"@) {
                    MessageType::L2Update
                } else {
                    MessageType::L2
                }
            } else if c == "trade"@ {
                MessageType::Trade
            } else if c == "heartbeat"@ {
                MessageType::Heartbeat
            } else if c == "status"@ {
                MessageType::Status
            } else if c == "instrument"@ {
                MessageType::Instrument
            } else {
                MessageType::Unknown
            },
            None => if self.method is Some {
                MessageType::Event
            } else {
                MessageType::Unknown
            },
        }
    }

    /// The timestamp of the first data entry.
    pub open spec fn timestamp_ms(self) -> Option<u64> {
        if self.data.len() == 0 {
            None
        } else {
            match self.data[0].at("timestamp"@) {
                Some(Json::Str(t)) => timestamp_value(t),
                _ => None,
            }
        }
    }

    /// The symbol of the first data entry, or a question mark.
    pub open spec fn symbol(self) -> Seq<char> {
        if self.data.len() == 0 {
            "?"@
        } else {
            match self.data[0].at("symbol"@) {
                Some(Json::Str(t)) => t.text@,
                _ => "?"@,
            }
        }
    }

    /// One line about the message.
    pub open spec fn summary(self) -> Seq<PieceView> {
        match self.message_type() {
            MessageType::L2Snapshot | MessageType::L2Update | MessageType::L2 => {
                if self.data.len() == 0 {
                    seq![PieceView::Text(self.symbol() + " "@)]
                } else {
                    seq![PieceView::Text(self.symbol() + " "@), PieceView::Text("bids: "@)]
                        + top_levels(self.data[0], "bids"@) + seq![PieceView::Text(" | asks: "@)]
                        + top_levels(self.data[0], "asks"@)
                }
            },
            MessageType::Trade => seq![PieceView::Text(self.symbol())] + trade_line(self.data),
            MessageType::Heartbeat => seq![PieceView::Text("heartbeat"@)],
            MessageType::Status => seq![PieceView::Text("status"@)],
            MessageType::Event => seq![PieceView::Text(self.event_line())],
            MessageType::Instrument | MessageType::Unknown => seq![PieceView::Text(self.symbol())],
        }
    }

    /// The line about an event: the method, and how it ended.
    pub open spec fn event_line(self) -> Seq<char> {
        let method = match self.method {
            Some(m) => m,
            None => "?"@,
        };
        match self.success {
            Some(true) => method + " success"@,
            Some(false) => match self.error {
                Some(e) => method + " error"@ + ": "@ + e,
                None => method + " error"@,
            },
            None => method,
        }
    }
}

/// The line about a trade, after the symbol.
pub open spec fn trade_line(data: Seq<Json>) -> Seq<PieceView> {
    if data.len() > 0 && trade_of(data[0]) is Some {
        quote_line(data[0])
    } else {
        seq![PieceView::Text(" (raw)"@)]
    }
}

/// The price, the quantity and the side of a trade. A number that is absent
/// is zero, which is shown as text.
pub open spec fn quote_line(v: Json) -> Seq<PieceView> {
    let t = trade_of(v)->0;
    seq![
        PieceView::Text(" @ "@),
        shown(field(v, "price"@, 2)),
        PieceView::Text(" sz="@),
        shown(field(v, "qty"@, 3)),
        PieceView::Text(" side="@ + t.side),
    ]
}

/// A number to four decimals, zero where it is absent.
pub open spec fn shown(f: Option<Json>) -> PieceView {
    match f {
        Some(v) => match v.double() {
            Some(n) => PieceView::Fixed { num: n, decimals: 4 },
            None => PieceView::Text("0.0000"@),
        },
        None => PieceView::Text("0.0000"@),
    }
}

fn add_shown(out: &mut Vec<Piece>, f: Option<&Json>)
    ensures
        line(final(out)@) == line(old(out)@).push(shown(deref(f))),
{
    match f {
        Some(v) => match v.as_double() {
            Some(n) => add_fixed(out, &n, 4),
            None => add_text(out, "0.0000"),
        },
        None => add_text(out, "0.0000"),
    }
}

impl<'a> KrakenWsMessage<'a> {
    /// Whether the message holds a snapshot of the book.
    pub fn is_snapshot(&self) -> (r: bool)
        ensures
            r == self@.is_snapshot(),
    {
        self.first().is_some() && (self.msg_type.is_none() || is_text(self.msg_type, "snapshot"))
    }

    /// Whether the message holds changes to the book.
    pub fn is_update(&self) -> (r: bool)
        ensures
            r == self@.is_update(),
    {
        self.first().is_some() && is_text(self.msg_type, "update")
    }

    /// The checksum of the book that comes with the message.
    pub fn checksum(&self) -> (r: Option<i64>)
        ensures
            r == self@.checksum(),
    {
        match self.first() {
            Some(d) => match d.get("checksum") {
                Some(c) => match c.as_signed() {
                    Some(n) => if n != 0 {
                        Some(n)
                    } else {
                        None
                    },
                    None => None,
                },
                None => None,
            },
            None => None,
        }
    }

    /// Reads a message; `None` where the value does not have the right shape.
    pub fn from_value(v: &'a Json) -> (r: Option<KrakenWsMessage<'a>>)
        ensures
            (match r {
                Some(m) => Some(m@),
                None => None,
            }) == message_of(*v),
    {
        if !check_record(v, 7) || !check_members(v) {
            return None;
        }
        let channel = read_optional_text(get_field(v, "channel", 0));
        let msg_type = read_optional_text(get_field(v, "type", 1));
        let data = read_array(get_field(v, "data", 2));
        let sequence = read_optional_unsigned(get_field(v, "sequence", 3));
        let method = read_optional_text(get_field(v, "method", 4));
        let success = read_optional_bool(get_field(v, "success", 5));
        let error: Option<&'a Json> = read_any(get_field(v, "error", 6));
        match (channel, msg_type, data, sequence, method, success) {
            (
                Some(channel),
                Some(msg_type),
                Some(data),
                Some(sequence),
                Some(method),
                Some(success),
            ) => Some(
                KrakenWsMessage { channel, msg_type, data, sequence, method, success, error },
            ),
            _ => None,
        }
    }

    /// The first data entry.
    pub fn first(&self) -> (r: Option<&'a Json>)
        ensures
            r is Some <==> self@.data.len() > 0,
            r matches Some(d) ==> *d == self@.data[0],
    {
        match self.data {
            Some(data) => if data.len() > 0 {
                Some(&data[0])
            } else {
                None
            },
            None => None,
        }
    }

    /// What the message is about.
    pub fn message_type(&self) -> (r: MessageType)
        ensures
            r == self@.message_type(),
    {
        match self.channel {
            Some(c) => if same_text(c, "book") {
                if is_text(self.msg_type, "snapshot") {
                    MessageType::L2Snapshot
                } else if is_text(self.msg_type, "update") {
                    MessageType::L2Update
                } else {
                    MessageType::L2
                }
            } else if same_text(c, "trade") {
                MessageType::Trade
            } else if same_text(c, "heartbeat") {
                MessageType::Heartbeat
            } else if same_text(c, "status") {
                MessageType::Status
            } else if same_text(c, "instrument") {
                MessageType::Instrument
            } else {
                MessageType::Unknown
            },
            None => if self.method.is_some() {
                MessageType::Event
            } else {
                MessageType::Unknown
            },
        }
    }

    /// The tag the message is shown under.
    pub fn display_type(&self) -> (r: &'static str)
        ensures
            r@ == self@.message_type().tag(),
    {
        match self.message_type() {
            MessageType::Heartbeat => "HEARTBEAT",
            MessageType::Status => "STATUS",
            MessageType::Instrument => "INSTRUMENT",
            MessageType::Event => "EVENT",
            MessageType::L2Snapshot => "LOB2 SNAPSHOT",
            MessageType::L2Update => "LOB2 UPDATE",
            MessageType::L2 => "LOB2",
            MessageType::Trade => "TRADE",
            MessageType::Unknown => "UNKNOWN",
        }
    }

    fn symbol(&self) -> (r: &'a str)
        ensures
            r@ == self@.symbol(),
    {
        match self.first() {
            Some(d) => match d.get("symbol") {
                Some(v) => match v {
                    Json::Str(t) => t.text.as_str(),
                    _ => "?",
                },
                None => "?",
            },
            None => "?",
        }
    }

    /// One line about the message.
    pub fn summary(&self) -> (r: Vec<Piece>)
        ensures
            line(r@) == self@.summary(),
    {
        let mut out: Vec<Piece> = Vec::new();
        assert(line(out@) =~= Seq::<PieceView>::empty());
        match self.message_type() {
            MessageType::L2Snapshot | MessageType::L2Update | MessageType::L2 => {
                add_text(&mut out, self.symbol().to_owned().concat(" ").as_str());
                match self.first() {
                    Some(d) => {
                        add_text(&mut out, "bids: ");
                        add_line(&mut out, format_top_levels(d, "bids"));
                        add_text(&mut out, " | asks: ");
                        add_line(&mut out, format_top_levels(d, "asks"));
                    },
                    None => {},
                }
            },
            MessageType::Trade => {
                add_text(&mut out, self.symbol());
                let trade: Option<TradeData> = match self.first() {
                    Some(d) => TradeData::from_value(d),
                    None => None,
                };
                match (self.first(), trade) {
                    (Some(d), Some(t)) => {
                        add_text(&mut out, " @ ");
                        add_shown(&mut out, get_field(d, "price", 2));
                        add_text(&mut out, " sz=");
                        add_shown(&mut out, get_field(d, "qty", 3));
                        add_text(&mut out, " side=".to_owned().concat(t.side.as_str()).as_str());
                    },
                    _ => {
                        add_text(&mut out, " (raw)");
                    },
                }
            },
            MessageType::Heartbeat => {
                add_text(&mut out, "heartbeat");
            },
            MessageType::Status => {
                add_text(&mut out, "status");
            },
            MessageType::Event => {
                let mut s: String = self.method.unwrap_or("?").to_owned();
                match self.success {
                    Some(ok) => if ok {
                        s.append(" success");
                    } else {
                        s.append(" error");
                        match self.error {
                            Some(e) => {
                                s.append(": ");
                                s.append(write_json(e).as_str());
                            },
                            None => {},
                        }
                    },
                    None => {},
                }
                add_text(&mut out, s.as_str());
            },
            MessageType::Instrument | MessageType::Unknown => {
                add_text(&mut out, self.symbol());
            },
        }
        assert(line(out@) =~= self@.summary());
        out
    }

    /// The exchange's timestamp in milliseconds since the epoch.
    pub fn timestamp_ms(&self) -> (r: Option<u64>)
        ensures
            r == self@.timestamp_ms(),
    {
        match self.first() {
            Some(d) => match d.get("timestamp") {
                Some(v) => match v {
                    Json::Str(t) => parse_kraken_timestamp(t),
                    _ => None,
                },
                None => None,
            },
            None => None,
        }
    }

    /// The time of day of the message; where it has no timestamp, that of `now`.
    pub fn formatted_time_at(&self, now: u64) -> (r: String)
        ensures
            r@ == time_of_day(moment(self@.timestamp_ms(), now) as int),
    {
        match self.timestamp_ms() {
            Some(ms) => time_text(ms),
            None => time_text(now),
        }
    }

    /// The time of day of the message; where it has no timestamp, that of
    /// the clock.
    pub fn formatted_time(&self) -> (r: String)
        ensures
            exists|now: u64|
                r@ == time_of_day(#[trigger] moment(self@.timestamp_ms(), now) as int),
    {
        let now: u64 = now_millis();
        self.formatted_time_at(now)
    }

    /// The book data of a snapshot.
    pub fn lob_snapshot(&self) -> (r: Option<LobData>)
        ensures
            lob_data_view(r) == (if self@.message_type() == MessageType::L2Snapshot
                && self@.data.len() > 0 {
                lob_data_of(self@.data[0])
            } else {
                None
            }),
    {
        if !is_text(self.msg_type, "snapshot") || !is_text(self.channel, "book") {
            return None;
        }
        match self.first() {
            Some(d) => LobData::from_value(d),
            None => None,
        }
    }

    /// The book data of an update.
    pub fn lob_update(&self) -> (r: Option<LobData>)
        ensures
            lob_data_view(r) == (if self@.message_type() == MessageType::L2Update
                && self@.data.len() > 0 {
                lob_data_of(self@.data[0])
            } else {
                None
            }),
    {
        proof {
            reveal_strlit("snapshot");
            reveal_strlit("update");
            assert("snapshot"@.len() != "update"@.len());
        }
        if !is_text(self.msg_type, "update") || !is_text(self.channel, "book") {
            return None;
        }
        match self.first() {
            Some(d) => LobData::from_value(d),
            None => None,
        }
    }
}

impl MessageType {
    /// The tag that messages are shown under.
    pub open spec fn tag(self) -> Seq<char> {
        match self {
            MessageType::Heartbeat => "HEARTBEAT"@,
            MessageType::Status => "STATUS"@,
            MessageType::Instrument => "INSTRUMENT"@,
            MessageType::Event => "EVENT"@,
            MessageType::L2Snapshot => "LOB2 SNAPSHOT"@,
            MessageType::L2Update => "LOB2 UPDATE"@,
            MessageType::L2 => "LOB2"@,
            MessageType::Trade => "TRADE"@,
            MessageType::Unknown => "UNKNOWN"@,
        }
    }
}

/// The symbols of an array of pairs: of each element, the member `symbol`
/// where it is a text.
pub open spec fn symbols_of(a: Seq<Json>) -> Seq<Seq<char>>
    decreases a.len(),
{
    if a.len() == 0 {
        Seq::empty()
    } else {
        match a.last().at("symbol"@) {
            Some(Json::Str(t)) => symbols_of(a.drop_last()).push(t.text@),
            _ => symbols_of(a.drop_last()),
        }
    }
}

/// The symbols that a message of the instrument channel lists; `None` for
/// any other value.
pub open spec fn instrument_list(v: Json) -> Option<Seq<Seq<char>>> {
    match (v.at("channel"@), v.at("data"@)) {
        (Some(Json::Str(c)), Some(d)) => if c.text@ == "instrument"@ {
            match d.at("pairs"@) {
                Some(Json::Arr(a)) => Some(symbols_of(a@)),
                _ => None,
            }
        } else {
            None
        },
        _ => None,
    }
}

/// The symbols that a message of the instrument channel lists.
pub fn instrument_symbols(v: &Json) -> (r: Option<Vec<String>>)
    ensures
        (match r {
            Some(s) => Some(crate::instrument::texts(s@)),
            None => None,
        }) == instrument_list(*v),
{
    match (v.get("channel"), v.get("data")) {
        (Some(c), Some(d)) => {
            let named: bool = match c {
                Json::Str(t) => same_text(t.text.as_str(), "instrument"),
                _ => false,
            };
            if !named {
                return None;
            }
            match d.get("pairs") {
                Some(p) => match p {
                    Json::Arr(a) => Some(collect_symbols(a)),
                    _ => None,
                },
                None => None,
            }
        },
        _ => None,
    }
}

fn collect_symbols(a: &Vec<Json>) -> (r: Vec<String>)
    ensures
        crate::instrument::texts(r@) == symbols_of(a@),
{
    let mut out: Vec<String> = Vec::new();
    let mut i: usize = 0;
    proof {
        assert(a@.take(0) =~= Seq::<Json>::empty());
        assert(crate::instrument::texts(out@) =~= Seq::<Seq<char>>::empty());
    }
    while i < a.len()
        invariant
            i <= a.len(),
            crate::instrument::texts(out@) == symbols_of(a@.take(i as int)),
        decreases a.len() - i,
    {
        let ghost before = crate::instrument::texts(out@);
        assert(a@.take(i + 1).drop_last() =~= a@.take(i as int));
        match a[i].get("symbol") {
            Some(s) => match s {
                Json::Str(t) => {
                    out.push(t.text.clone());
                    assert(crate::instrument::texts(out@) =~= before.push(t.text@));
                },
                _ => {},
            },
            None => {},
        }
        i += 1;
    }
    assert(a@.take(a@.len() as int) =~= a@);
    out
}

} // verus!

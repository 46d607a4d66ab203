//! Messages of OKX.

use crate::clock::moment;
use crate::clock::now_millis;
use crate::json::array_field;
use crate::json::check_named_once;
use crate::json::check_record;
use crate::json::deref;
use crate::json::elements;
use crate::json::field;
use crate::json::get_field;
use crate::json::is_record;
use crate::json::is_text;
use crate::json::named_once;
use crate::json::optional_text_field;
use crate::json::optional_unsigned_field;
use crate::json::read_array;
use crate::json::read_optional_text;
use crate::json::read_optional_unsigned;
use crate::json::read_text;
use crate::json::rows_view;
use crate::json::text_field;
use crate::json::view_str;
use crate::json::Json;
use crate::json::JsonText;
use crate::json::JsonTextView;
use crate::num::Num;
use crate::text::parse_unsigned;
use crate::text::time_of_day;
use crate::text::time_text;
use crate::text::unsigned_value;
use vstd::prelude::*;

verus! {

/// What a message is about.
#[derive(Debug, Clone, Copy, PartialEq, Eq, Structural)]
pub enum MessageType {
    L2Snapshot,
    L2Update,
    L2,
    Trade,
    Event,
    Unknown,
}

impl MessageType {
    /// The tag that messages are shown under.
    pub open spec fn tag(self) -> Seq<char> {
        match self {
            MessageType::L2Snapshot => "LOB2 SNAPSHOT"@,
            MessageType::L2Update => "LOB2 UPDATE"@,
            MessageType::L2 => "LOB2"@,
            MessageType::Trade => "TRADE"@,
            MessageType::Event => "EVENT"@,
            MessageType::Unknown => "UNKNOWN"@,
        }
    }
}

/// The texts of a price level: the price, the size, and what else there is.
pub type PriceLevel = Vec<JsonText>;

/// The texts among the elements of an array.
pub open spec fn texts_among(a: Seq<Json>) -> Seq<JsonText>
    decreases a.len(),
{
    if a.len() == 0 {
        Seq::empty()
    } else {
        match a.last() {
            Json::Str(t) => texts_among(a.drop_last()).push(t),
            _ => texts_among(a.drop_last()),
        }
    }
}

/// The rows of an array: of each element that is an array, its texts.
pub open spec fn rows_among(a: Seq<Json>) -> Seq<Seq<JsonText>>
    decreases a.len(),
{
    if a.len() == 0 {
        Seq::empty()
    } else {
        match a.last() {
            Json::Arr(row) => rows_among(a.drop_last()).push(texts_among(row@)),
            _ => rows_among(a.drop_last()),
        }
    }
}

/// The price levels at a key of a data entry.
pub open spec fn levels_at(d: Json, key: Seq<char>) -> Seq<Seq<JsonText>> {
    match d.at(key) {
        Some(Json::Arr(a)) => rows_among(a@),
        _ => Seq::empty(),
    }
}

fn collect_texts(a: &Vec<Json>) -> (r: Vec<JsonText>)
    ensures
        r@ == texts_among(a@),
{
    let mut out: Vec<JsonText> = Vec::new();
    let mut i: usize = 0;
    assert(a@.take(0) =~= Seq::<Json>::empty());
    while i < a.len()
        invariant
            i <= a.len(),
            out@ == texts_among(a@.take(i as int)),
        decreases a.len() - i,
    {
        assert(a@.take(i + 1).drop_last() =~= a@.take(i as int));
        match &a[i] {
            Json::Str(t) => {
                out.push(t.clone());
            },
            _ => {},
        }
        i += 1;
    }
    assert(a@.take(a@.len() as int) =~= a@);
    out
}

/// Extracts the price levels at a key of a data entry.
pub fn extract_levels(data: &Json, key: &str) -> (r: Vec<PriceLevel>)
    ensures
        rows_view(r@) == levels_at(*data, key@),
{
    let mut out: Vec<PriceLevel> = Vec::new();
    assert(rows_view(out@) =~= Seq::<Seq<JsonText>>::empty());
    match data.get(key) {
        Some(v) => match v {
            Json::Arr(a) => {
                let mut i: usize = 0;
                assert(a@.take(0) =~= Seq::<Json>::empty());
                while i < a.len()
                    invariant
                        i <= a.len(),
                        rows_view(out@) == rows_among(a@.take(i as int)),
                    decreases a.len() - i,
                {
                    let ghost before = rows_view(out@);
                    assert(a@.take(i + 1).drop_last() =~= a@.take(i as int));
                    match &a[i] {
                        Json::Arr(row) => {
                            out.push(collect_texts(row));
                            assert(rows_view(out@) =~= before.push(texts_among(row@)));
                        },
                        _ => {},
                    }
                    i += 1;
                }
                assert(a@.take(a@.len() as int) =~= a@);
            },
            _ => {},
        },
        None => {},
    }
    out
}

/// The price and the size of a level: its first two texts, where both spell
/// numbers.
pub open spec fn level_numbers(level: Seq<JsonText>) -> Option<(Num, Num)> {
    if level.len() < 2 {
        None
    } else {
        match (level[0]@.num(), level[1]@.num()) {
            (Some(price), Some(size)) => Some((price, size)),
            _ => None,
        }
    }
}

/// Reads the price and the size of a level.
pub fn parse_price_level(level: &PriceLevel) -> (r: Option<(Num, Num)>)
    ensures
        r == level_numbers(level@),
{
    if level.len() < 2 {
        return None;
    }
    match (level[0].num(), level[1].num()) {
        (Some(price), Some(size)) => Some((price, size)),
        _ => None,
    }
}

/// A trade.
#[derive(Debug)]
pub struct TradeData {
    pub px: JsonText,
    pub sz: JsonText,
    pub side: String,
    pub trade_id: String,
    pub ts: String,
    pub seq_id: Option<u64>,
}

/// The mathematical content of a [`TradeData`].
pub struct TradeDataView {
    pub px: JsonTextView,
    pub sz: JsonTextView,
    pub side: Seq<char>,
    pub trade_id: Seq<char>,
    pub ts: Seq<char>,
    pub seq_id: Option<u64>,
}

impl View for TradeData {
    type V = TradeDataView;

    open spec fn view(&self) -> TradeDataView {
        TradeDataView {
            px: self.px@,
            sz: self.sz@,
            side: self.side@,
            trade_id: self.trade_id@,
            ts: self.ts@,
            seq_id: self.seq_id,
        }
    }
}

/// The trade that a JSON value stands for, if it has the right shape.
pub open spec fn trade_of(v: Json) -> Option<TradeDataView> {
    match (
        text_field(field(v, "px"@, 0)),
        text_field(field(v, "sz"@, 1)),
        text_field(field(v, "side"@, 2)),
        text_field(field(v, "tradeId"@, 3)),
        text_field(field(v, "ts"@, 4)),
        optional_unsigned_field(field(v, "seqId"@, 5)),
    ) {
        (Some(px), Some(sz), Some(side), Some(trade_id), Some(ts), Some(seq_id)) => if is_record(
            v,
            6,
        ) {
            Some(
                TradeDataView {
                    px,
                    sz,
                    side: side.text,
                    trade_id: trade_id.text,
                    ts: ts.text,
                    seq_id,
                },
            )
        } else {
            None
        },
        _ => None,
    }
}

impl TradeData {
    /// Reads a trade.
    pub fn from_value(v: &Json) -> (r: Option<TradeData>)
        ensures
            (match r {
                Some(t) => Some(t@),
                None => None,
            }) == trade_of(*v),
    {
        if !check_record(v, 6) {
            return None;
        }
        let px = read_text(get_field(v, "px", 0));
        let sz = read_text(get_field(v, "sz", 1));
        let side = read_text(get_field(v, "side", 2));
        let trade_id = read_text(get_field(v, "tradeId", 3));
        let ts = read_text(get_field(v, "ts", 4));
        let seq_id = read_optional_unsigned(get_field(v, "seqId", 5));
        match (px, sz, side, trade_id, ts, seq_id) {
            (
                Some(px),
                Some(sz),
                Some(side),
                Some(trade_id),
                Some(ts),
                Some(seq_id),
            ) => Some(
                TradeData {
                    px,
                    sz,
                    side: side.text,
                    trade_id: trade_id.text,
                    ts: ts.text,
                    seq_id,
                },
            ),
            _ => None,
        }
    }
}

/// The channel and the instrument that a message belongs to.
#[derive(Debug)]
pub struct Arg<'a> {
    pub channel: Option<&'a str>,
    pub inst_id: Option<&'a str>,
}

/// The mathematical content of an [`Arg`].
pub struct ArgView {
    pub channel: Option<Seq<char>>,
    pub inst_id: Option<Seq<char>>,
}

impl<'a> View for Arg<'a> {
    type V = ArgView;

    open spec fn view(&self) -> ArgView {
        ArgView { channel: view_str(self.channel), inst_id: view_str(self.inst_id) }
    }
}

/// The content of an optional argument.
pub open spec fn arg_view(arg: Option<Arg>) -> Option<ArgView> {
    match arg {
        Some(a) => Some(a@),
        None => None,
    }
}

/// No member of an argument is named twice.
pub open spec fn arg_members_once(v: Json) -> bool {
    &&& named_once(v, "channel"@)
    &&& named_once(v, "instId"@)
}

fn check_arg_members(v: &Json) -> (r: bool)
    ensures
        r == arg_members_once(*v),
{
    check_named_once(v, "channel")
        && check_named_once(v, "instId")
}

/// The argument that a field stands for: absent or null, there is none; a
/// value of the wrong shape is an error.
pub open spec fn arg_field(f: Option<Json>) -> Option<Option<ArgView>> {
    match f {
        None => Some(None),
        Some(Json::Null) => Some(None),
        Some(v) => match (
            optional_text_field(field(v, "channel"@, 0)),
            optional_text_field(field(v, "instId"@, 1)),
        ) {
            (Some(channel), Some(inst_id)) => if is_record(v, 2) && arg_members_once(v) {
                Some(Some(ArgView { channel, inst_id }))
            } else {
                None
            },
            _ => None,
        },
    }
}

fn read_arg<'a>(f: Option<&'a Json>) -> (r: Option<Option<Arg<'a>>>)
    ensures
        (match r {
            Some(a) => Some(arg_view(a)),
            None => None,
        }) == arg_field(deref(f)),
{
    match f {
        None => Some(None),
        Some(v) => {
            match v {
                Json::Null => {
                    return Some(None);
                },
                _ => {},
            }
            if !check_record(v, 2) || !check_arg_members(v) {
                return None;
            }
            match (
                read_optional_text(get_field(v, "channel", 0)),
                read_optional_text(get_field(v, "instId", 1)),
            ) {
                (Some(channel), Some(inst_id)) => Some(Some(Arg { channel, inst_id })),
                _ => None,
            }
        },
    }
}

/// The envelope of a message.
#[derive(Debug)]
pub struct OkxWsMessage<'a> {
    pub event: Option<&'a str>,
    pub arg: Option<Arg<'a>>,
    pub action: Option<&'a str>,
    pub data: Option<&'a Vec<Json>>,
    pub ts: Option<&'a str>,
}

/// The mathematical content of an [`OkxWsMessage`].
pub struct OkxView {
    pub event: Option<Seq<char>>,
    pub arg: Option<ArgView>,
    pub action: Option<Seq<char>>,
    pub data: Seq<Json>,
    pub ts: Option<Seq<char>>,
}

impl<'a> View for OkxWsMessage<'a> {
    type V = OkxView;

    open spec fn view(&self) -> OkxView {
        OkxView {
            event: view_str(self.event),
            arg: arg_view(self.arg),
            action: view_str(self.action),
            data: elements(self.data),
            ts: view_str(self.ts),
        }
    }
}

/// No member of a message is named twice.
pub open spec fn members_once(v: Json) -> bool {
    &&& named_once(v, "event"@)
    &&& named_once(v, "arg"@)
    &&& named_once(v, "action"@)
    &&& named_once(v, "data"@)
    &&& named_once(v, "ts"@)
}

fn check_members(v: &Json) -> (r: bool)
    ensures
        r == members_once(*v),
{
    check_named_once(v, "event")
        && check_named_once(v, "arg")
        && check_named_once(v, "action")
        && check_named_once(v, "data")
        && check_named_once(v, "ts")
}

/// The message that a JSON value stands for, if it has the right shape.
pub open spec fn message_of(v: Json) -> Option<OkxView> {
    match (
        optional_text_field(field(v, "event"@, 0)),
        arg_field(field(v, "arg"@, 1)),
        optional_text_field(field(v, "action"@, 2)),
        array_field(field(v, "data"@, 3)),
        optional_text_field(field(v, "ts"@, 4)),
    ) {
        (Some(event), Some(arg), Some(action), Some(data), Some(ts)) => if is_record(v, 5)
            && members_once(v) {
            Some(OkxView { event, arg, action, data, ts })
        } else {
            None
        },
        _ => None,
    }
}

impl OkxView {
    /// The message holds a snapshot of the book: it has data, and says that it
    /// is a snapshot or does not say what it is.
    pub open spec fn is_snapshot(self) -> bool {
        self.data.len() > 0 && (self.action is None || self.action == Some("snapshot"@))
    }

    /// The message holds changes to the book.
    pub open spec fn is_update(self) -> bool {
        self.data.len() > 0 && self.action == Some("update"@)
    }

    /// The checksum of the book that comes with the message; zero says that
    /// there is none.
    pub open spec fn checksum(self) -> Option<i64> {
        if self.data.len() == 0 {
            None
        } else {
            match self.data[0].at("checksum"@) {
                Some(c) => match c.signed() {
                    Some(n) => if n != 0 {
                        Some(n)
                    } else {
                        None
                    },
                    None => None,
                },
                None => None,
            }
        }
    }

    /// The channel of the message.
    pub open spec fn channel(self) -> Option<Seq<char>> {
        match self.arg {
            Some(a) => a.channel,
            None => None,
        }
    }

    /// The instrument of the message, or a question mark.
    pub open spec fn instrument(self) -> Seq<char> {
        match self.arg {
            Some(a) => match a.inst_id {
                Some(i) => i,
                None => "?"@,
            },
            None => "?"@,
        }
    }

    /// What the message is about.
    pub open spec fn message_type(self) -> MessageType {
        if self.event is Some {
            MessageType::Event
        } else if self.channel() == Some("books"@) {
            if self.action == Some("snapshot"@) {
                MessageType::L2Snapshot
            } else if self.action == Some("update"@) {
                MessageType::L2Update
            } else {
                MessageType::L2
            }
        } else if self.channel() == Some("trades"@) {
            MessageType::Trade
        } else {
            MessageType::Unknown
        }
    }

    /// The timestamp of the first data entry.
    pub open spec fn timestamp_ms(self) -> Option<u64> {
        if self.data.len() == 0 {
            None
        } else {
            match self.data[0].at("ts"@) {
                Some(Json::Str(t)) => unsigned_value(t.text@),
                _ => None,
            }
        }
    }

    /// One line about the message.
    pub open spec fn summary(self) -> Seq<char> {
        match self.message_type() {
            MessageType::L2Snapshot | MessageType::L2Update | MessageType::L2 => {
                if self.data.len() == 0 {
                    self.instrument() + " "@
                } else {
                    self.instrument() + " "@ + "bids: "@ + levels_text(
                        levels_at(self.data[0], "bids"@),
                    ) + " | asks: "@ + levels_text(levels_at(self.data[0], "asks"@))
                }
            },
            MessageType::Trade => self.instrument() + (if self.data.len() > 0 && trade_of(
                self.data[0],
            ) is Some {
                trade_text(trade_of(self.data[0])->0)
            } else {
                " (raw)"@
            }),
            MessageType::Event => self.event->0,
            MessageType::Unknown => self.instrument(),
        }
    }
}

/// The line about a trade, after the instrument.
pub open spec fn trade_text(t: TradeDataView) -> Seq<char> {
    " @ "@ + t.px.text + " sz="@ + t.sz.text + " side="@ + t.side
}

/// The first two levels: the price, and the size in brackets.
pub open spec fn levels_text(levels: Seq<Seq<JsonText>>) -> Seq<char> {
    if levels.len() == 0 {
        Seq::empty()
    } else if levels.len() == 1 {
        level_text(levels[0])
    } else {
        level_text(levels[0]) + ", "@ + level_text(levels[1])
    }
}

/// A level: its first text, and the second in brackets.
pub open spec fn level_text(level: Seq<JsonText>) -> Seq<char> {
    if level.len() < 2 {
        "?"@
    } else {
        level[0].text@ + " ("@ + level[1].text@ + ")"@
    }
}

fn format_level(level: &PriceLevel) -> (r: String)
    ensures
        r@ == level_text(level@),
{
    if level.len() < 2 {
        "?".to_owned()
    } else {
        level[0].text.clone().concat(" (").concat(level[1].text.as_str()).concat(")")
    }
}

fn format_top_levels(data: &Json, key: &str) -> (r: String)
    ensures
        r@ == levels_text(levels_at(*data, key@)),
{
    let levels: Vec<PriceLevel> = extract_levels(data, key);
    let ghost rows = rows_view(levels@);
    assert(levels@.len() == rows.len());
    if levels.len() == 0 {
        String::new()
    } else if levels.len() == 1 {
        assert(rows[0] == levels@[0]@);
        format_level(&levels[0])
    } else {
        assert(rows[0] == levels@[0]@);
        assert(rows[1] == levels@[1]@);
        format_level(&levels[0]).concat(", ").concat(format_level(&levels[1]).as_str())
    }
}

impl<'a> OkxWsMessage<'a> {
    /// Whether the message holds a snapshot of the book.
    pub fn is_snapshot(&self) -> (r: bool)
        ensures
            r == self@.is_snapshot(),
    {
        self.first().is_some() && (self.action.is_none() || is_text(self.action, "snapshot"))
    }

    /// Whether the message holds changes to the book.
    pub fn is_update(&self) -> (r: bool)
        ensures
            r == self@.is_update(),
    {
        self.first().is_some() && is_text(self.action, "update")
    }

    /// The checksum of the book that comes with the message.
    pub fn checksum(&self) -> (r: Option<i64>)
        ensures
            r == self@.checksum(),
    {
        match self.first() {
            Some(d) => match d.get("checksum") {
                Some(c) => match c.as_signed() {
                    Some(n) => if n != 0 {
                        Some(n)
                    } else {
                        None
                    },
                    None => None,
                },
                None => None,
            },
            None => None,
        }
    }

    /// Reads a message; `None` where the value does not have the right shape.
    pub fn from_value(v: &'a Json) -> (r: Option<OkxWsMessage<'a>>)
        ensures
            (match r {
                Some(m) => Some(m@),
                None => None,
            }) == message_of(*v),
    {
        if !check_record(v, 5) || !check_members(v) {
            return None;
        }
        let event = read_optional_text(get_field(v, "event", 0));
        let arg = read_arg(get_field(v, "arg", 1));
        let action = read_optional_text(get_field(v, "action", 2));
        let data = read_array(get_field(v, "data", 3));
        let ts = read_optional_text(get_field(v, "ts", 4));
        match (event, arg, action, data, ts) {
            (Some(event), Some(arg), Some(action), Some(data), Some(ts)) => Some(
                OkxWsMessage { event, arg, action, data, ts },
            ),
            _ => None,
        }
    }

    /// The first data entry.
    pub fn first(&self) -> (r: Option<&'a Json>)
        ensures
            r is Some <==> self@.data.len() > 0,
            r matches Some(d) ==> *d == self@.data[0],
    {
        match self.data {
            Some(data) => if data.len() > 0 {
                Some(&data[0])
            } else {
                None
            },
            None => None,
        }
    }

    fn channel(&self) -> (r: Option<&'a str>)
        ensures
            view_str(r) == self@.channel(),
    {
        match &self.arg {
            Some(a) => a.channel,
            None => None,
        }
    }

    fn instrument(&self) -> (r: &'a str)
        ensures
            r@ == self@.instrument(),
    {
        match &self.arg {
            Some(a) => match a.inst_id {
                Some(i) => i,
                None => "?",
            },
            None => "?",
        }
    }

    /// What the message is about.
    pub fn message_type(&self) -> (r: MessageType)
        ensures
            r == self@.message_type(),
    {
        if self.event.is_some() {
            MessageType::Event
        } else if is_text(self.channel(), "books") {
            if is_text(self.action, "snapshot") {
                MessageType::L2Snapshot
            } else if is_text(self.action, "update") {
                MessageType::L2Update
            } else {
                MessageType::L2
            }
        } else if is_text(self.channel(), "trades") {
            MessageType::Trade
        } else {
            MessageType::Unknown
        }
    }

    /// The tag the message is shown under.
    pub fn display_type(&self) -> (r: &'static str)
        ensures
            r@ == self@.message_type().tag(),
    {
        match self.message_type() {
            MessageType::L2Snapshot => "LOB2 SNAPSHOT",
            MessageType::L2Update => "LOB2 UPDATE",
            MessageType::L2 => "LOB2",
            MessageType::Trade => "TRADE",
            MessageType::Event => "EVENT",
            MessageType::Unknown => "UNKNOWN",
        }
    }

    /// One line about the message.
    pub fn summary(&self) -> (r: String)
        ensures
            r@ == self@.summary(),
    {
        match self.message_type() {
            MessageType::L2Snapshot | MessageType::L2Update | MessageType::L2 => {
                let head: String = self.instrument().to_owned().concat(" ");
                match self.first() {
                    Some(d) => head.concat("bids: ").concat(
                        format_top_levels(d, "bids").as_str(),
                    ).concat(" | asks: ").concat(format_top_levels(d, "asks").as_str()),
                    None => head,
                }
            },
            MessageType::Trade => {
                let trade: Option<TradeData> = match self.first() {
                    Some(d) => TradeData::from_value(d),
                    None => None,
                };
                let tail: String = match trade {
                    Some(t) => " @ ".to_owned().concat(t.px.text.as_str()).concat(" sz=").concat(
                        t.sz.text.as_str(),
                    ).concat(" side=").concat(t.side.as_str()),
                    None => " (raw)".to_owned(),
                };
                self.instrument().to_owned().concat(tail.as_str())
            },
            MessageType::Event => match self.event {
                Some(e) => e.to_owned(),
                None => String::new(),
            },
            MessageType::Unknown => self.instrument().to_owned(),
        }
    }

    /// The exchange's timestamp in milliseconds since the epoch.
    pub fn timestamp_ms(&self) -> (r: Option<u64>)
        ensures
            r == self@.timestamp_ms(),
    {
        match self.first() {
            Some(d) => match d.get("ts") {
                Some(v) => match v {
                    Json::Str(t) => parse_unsigned(t.text.as_str()),
                    _ => None,
                },
                None => None,
            },
            None => None,
        }
    }

    /// The time of day of the message; where it has no timestamp, that of `now`.
    pub fn formatted_time_at(&self, now: u64) -> (r: String)
        ensures
            r@ == time_of_day(moment(self@.timestamp_ms(), now) as int),
    {
        match self.timestamp_ms() {
            Some(ms) => time_text(ms),
            None => time_text(now),
        }
    }

    /// The time of day of the message; where it has no timestamp, that of
    /// the clock.
    pub fn formatted_time(&self) -> (r: String)
        ensures
            exists|now: u64|
                r@ == time_of_day(#[trigger] moment(self@.timestamp_ms(), now) as int),
    {
        let now: u64 = now_millis();
        self.formatted_time_at(now)
    }
}

} // verus!

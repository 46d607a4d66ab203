//! Messages of Bitstamp.

use crate::clock::moment;
use crate::clock::now_millis;
use crate::json::any_field;
use crate::json::check_named_once;
use crate::json::check_record;
use crate::json::field;
use crate::json::get_field;
use crate::json::integer_or_zero_field;
use crate::json::is_record;
use crate::json::is_text;
use crate::json::named_once;
use crate::json::number_or_text_field;
use crate::json::optional_text_field;
use crate::json::read_any;
use crate::json::read_integer_or_zero;
use crate::json::read_number_or_text;
use crate::json::read_optional_text;
use crate::json::read_rows;
use crate::json::read_signed;
use crate::json::read_text;
use crate::json::read_unsigned;
use crate::json::rows_field;
use crate::json::rows_view;
use crate::json::signed_field;
use crate::json::text_field;
use crate::json::unsigned_field;
use crate::json::view_str;
use crate::json::Json;
use crate::json::JsonText;
use crate::json::JsonTextView;
use crate::num::Num;
use crate::text::all_ascii;
use crate::text::ascii_letters_are_kept;
use crate::text::ascii_letters_lower;
use crate::text::begins;
use crate::text::char_lower;
use crate::text::is_alnum;
use crate::text::keep_letters_lower;
use crate::text::letters_lower;
use crate::text::parse_unsigned;
use crate::text::same_text;
use crate::text::starts_with;
use crate::text::time_of_day;
use crate::text::time_text;
use crate::text::unsigned_value;
use vstd::prelude::*;

verus! {

/// The name of an instrument in channel names: its letters and digits, in
/// lower case.
pub fn instrument_to_channel(instrument: &str) -> (r: String)
    ensures
        r@ == letters_lower(instrument@),
        all_ascii(instrument@) ==> r@ == ascii_letters_lower(instrument@),
{
    proof {
        if all_ascii(instrument@) {
            ascii_letters_are_kept(instrument@);
        }
    }
    keep_letters_lower(instrument)
}

/// A text of letters and digits that are their own lower case.
pub open spec fn plain(s: Seq<char>) -> bool {
    forall|i: int|
        0 <= i < s.len() ==> is_alnum(#[trigger] s[i]) && char_lower(s[i]) == seq![s[i]]
}

proof fn lemma_plain(s: Seq<char>)
    requires
        plain(s),
    ensures
        letters_lower(s) == s,
    decreases s.len(),
{
    if s.len() > 0 {
        let t = s.drop_last();
        assert(plain(t)) by {
            assert forall|i: int| 0 <= i < t.len() implies is_alnum(#[trigger] t[i]) && char_lower(
                t[i],
            ) == seq![t[i]] by {
                assert(t[i] == s[i]);
            }
        }
        lemma_plain(t);
        assert(is_alnum(s[s.len() - 1]));
        assert(t + seq![s.last()] =~= s);
    }
}

/// The name of a channel name is that name again, as long as lower case gave
/// letters and digits that are their own lower case.
pub proof fn channel_name_is_stable(instrument: Seq<char>)
    requires
        plain(letters_lower(instrument)),
    ensures
        letters_lower(letters_lower(instrument)) == letters_lower(instrument),
{
    lemma_plain(letters_lower(instrument));
}

/// The name of an ASCII text is made of small letters and digits, and is its
/// own name.
pub proof fn ascii_channel_name_is_stable(instrument: Seq<char>)
    requires
        all_ascii(instrument),
    ensures
        forall|i: int|
            0 <= i < letters_lower(instrument).len() ==> ('0' <= #[trigger] letters_lower(
                instrument,
            )[i] <= '9' || 'a' <= letters_lower(instrument)[i] <= 'z'),
        all_ascii(letters_lower(instrument)),
        letters_lower(letters_lower(instrument)) == letters_lower(instrument),
{
    lemma_ascii_plain(instrument);
    lemma_plain(letters_lower(instrument));
}

proof fn lemma_ascii_plain(s: Seq<char>)
    requires
        all_ascii(s),
    ensures
        plain(letters_lower(s)),
        all_ascii(letters_lower(s)),
        forall|i: int|
            0 <= i < letters_lower(s).len() ==> ('0' <= #[trigger] letters_lower(s)[i] <= '9'
                || 'a' <= letters_lower(s)[i] <= 'z'),
    decreases s.len(),
{
    if s.len() > 0 {
        let t = s.drop_last();
        assert(all_ascii(t)) by {
            assert forall|i: int| 0 <= i < t.len() implies #[trigger] t[i] <= '\u{7f}' by {
                assert(t[i] == s[i]);
            }
        }
        lemma_ascii_plain(t);
        assert(s[s.len() - 1] <= '\u{7f}');
        let r = letters_lower(s);
        assert forall|i: int| 0 <= i < r.len() implies ('0' <= #[trigger] r[i] <= '9' || 'a' <= r[i]
            <= 'z') by {
            if i < letters_lower(t).len() {
                assert(r[i] == letters_lower(t)[i]);
            }
        }
        assert forall|i: int| 0 <= i < r.len() implies is_alnum(#[trigger] r[i]) && char_lower(r[i])
            == seq![r[i]] by {}
    }
}

/// The names of two texts one after the other are the name of the whole:
/// every letter and digit stays, in its place.
pub proof fn channel_name_keeps_order(a: Seq<char>, b: Seq<char>)
    ensures
        letters_lower(a + b) == letters_lower(a) + letters_lower(b),
    decreases b.len(),
{
    if b.len() == 0 {
        assert(a + b =~= a);
        assert(letters_lower(a) + letters_lower(b) =~= letters_lower(a));
    } else {
        channel_name_keeps_order(a, b.drop_last());
        assert((a + b).drop_last() =~= a + b.drop_last());
        assert((a + b).last() == b.last());
        assert(letters_lower(a) + (letters_lower(b.drop_last()) + char_lower(b.last())) =~= (
        letters_lower(a) + letters_lower(b.drop_last())) + char_lower(b.last()));
    }
}

/// What a message is about.
#[derive(Debug, Clone, Copy, PartialEq, Eq, Structural)]
pub enum MessageType {
    L2Snapshot,
    L2Update,
    Trade,
    Event,
    Unknown,
}

impl MessageType {
    /// The tag that messages are shown under.
    pub open spec fn tag(self) -> Seq<char> {
        match self {
            MessageType::L2Snapshot => "LOB2 SNAPSHOT"@,
            MessageType::L2Update => "LOB2 UPDATE"@,
            MessageType::Trade => "TRADE"@,
            MessageType::Event => "EVENT"@,
            MessageType::Unknown => "UNKNOWN"@,
        }
    }
}

/// An order.
#[derive(Debug)]
pub struct OrderEntry {
    pub id: u64,
    pub id_str: String,
    pub price: JsonText,
    pub amount: JsonText,
    /// 0 for a bid, anything else for an ask.
    pub order_type: i64,
    pub timestamp: JsonText,
}

/// The mathematical content of an [`OrderEntry`].
pub struct EntryView {
    pub id: u64,
    pub id_str: Seq<char>,
    pub price: JsonTextView,
    pub amount: JsonTextView,
    pub order_type: i64,
    pub timestamp: JsonTextView,
}

impl View for OrderEntry {
    type V = EntryView;

    open spec fn view(&self) -> EntryView {
        EntryView {
            id: self.id,
            id_str: self.id_str@,
            price: self.price@,
            amount: self.amount@,
            order_type: self.order_type,
            timestamp: self.timestamp@,
        }
    }
}

/// The order that a JSON value stands for, if it has the right shape.
pub open spec fn entry_of(v: Json) -> Option<EntryView> {
    match (
        unsigned_field(field(v, "id"@, 0)),
        text_field(field(v, "id_str"@, 1)),
        number_or_text_field(field(v, "price"@, 2)),
        number_or_text_field(field(v, "amount"@, 3)),
        integer_or_zero_field(field(v, "type"@, 4)),
        text_field(field(v, "timestamp"@, 5)),
    ) {
        (
            Some(id),
            Some(id_str),
            Some(price),
            Some(amount),
            Some(order_type),
            Some(timestamp),
        ) => if is_record(v, 6) {
            Some(
                EntryView { id, id_str: id_str.text, price, amount, order_type, timestamp },
            )
        } else {
            None
        },
        _ => None,
    }
}

impl OrderEntry {
    /// Reads an order.
    pub fn from_value(v: &Json) -> (r: Option<OrderEntry>)
        ensures
            (match r {
                Some(e) => Some(e@),
                None => None,
            }) == entry_of(*v),
    {
        if !check_record(v, 6) {
            return None;
        }
        match (
            read_unsigned(get_field(v, "id", 0)),
            read_text(get_field(v, "id_str", 1)),
            read_number_or_text(get_field(v, "price", 2)),
            read_number_or_text(get_field(v, "amount", 3)),
            read_integer_or_zero(get_field(v, "type", 4)),
            read_text(get_field(v, "timestamp", 5)),
        ) {
            (
                Some(id),
                Some(id_str),
                Some(price),
                Some(amount),
                Some(order_type),
                Some(timestamp),
            ) => Some(
                OrderEntry { id, id_str: id_str.text, price, amount, order_type, timestamp },
            ),
            _ => None,
        }
    }

    /// The price, if its text spells a number.
    pub fn price_f64(&self) -> (r: Option<Num>)
        ensures
            r == self@.price.num(),
    {
        self.price.num()
    }

    /// The amount, if its text spells a number.
    pub fn amount_f64(&self) -> (r: Option<Num>)
        ensures
            r == self@.amount.num(),
    {
        self.amount.num()
    }

    /// Whether the order is a bid.
    pub fn is_bid(&self) -> (r: bool)
        ensures
            r == (self@.order_type == 0),
    {
        self.order_type == 0
    }
}

/// A trade.
#[derive(Debug)]
pub struct TradeData {
    pub id: u64,
    pub price: JsonText,
    pub amount: JsonText,
    /// 0 for a buy, anything else for a sale.
    pub trade_type: i64,
    pub timestamp: JsonText,
    pub microtimestamp: String,
    pub buy_order_id: i64,
    pub sell_order_id: i64,
}

/// The mathematical content of a [`TradeData`].
pub struct TradeDataView {
    pub id: u64,
    pub price: JsonTextView,
    pub amount: JsonTextView,
    pub trade_type: i64,
    pub timestamp: JsonTextView,
    pub microtimestamp: Seq<char>,
    pub buy_order_id: i64,
    pub sell_order_id: i64,
}

impl TradeDataView {
    /// `buy` or `sell`.
    pub open spec fn side(self) -> Seq<char> {
        if self.trade_type == 0 {
            "buy"@
        } else {
            "sell"@
        }
    }
}

impl View for TradeData {
    type V = TradeDataView;

    open spec fn view(&self) -> TradeDataView {
        TradeDataView {
            id: self.id,
            price: self.price@,
            amount: self.amount@,
            trade_type: self.trade_type,
            timestamp: self.timestamp@,
            microtimestamp: self.microtimestamp@,
            buy_order_id: self.buy_order_id,
            sell_order_id: self.sell_order_id,
        }
    }
}

/// The trade that a JSON value stands for, if it has the right shape.
pub open spec fn trade_of(v: Json) -> Option<TradeDataView> {
    match (
        unsigned_field(field(v, "id"@, 0)),
        number_or_text_field(field(v, "price"@, 1)),
        number_or_text_field(field(v, "amount"@, 2)),
        integer_or_zero_field(field(v, "type"@, 3)),
        text_field(field(v, "timestamp"@, 4)),
        text_field(field(v, "microtimestamp"@, 5)),
        signed_field(field(v, "buy_order_id"@, 6)),
        signed_field(field(v, "sell_order_id"@, 7)),
    ) {
        (
            Some(id),
            Some(price),
            Some(amount),
            Some(trade_type),
            Some(timestamp),
            Some(microtimestamp),
            Some(buy_order_id),
            Some(sell_order_id),
        ) => if is_record(v, 8) {
            Some(
                TradeDataView {
                    id,
                    price,
                    amount,
                    trade_type,
                    timestamp,
                    microtimestamp: microtimestamp.text,
                    buy_order_id,
                    sell_order_id,
                },
            )
        } else {
            None
        },
        _ => None,
    }
}

/// Microseconds, written as a number, in milliseconds.
pub open spec fn micros_to_millis(s: Seq<char>) -> Option<u64> {
    match unsigned_value(s) {
        Some(us) => Some((us / 1000) as u64),
        None => None,
    }
}

fn read_micros(s: &String) -> (r: Option<u64>)
    ensures
        r == micros_to_millis(s@),
{
    match parse_unsigned(s.as_str()) {
        Some(us) => Some(us / 1000),
        None => None,
    }
}

impl TradeData {
    /// Reads a trade.
    pub fn from_value(v: &Json) -> (r: Option<TradeData>)
        ensures
            (match r {
                Some(t) => Some(t@),
                None => None,
            }) == trade_of(*v),
    {
        if !check_record(v, 8) {
            return None;
        }
        match (
            read_unsigned(get_field(v, "id", 0)),
            read_number_or_text(get_field(v, "price", 1)),
            read_number_or_text(get_field(v, "amount", 2)),
            read_integer_or_zero(get_field(v, "type", 3)),
            read_text(get_field(v, "timestamp", 4)),
            read_text(get_field(v, "microtimestamp", 5)),
            read_signed(get_field(v, "buy_order_id", 6)),
            read_signed(get_field(v, "sell_order_id", 7)),
        ) {
            (
                Some(id),
                Some(price),
                Some(amount),
                Some(trade_type),
                Some(timestamp),
                Some(microtimestamp),
                Some(buy_order_id),
                Some(sell_order_id),
            ) => Some(
                TradeData {
                    id,
                    price,
                    amount,
                    trade_type,
                    timestamp,
                    microtimestamp: microtimestamp.text,
                    buy_order_id,
                    sell_order_id,
                },
            ),
            _ => None,
        }
    }

    /// The price, if its text spells a number.
    pub fn price_f64(&self) -> (r: Option<Num>)
        ensures
            r == self@.price.num(),
    {
        self.price.num()
    }

    /// The amount, if its text spells a number.
    pub fn amount_f64(&self) -> (r: Option<Num>)
        ensures
            r == self@.amount.num(),
    {
        self.amount.num()
    }

    /// `buy` or `sell`.
    pub fn side(&self) -> (r: String)
        ensures
            r@ == self@.side(),
    {
        if self.trade_type == 0 {
            "buy".to_owned()
        } else {
            "sell".to_owned()
        }
    }

    /// The timestamp in microseconds, in milliseconds.
    pub fn timestamp_ms(&self) -> (r: Option<u64>)
        ensures
            r == micros_to_millis(self@.microtimestamp),
    {
        read_micros(&self.microtimestamp)
    }
}

/// A price level as text.
#[derive(Debug, Clone)]
pub struct LobLevel {
    pub price: String,
    pub size: String,
}

/// Bids and asks, each a row of texts.
#[derive(Debug)]
pub struct OrderBookData {
    pub bids: Vec<Vec<JsonText>>,
    pub asks: Vec<Vec<JsonText>>,
    pub timestamp: String,
    pub microtimestamp: String,
}

/// The mathematical content of an [`OrderBookData`].
pub struct BookDataView {
    pub bids: Seq<Seq<JsonText>>,
    pub asks: Seq<Seq<JsonText>>,
    pub timestamp: Seq<char>,
    pub microtimestamp: Seq<char>,
}

impl View for OrderBookData {
    type V = BookDataView;

    open spec fn view(&self) -> BookDataView {
        BookDataView {
            bids: rows_view(self.bids@),
            asks: rows_view(self.asks@),
            timestamp: self.timestamp@,
            microtimestamp: self.microtimestamp@,
        }
    }
}

/// The book data that a JSON value stands for, if it has the right shape.
pub open spec fn book_data_of(v: Json) -> Option<BookDataView> {
    match (
        rows_field(field(v, "bids"@, 0)),
        rows_field(field(v, "asks"@, 1)),
        text_field(field(v, "timestamp"@, 2)),
        text_field(field(v, "microtimestamp"@, 3)),
    ) {
        (Some(bids), Some(asks), Some(timestamp), Some(microtimestamp)) => if is_record(v, 4) {
            Some(
                BookDataView {
                    bids,
                    asks,
                    timestamp: timestamp.text,
                    microtimestamp: microtimestamp.text,
                },
            )
        } else {
            None
        },
        _ => None,
    }
}

impl OrderBookData {
    /// Reads book data.
    pub fn from_value(v: &Json) -> (r: Option<OrderBookData>)
        ensures
            (match r {
                Some(b) => Some(b@),
                None => None,
            }) == book_data_of(*v),
    {
        if !check_record(v, 4) {
            return None;
        }
        match (
            read_rows(get_field(v, "bids", 0)),
            read_rows(get_field(v, "asks", 1)),
            read_text(get_field(v, "timestamp", 2)),
            read_text(get_field(v, "microtimestamp", 3)),
        ) {
            (Some(bids), Some(asks), Some(timestamp), Some(microtimestamp)) => Some(
                OrderBookData {
                    bids,
                    asks,
                    timestamp: timestamp.text,
                    microtimestamp: microtimestamp.text,
                },
            ),
            _ => None,
        }
    }

    /// The timestamp in microseconds, in milliseconds.
    pub fn timestamp_ms(&self) -> (r: Option<u64>)
        ensures
            r == micros_to_millis(self@.microtimestamp),
    {
        read_micros(&self.microtimestamp)
    }
}

/// The envelope of a message.
#[derive(Debug)]
pub struct BitstampWsMessage<'a> {
    pub event: Option<&'a str>,
    pub channel: Option<&'a str>,
    pub data: Option<&'a Json>,
}

/// The mathematical content of a [`BitstampWsMessage`].
pub struct BitstampView {
    pub event: Option<Seq<char>>,
    pub channel: Option<Seq<char>>,
    pub data: Option<Json>,
}

impl<'a> View for BitstampWsMessage<'a> {
    type V = BitstampView;

    open spec fn view(&self) -> BitstampView {
        BitstampView {
            event: view_str(self.event),
            channel: view_str(self.channel),
            data: crate::json::deref(self.data),
        }
    }
}

/// No member of a message is named twice.
pub open spec fn members_once(v: Json) -> bool {
    &&& named_once(v, "event"@)
    &&& named_once(v, "channel"@)
    &&& named_once(v, "data"@)
}

fn check_members(v: &Json) -> (r: bool)
    ensures
        r == members_once(*v),
{
    check_named_once(v, "event")
        && check_named_once(v, "channel")
        && check_named_once(v, "data")
}

/// The message that a JSON value stands for, if it has the right shape.
pub open spec fn message_of(v: Json) -> Option<BitstampView> {
    match (
        optional_text_field(field(v, "event"@, 0)),
        optional_text_field(field(v, "channel"@, 1)),
    ) {
        (Some(event), Some(channel)) => if is_record(v, 3)
            && members_once(v) {
            Some(BitstampView { event, channel, data: any_field(field(v, "data"@, 2)) })
        } else {
            None
        },
        _ => None,
    }
}

/// The channel carries an order book.
pub open spec fn is_book_channel(channel: Option<Seq<char>>) -> bool {
    channel matches Some(c) && (begins(c, "order_book_"@) || begins(c, "diff_order_book_"@)
        || begins(c, "live_orders_"@))
}

impl BitstampView {
    /// What the message is about.
    pub open spec fn message_type(self) -> MessageType {
        match self.event {
            Some(e) => if e == "order_created"@ || e == "order_deleted"@ || e == "order_changed"@ {
                MessageType::L2Update
            } else if e == "snapshot"@ {
                MessageType::L2Snapshot
            } else if e == "data"@ {
                if is_book_channel(self.channel) {
                    MessageType::L2Update
                } else {
                    MessageType::Unknown
                }
            } else if e == "trade"@ || e == "live_trades"@ {
                MessageType::Trade
            } else if e == "bts:subscription_succeeded"@ || e == "bts:unsubscription_succeeded"@ {
                MessageType::Event
            } else if self.channel matches Some(c) && begins(c, "live_orders_"@) {
                MessageType::L2Update
            } else {
                MessageType::Event
            },
            None => MessageType::Unknown,
        }
    }

    /// The channel, or a question mark.
    pub open spec fn channel_name(self) -> Seq<char> {
        match self.channel {
            Some(c) => c,
            None => "?"@,
        }
    }

    /// One line about the message.
    pub open spec fn summary(self) -> Seq<char> {
        match self.message_type() {
            MessageType::L2Snapshot | MessageType::L2Update => match self.channel {
                Some(channel) => self.event->0 + " "@ + channel + (match self.data {
                    Some(data) => match entry_of(data) {
                        Some(e) => " "@ + (if e.order_type == 0 {
                            "bid"@
                        } else {
                            "ask"@
                        }) + " "@ + e.amount.text + "@"@ + e.price.text,
                        None => " (raw)"@,
                    },
                    None => " (empty)"@,
                }),
                None => "?"@,
            },
            MessageType::Trade => self.channel_name() + (match self.trade() {
                Some(t) => " @ "@ + t.price.text + " sz="@ + t.amount.text + " side="@ + t.side(),
                None => " (raw)"@,
            }),
            MessageType::Event => match self.error_message() {
                Some(m) => "error: "@ + m,
                None => self.event->0,
            },
            MessageType::Unknown => self.channel_name(),
        }
    }

    /// The trade that the message holds, if it has the right shape.
    pub open spec fn trade(self) -> Option<TradeDataView> {
        match self.data {
            Some(data) => trade_of(data),
            None => None,
        }
    }

    /// The message of an error event.
    pub open spec fn error_message(self) -> Option<Seq<char>> {
        if self.event == Some("error"@) && self.data is Some {
            match self.data->0.at("errorMessage"@) {
                Some(Json::Str(t)) => Some(t.text@),
                _ => None,
            }
        } else {
            None
        }
    }

    /// The timestamp in microseconds: that of book data, or else of a trade.
    pub open spec fn microtimestamp_us(self) -> Option<u64> {
        match self.data {
            Some(data) => if book_data_of(data) matches Some(b) && unsigned_value(
                b.microtimestamp,
            ) is Some {
                unsigned_value((book_data_of(data)->0).microtimestamp)
            } else {
                match trade_of(data) {
                    Some(t) => unsigned_value(t.microtimestamp),
                    None => None,
                }
            },
            None => None,
        }
    }

    /// The timestamp in milliseconds, which is written in seconds: that of an
    /// order, or else of a trade.
    pub open spec fn timestamp_ms(self) -> Option<u64> {
        match self.data {
            Some(data) => match order_moment(data) {
                Some(ms) => Some(ms),
                None => match trade_of(data) {
                    Some(t) => match t.timestamp.reading {
                        Some(r) => Some(r.millis),
                        None => None,
                    },
                    None => None,
                },
            },
            None => None,
        }
    }
}

/// The timestamp of an order in milliseconds: a number of seconds, or else a
/// whole number of milliseconds.
pub open spec fn order_moment(data: Json) -> Option<u64> {
    match entry_of(data) {
        Some(e) => match e.timestamp.reading {
            Some(r) => Some(r.millis),
            None => unsigned_value(e.timestamp.text),
        },
        None => None,
    }
}

impl<'a> BitstampWsMessage<'a> {
    /// Reads a message; `None` where the value does not have the right shape.
    pub fn from_value(v: &'a Json) -> (r: Option<BitstampWsMessage<'a>>)
        ensures
            (match r {
                Some(m) => Some(m@),
                None => None,
            }) == message_of(*v),
    {
        if !check_record(v, 3) || !check_members(v) {
            return None;
        }
        let data: Option<&'a Json> = read_any(get_field(v, "data", 2));
        match (
            read_optional_text(get_field(v, "event", 0)),
            read_optional_text(get_field(v, "channel", 1)),
        ) {
            (Some(event), Some(channel)) => Some(BitstampWsMessage { event, channel, data }),
            _ => None,
        }
    }

    /// What the message is about.
    pub fn message_type(&self) -> (r: MessageType)
        ensures
            r == self@.message_type(),
    {
        match self.event {
            Some(e) => if same_text(e, "order_created") || same_text(e, "order_deleted")
                || same_text(e, "order_changed") {
                MessageType::L2Update
            } else if same_text(e, "snapshot") {
                MessageType::L2Snapshot
            } else if same_text(e, "data") {
                match self.channel {
                    Some(c) => if starts_with(c, "order_book_") || starts_with(
                        c,
                        "diff_order_book_",
                    ) || starts_with(c, "live_orders_") {
                        MessageType::L2Update
                    } else {
                        MessageType::Unknown
                    },
                    None => MessageType::Unknown,
                }
            } else if same_text(e, "trade") || same_text(e, "live_trades") {
                MessageType::Trade
            } else if same_text(e, "bts:subscription_succeeded") || same_text(
                e,
                "bts:unsubscription_succeeded",
            ) {
                MessageType::Event
            } else {
                match self.channel {
                    Some(c) => if starts_with(c, "live_orders_") {
                        MessageType::L2Update
                    } else {
                        MessageType::Event
                    },
                    None => MessageType::Event,
                }
            },
            None => MessageType::Unknown,
        }
    }

    /// The tag the message is shown under.
    pub fn display_type(&self) -> (r: &'static str)
        ensures
            r@ == self@.message_type().tag(),
    {
        match self.message_type() {
            MessageType::L2Snapshot => "LOB2 SNAPSHOT",
            MessageType::L2Update => "LOB2 UPDATE",
            MessageType::Trade => "TRADE",
            MessageType::Event => "EVENT",
            MessageType::Unknown => "UNKNOWN",
        }
    }

    /// The trade that the message holds, if it has the right shape.
    pub fn trade(&self) -> (r: Option<TradeData>)
        ensures
            (match r {
                Some(t) => Some(t@),
                None => None,
            }) == self@.trade(),
    {
        match self.data {
            Some(d) => TradeData::from_value(d),
            None => None,
        }
    }

    fn error_message(&self) -> (r: Option<&'a str>)
        ensures
            view_str(r) == self@.error_message(),
    {
        if !is_text(self.event, "error") {
            return None;
        }
        match self.data {
            Some(d) => match d.get("errorMessage") {
                Some(m) => match m {
                    Json::Str(t) => Some(t.text.as_str()),
                    _ => None,
                },
                None => None,
            },
            None => None,
        }
    }

    fn order_summary(&self) -> (r: String)
        ensures
            r@ == (match self@.data {
                Some(data) => match entry_of(data) {
                    Some(e) => " "@ + (if e.order_type == 0 {
                        "bid"@
                    } else {
                        "ask"@
                    }) + " "@ + e.amount.text + "@"@ + e.price.text,
                    None => " (raw)"@,
                },
                None => " (empty)"@,
            }),
    {
        match self.data {
            Some(d) => match OrderEntry::from_value(d) {
                Some(e) => {
                    let side: &str = if e.is_bid() {
                        "bid"
                    } else {
                        "ask"
                    };
                    " ".to_owned().concat(side).concat(" ").concat(e.amount.text.as_str()).concat(
                        "@",
                    ).concat(e.price.text.as_str())
                },
                None => " (raw)".to_owned(),
            },
            None => " (empty)".to_owned(),
        }
    }

    /// One line about the message.
    pub fn summary(&self) -> (r: String)
        ensures
            r@ == self@.summary(),
    {
        let channel: &str = self.channel.unwrap_or("?");
        match self.message_type() {
            MessageType::L2Snapshot | MessageType::L2Update => match (self.channel, self.event) {
                (Some(c), Some(e)) => e.to_owned().concat(" ").concat(c).concat(
                    self.order_summary().as_str(),
                ),
                _ => "?".to_owned(),
            },
            MessageType::Trade => {
                let tail: String = match self.trade() {
                    Some(t) => " @ ".to_owned().concat(t.price.text.as_str()).concat(
                        " sz=",
                    ).concat(t.amount.text.as_str()).concat(" side=").concat(t.side().as_str()),
                    None => " (raw)".to_owned(),
                };
                channel.to_owned().concat(tail.as_str())
            },
            MessageType::Event => match self.error_message() {
                Some(m) => "error: ".to_owned().concat(m),
                None => self.event.unwrap_or("?").to_owned(),
            },
            MessageType::Unknown => channel.to_owned(),
        }
    }

    /// The timestamp in microseconds, if the data hold one.
    pub fn microtimestamp_us(&self) -> (r: Option<u64>)
        ensures
            r == self@.microtimestamp_us(),
    {
        match self.data {
            Some(d) => {
                match OrderBookData::from_value(d) {
                    Some(b) => match parse_unsigned(b.microtimestamp.as_str()) {
                        Some(us) => {
                            return Some(us);
                        },
                        None => {},
                    },
                    None => {},
                }
                match TradeData::from_value(d) {
                    Some(t) => parse_unsigned(t.microtimestamp.as_str()),
                    None => None,
                }
            },
            None => None,
        }
    }

    /// The timestamp in milliseconds, if the data hold one.
    pub fn timestamp_ms(&self) -> (r: Option<u64>)
        ensures
            r == self@.timestamp_ms(),
    {
        match self.data {
            Some(d) => {
                let order: Option<u64> = match OrderEntry::from_value(d) {
                    Some(e) => match &e.timestamp.reading {
                        Some(r) => Some(r.millis),
                        None => parse_unsigned(e.timestamp.text.as_str()),
                    },
                    None => None,
                };
                match order {
                    Some(ms) => Some(ms),
                    None => match TradeData::from_value(d) {
                        Some(t) => match &t.timestamp.reading {
                            Some(r) => Some(r.millis),
                            None => None,
                        },
                        None => None,
                    },
                }
            },
            None => None,
        }
    }

    /// The time of day of the message; where it has no timestamp, that of `now`.
    pub fn formatted_time_at(&self, now: u64) -> (r: String)
        ensures
            r@ == time_of_day(moment(self@.timestamp_ms(), now) as int),
    {
        match self.timestamp_ms() {
            Some(ms) => time_text(ms),
            None => time_text(now),
        }
    }

    /// The time of day of the message; where it has no timestamp, that of
    /// the clock.
    pub fn formatted_time(&self) -> (r: String)
        ensures
            exists|now: u64|
                r@ == time_of_day(#[trigger] moment(self@.timestamp_ms(), now) as int),
    {
        let now: u64 = now_millis();
        self.formatted_time_at(now)
    }
}

/// A message as a line: the time, the tag and the summary.
pub open spec fn message_line(msg: BitstampView, now: u64) -> Seq<char> {
    "["@ + time_of_day(moment(msg.timestamp_ms(), now) as int) + " "@ + msg.message_type().tag()
        + "] "@ + msg.summary()
}

/// Formats a message for display, as of a moment.
pub fn display_message_at(msg: &BitstampWsMessage, now: u64) -> (r: String)
    ensures
        r@ == message_line(msg@, now),
{
    "[".to_owned().concat(msg.formatted_time_at(now).as_str()).concat(" ").concat(
        msg.display_type(),
    ).concat("] ").concat(msg.summary().as_str())
}

/// Formats a message for display.
pub fn display_message(msg: &BitstampWsMessage) -> (r: String)
    ensures
        exists|now: u64| r@ == #[trigger] message_line(msg@, now),
{
    let now: u64 = now_millis();
    display_message_at(msg, now)
}

} // verus!

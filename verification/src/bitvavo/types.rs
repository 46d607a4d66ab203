//! Messages of Bitvavo.

use crate::json::any_field;
use crate::json::check_named_once;
use crate::json::check_record;
use crate::json::deref;
use crate::json::field;
use crate::json::get_field;
use crate::json::is_record;
use crate::json::is_text;
use crate::json::named_once;
use crate::json::optional_bool_field;
use crate::json::optional_text_field;
use crate::json::optional_unsigned_field;
use crate::json::read_any;
use crate::json::read_optional_bool;
use crate::json::read_optional_text;
use crate::json::read_optional_unsigned;
use crate::json::read_rows;
use crate::json::rows_field;
use crate::json::rows_view;
use crate::json::view_str;
use crate::json::Json;
use crate::json::JsonText;
use crate::json::JsonTextView;
use vstd::prelude::*;

verus! {

/// The texts of a price level: the price and the size.
pub type PriceLevel = Vec<JsonText>;

/// Copies rows of texts.
pub fn copy_rows(rows: &Vec<PriceLevel>) -> (r: Vec<PriceLevel>)
    ensures
        rows_view(r@) == rows_view(rows@),
{
    let mut out: Vec<PriceLevel> = Vec::new();
    let mut i: usize = 0;
    while i < rows.len()
        invariant
            i <= rows.len(),
            out@.len() == i,
            forall|j: int| 0 <= j < i ==> (#[trigger] out@[j])@ == rows@[j]@,
        decreases rows.len() - i,
    {
        let row: &PriceLevel = &rows[i];
        let mut copy: Vec<JsonText> = Vec::new();
        let mut j: usize = 0;
        while j < row.len()
            invariant
                j <= row.len(),
                copy@ == row@.take(j as int),
            decreases row.len() - j,
        {
            copy.push(row[j].clone());
            assert(copy@ =~= row@.take(j + 1));
            j += 1;
        }
        assert(row@.take(row@.len() as int) =~= row@);
        out.push(copy);
        i += 1;
    }
    assert(rows_view(out@) =~= rows_view(rows@));
    out
}

/// A full order book, as the answer to a request for it.
#[derive(Debug, Clone)]
pub struct BookSnapshot {
    pub market: String,
    pub nonce: u64,
    pub bids: Vec<PriceLevel>,
    pub asks: Vec<PriceLevel>,
    /// Nanoseconds since the epoch.
    pub timestamp: Option<u64>,
    pub mdseqno: u64,
}

/// The mathematical content of a [`BookSnapshot`].
pub struct SnapshotView {
    pub market: Seq<char>,
    pub nonce: u64,
    pub bids: Seq<Seq<JsonText>>,
    pub asks: Seq<Seq<JsonText>>,
    pub timestamp: Option<u64>,
    pub mdseqno: u64,
}

impl View for BookSnapshot {
    type V = SnapshotView;

    open spec fn view(&self) -> SnapshotView {
        SnapshotView {
            market: self.market@,
            nonce: self.nonce,
            bids: rows_view(self.bids@),
            asks: rows_view(self.asks@),
            timestamp: self.timestamp,
            mdseqno: self.mdseqno,
        }
    }
}

/// The content of an optional snapshot.
pub open spec fn snapshot_view(s: Option<BookSnapshot>) -> Option<SnapshotView> {
    match s {
        Some(b) => Some(b@),
        None => None,
    }
}

/// No member of a snapshot is named twice.
pub open spec fn snapshot_members_once(v: Json) -> bool {
    &&& named_once(v, "market"@)
    &&& named_once(v, "nonce"@)
    &&& named_once(v, "bids"@)
    &&& named_once(v, "asks"@)
    &&& named_once(v, "timestamp"@)
    &&& named_once(v, "mdSeqNo"@)
}

fn check_snapshot_members(v: &Json) -> (r: bool)
    ensures
        r == snapshot_members_once(*v),
{
    check_named_once(v, "market")
        && check_named_once(v, "nonce")
        && check_named_once(v, "bids")
        && check_named_once(v, "asks")
        && check_named_once(v, "timestamp")
        && check_named_once(v, "mdSeqNo")
}

/// The snapshot that a JSON value stands for, if it has the right shape.
pub open spec fn snapshot_of(v: Json) -> Option<SnapshotView> {
    match (
        field(v, "market"@, 0),
        field(v, "nonce"@, 1),
        field(v, "bids"@, 2),
        field(v, "asks"@, 3),
        optional_unsigned_field(field(v, "timestamp"@, 4)),
        field(v, "mdSeqNo"@, 5),
    ) {
        (
            Some(Json::Str(market)),
            Some(nonce),
            Some(bids),
            Some(asks),
            Some(timestamp),
            Some(mdseqno),
        ) => match (
            nonce.unsigned(),
            rows_field(Some(bids)),
            rows_field(Some(asks)),
            mdseqno.unsigned(),
        ) {
            (Some(nonce), Some(bids), Some(asks), Some(mdseqno)) => if is_record(v, 6)
                && snapshot_members_once(v) {
                Some(
                    SnapshotView {
                        market: market.text@,
                        nonce,
                        bids,
                        asks,
                        timestamp,
                        mdseqno,
                    },
                )
            } else {
                None
            },
            _ => None,
        },
        _ => None,
    }
}

impl BookSnapshot {
    /// Reads a snapshot.
    pub fn from_value(v: &Json) -> (r: Option<BookSnapshot>)
        ensures
            snapshot_view(r) == snapshot_of(*v),
    {
        if !check_record(v, 6) || !check_snapshot_members(v) {
            return None;
        }
        match (
            get_field(v, "market", 0),
            get_field(v, "nonce", 1),
            get_field(v, "bids", 2),
            get_field(v, "asks", 3),
            read_optional_unsigned(get_field(v, "timestamp", 4)),
            get_field(v, "mdSeqNo", 5),
        ) {
            (
                Some(market),
                Some(nonce),
                Some(bids),
                Some(asks),
                Some(timestamp),
                Some(mdseqno),
            ) => match (
                market,
                nonce.as_unsigned(),
                read_rows(Some(bids)),
                read_rows(Some(asks)),
                mdseqno.as_unsigned(),
            ) {
                (
                    Json::Str(market),
                    Some(nonce),
                    Some(bids),
                    Some(asks),
                    Some(mdseqno),
                ) => Some(
                    BookSnapshot {
                        market: market.text.clone(),
                        nonce,
                        bids,
                        asks,
                        timestamp,
                        mdseqno,
                    },
                ),
                _ => None,
            },
            _ => None,
        }
    }
}

/// Changes to an order book, covering a range of sequence numbers.
#[derive(Debug)]
pub struct BookUpdate {
    pub market: String,
    pub bids: Vec<PriceLevel>,
    pub asks: Vec<PriceLevel>,
    pub start_md_seq_no: u64,
    pub end_md_seq_no: u64,
    /// Nanoseconds since the epoch.
    pub timestamp: Option<u64>,
}

/// The mathematical content of a [`BookUpdate`].
#[verifier::ext_equal]
pub struct UpdateView {
    pub market: Seq<char>,
    pub bids: Seq<Seq<JsonText>>,
    pub asks: Seq<Seq<JsonText>>,
    pub start_md_seq_no: u64,
    pub end_md_seq_no: u64,
    pub timestamp: Option<u64>,
}

impl View for BookUpdate {
    type V = UpdateView;

    open spec fn view(&self) -> UpdateView {
        UpdateView {
            market: self.market@,
            bids: rows_view(self.bids@),
            asks: rows_view(self.asks@),
            start_md_seq_no: self.start_md_seq_no,
            end_md_seq_no: self.end_md_seq_no,
            timestamp: self.timestamp,
        }
    }
}

impl Clone for BookUpdate {
    fn clone(&self) -> (r: Self)
        ensures
            r@ == self@,
    {
        BookUpdate {
            market: self.market.clone(),
            bids: copy_rows(&self.bids),
            asks: copy_rows(&self.asks),
            start_md_seq_no: self.start_md_seq_no,
            end_md_seq_no: self.end_md_seq_no,
            timestamp: self.timestamp,
        }
    }
}

/// A trade.
#[derive(Debug, Clone)]
pub struct TradeData {
    pub id: String,
    pub amount: JsonText,
    pub price: JsonText,
    pub market: String,
    pub side: String,
    /// Milliseconds since the epoch.
    pub timestamp: u64,
    pub timestamp_ns: Option<u64>,
}

/// The mathematical content of a [`TradeData`].
pub struct TradeDataView {
    pub id: Seq<char>,
    pub amount: JsonTextView,
    pub price: JsonTextView,
    pub market: Seq<char>,
    pub side: Seq<char>,
    pub timestamp: u64,
    pub timestamp_ns: Option<u64>,
}

impl View for TradeData {
    type V = TradeDataView;

    open spec fn view(&self) -> TradeDataView {
        TradeDataView {
            id: self.id@,
            amount: self.amount@,
            price: self.price@,
            market: self.market@,
            side: self.side@,
            timestamp: self.timestamp,
            timestamp_ns: self.timestamp_ns,
        }
    }
}

impl TradeData {
    /// The timestamp, which is in milliseconds.
    pub fn timestamp_ms(&self) -> (r: u64)
        ensures
            r == self@.timestamp,
    {
        self.timestamp
    }
}

/// What a message is about.
#[derive(Debug, Clone, Copy, PartialEq, Eq, Structural)]
pub enum MessageType {
    /// Authentication.
    Auth,
    /// The state of a subscription, or another event.
    Event,
    /// A full order book.
    BookSnapshot,
    /// Changes to the order book.
    BookUpdate,
    /// A trade.
    Trade,
    Unknown,
}

/// The envelope of a message.
#[derive(Debug)]
pub struct BitvavoWsMessage<'a> {
    pub action: Option<&'a str>,
    pub event: Option<&'a str>,
    pub key: Option<&'a str>,
    pub signature: Option<&'a str>,
    pub timestamp: Option<u64>,
    pub market: Option<&'a str>,
    pub nonce: Option<u64>,
    pub bids: Vec<PriceLevel>,
    pub asks: Vec<PriceLevel>,
    pub id: Option<&'a str>,
    pub amount: Option<&'a JsonText>,
    pub price: Option<&'a JsonText>,
    pub side: Option<&'a str>,
    pub request_id: Option<u64>,
    pub response: Option<BookSnapshot>,
    pub start_md_seq_no: Option<u64>,
    pub end_md_seq_no: Option<u64>,
    pub subscriptions: Option<&'a Json>,
    pub success: Option<bool>,
    pub authenticated: Option<bool>,
}

/// The mathematical content of a [`BitvavoWsMessage`].
pub struct BitvavoView {
    pub action: Option<Seq<char>>,
    pub event: Option<Seq<char>>,
    pub key: Option<Seq<char>>,
    pub signature: Option<Seq<char>>,
    pub timestamp: Option<u64>,
    pub market: Option<Seq<char>>,
    pub nonce: Option<u64>,
    pub bids: Seq<Seq<JsonText>>,
    pub asks: Seq<Seq<JsonText>>,
    pub id: Option<Seq<char>>,
    pub amount: Option<JsonTextView>,
    pub price: Option<JsonTextView>,
    pub side: Option<Seq<char>>,
    pub request_id: Option<u64>,
    pub response: Option<SnapshotView>,
    pub start_md_seq_no: Option<u64>,
    pub end_md_seq_no: Option<u64>,
    pub subscriptions: Option<Json>,
    pub success: Option<bool>,
    pub authenticated: Option<bool>,
}

/// The content of an optional reference to a text.
pub open spec fn text_ref_view(t: Option<&JsonText>) -> Option<JsonTextView> {
    match t {
        Some(v) => Some(v@),
        None => None,
    }
}

impl<'a> View for BitvavoWsMessage<'a> {
    type V = BitvavoView;

    open spec fn view(&self) -> BitvavoView {
        BitvavoView {
            action: view_str(self.action),
            event: view_str(self.event),
            key: view_str(self.key),
            signature: view_str(self.signature),
            timestamp: self.timestamp,
            market: view_str(self.market),
            nonce: self.nonce,
            bids: rows_view(self.bids@),
            asks: rows_view(self.asks@),
            id: view_str(self.id),
            amount: text_ref_view(self.amount),
            price: text_ref_view(self.price),
            side: view_str(self.side),
            request_id: self.request_id,
            response: snapshot_view(self.response),
            start_md_seq_no: self.start_md_seq_no,
            end_md_seq_no: self.end_md_seq_no,
            subscriptions: deref(self.subscriptions),
            success: self.success,
            authenticated: self.authenticated,
        }
    }
}

/// A field that may hold a text; absent or null, it holds none.
pub open spec fn optional_json_text(f: Option<Json>) -> Option<Option<JsonTextView>> {
    match f {
        None => Some(None),
        Some(Json::Null) => Some(None),
        Some(Json::Str(t)) => Some(Some(t@)),
        Some(_) => None,
    }
}

fn read_json_text<'a>(f: Option<&'a Json>) -> (r: Option<Option<&'a JsonText>>)
    ensures
        (match r {
            Some(t) => Some(text_ref_view(t)),
            None => None,
        }) == optional_json_text(deref(f)),
{
    match f {
        None => Some(None),
        Some(v) => match v {
            Json::Null => Some(None),
            Json::Str(t) => Some(Some(t)),
            _ => None,
        },
    }
}

/// The snapshot that a field holds; absent or null, it holds none.
pub open spec fn optional_snapshot(f: Option<Json>) -> Option<Option<SnapshotView>> {
    match f {
        None => Some(None),
        Some(Json::Null) => Some(None),
        Some(v) => match snapshot_of(v) {
            Some(s) => Some(Some(s)),
            None => None,
        },
    }
}

fn read_snapshot(f: Option<&Json>) -> (r: Option<Option<BookSnapshot>>)
    ensures
        (match r {
            Some(s) => Some(snapshot_view(s)),
            None => None,
        }) == optional_snapshot(deref(f)),
{
    match f {
        None => Some(None),
        Some(v) => match v {
            Json::Null => Some(None),
            _ => match BookSnapshot::from_value(v) {
                Some(s) => Some(Some(s)),
                None => None,
            },
        },
    }
}

/// The members that say what a message is, if they have the right shape.
pub open spec fn heading_of(v: Json) -> Option<
    (Option<Seq<char>>, Option<Seq<char>>, Option<Seq<char>>, Option<Seq<char>>),
> {
    match (
        optional_text_field(field(v, "action"@, 0)),
        optional_text_field(field(v, "event"@, 1)),
        optional_text_field(field(v, "key"@, 2)),
        optional_text_field(field(v, "signature"@, 3)),
    ) {
        (Some(action), Some(event), Some(key), Some(signature)) => Some(
            (action, event, key, signature),
        ),
        _ => None,
    }
}

/// The members that describe a trade, if they have the right shape.
pub open spec fn details_of(v: Json) -> Option<
    (
        Option<Seq<char>>,
        Option<Seq<char>>,
        Option<JsonTextView>,
        Option<JsonTextView>,
        Option<Seq<char>>,
    ),
> {
    match (
        optional_text_field(field(v, "market"@, 5)),
        optional_text_field(field(v, "id"@, 9)),
        optional_json_text(field(v, "amount"@, 10)),
        optional_json_text(field(v, "price"@, 11)),
        optional_text_field(field(v, "side"@, 12)),
    ) {
        (Some(market), Some(id), Some(amount), Some(price), Some(side)) => Some(
            (market, id, amount, price, side),
        ),
        _ => None,
    }
}

/// The members that hold numbers, if they have the right shape.
pub open spec fn numbers_of(v: Json) -> Option<
    (Option<u64>, Option<u64>, Option<u64>, Option<u64>, Option<u64>),
> {
    match (
        optional_unsigned_field(field(v, "timestamp"@, 4)),
        optional_unsigned_field(field(v, "nonce"@, 6)),
        optional_unsigned_field(field(v, "requestId"@, 13)),
        optional_unsigned_field(field(v, "startMdSeqNo"@, 15)),
        optional_unsigned_field(field(v, "endMdSeqNo"@, 16)),
    ) {
        (Some(timestamp), Some(nonce), Some(request_id), Some(start), Some(end)) => Some(
            (timestamp, nonce, request_id, start, end),
        ),
        _ => None,
    }
}

/// The members that hold truth values, if they have the right shape.
pub open spec fn flags_of(v: Json) -> Option<(Option<bool>, Option<bool>)> {
    match (
        optional_bool_field(field(v, "success"@, 18)),
        optional_bool_field(field(v, "authenticated"@, 19)),
    ) {
        (Some(success), Some(authenticated)) => Some((success, authenticated)),
        _ => None,
    }
}

/// The members that hold order books, if they have the right shape.
pub open spec fn books_of(v: Json) -> Option<
    (Seq<Seq<JsonText>>, Seq<Seq<JsonText>>, Option<SnapshotView>),
> {
    match (
        rows_field(field(v, "bids"@, 7)),
        rows_field(field(v, "asks"@, 8)),
        optional_snapshot(field(v, "response"@, 14)),
    ) {
        (Some(bids), Some(asks), Some(response)) => Some((bids, asks, response)),
        _ => None,
    }
}

/// No member of a message is named twice.
pub open spec fn members_once(v: Json) -> bool {
    &&& named_once(v, "action"@)
    &&& named_once(v, "event"@)
    &&& named_once(v, "key"@)
    &&& named_once(v, "signature"@)
    &&& named_once(v, "timestamp"@)
    &&& named_once(v, "market"@)
    &&& named_once(v, "nonce"@)
    &&& named_once(v, "bids"@)
    &&& named_once(v, "asks"@)
    &&& named_once(v, "id"@)
    &&& named_once(v, "amount"@)
    &&& named_once(v, "price"@)
    &&& named_once(v, "side"@)
    &&& named_once(v, "requestId"@)
    &&& named_once(v, "response"@)
    &&& named_once(v, "startMdSeqNo"@)
    &&& named_once(v, "endMdSeqNo"@)
    &&& named_once(v, "subscriptions"@)
    &&& named_once(v, "success"@)
    &&& named_once(v, "authenticated"@)
}

fn check_members(v: &Json) -> (r: bool)
    ensures
        r == members_once(*v),
{
    check_named_once(v, "action")
        && check_named_once(v, "event")
        && check_named_once(v, "key")
        && check_named_once(v, "signature")
        && check_named_once(v, "timestamp")
        && check_named_once(v, "market")
        && check_named_once(v, "nonce")
        && check_named_once(v, "bids")
        && check_named_once(v, "asks")
        && check_named_once(v, "id")
        && check_named_once(v, "amount")
        && check_named_once(v, "price")
        && check_named_once(v, "side")
        && check_named_once(v, "requestId")
        && check_named_once(v, "response")
        && check_named_once(v, "startMdSeqNo")
        && check_named_once(v, "endMdSeqNo")
        && check_named_once(v, "subscriptions")
        && check_named_once(v, "success")
        && check_named_once(v, "authenticated")
}

/// The message that a JSON value stands for, if it has the right shape.
pub open spec fn message_of(v: Json) -> Option<BitvavoView> {
    match (heading_of(v), details_of(v), numbers_of(v), flags_of(v), books_of(v)) {
        (Some(h), Some(d), Some(n), Some(f), Some(b)) => if is_record(v, 20)
            && members_once(v) {
            Some(
                BitvavoView {
                    action: h.0,
                    event: h.1,
                    key: h.2,
                    signature: h.3,
                    timestamp: n.0,
                    market: d.0,
                    nonce: n.1,
                    bids: b.0,
                    asks: b.1,
                    id: d.1,
                    amount: d.2,
                    price: d.3,
                    side: d.4,
                    request_id: n.2,
                    response: b.2,
                    start_md_seq_no: n.3,
                    end_md_seq_no: n.4,
                    subscriptions: any_field(field(v, "subscriptions"@, 17)),
                    success: f.0,
                    authenticated: f.1,
                },
            )
        } else {
            None
        },
        _ => None,
    }
}

fn read_heading<'a>(v: &'a Json) -> (r: Option<
    (Option<&'a str>, Option<&'a str>, Option<&'a str>, Option<&'a str>),
>)
    ensures
        (match r {
            Some(h) => Some((view_str(h.0), view_str(h.1), view_str(h.2), view_str(h.3))),
            None => None,
        }) == heading_of(*v),
{
    match (
        read_optional_text(get_field(v, "action", 0)),
        read_optional_text(get_field(v, "event", 1)),
        read_optional_text(get_field(v, "key", 2)),
        read_optional_text(get_field(v, "signature", 3)),
    ) {
        (Some(action), Some(event), Some(key), Some(signature)) => Some(
            (action, event, key, signature),
        ),
        _ => None,
    }
}

fn read_details<'a>(v: &'a Json) -> (r: Option<
    (
        Option<&'a str>,
        Option<&'a str>,
        Option<&'a JsonText>,
        Option<&'a JsonText>,
        Option<&'a str>,
    ),
>)
    ensures
        (match r {
            Some(d) => Some(
                (
                    view_str(d.0),
                    view_str(d.1),
                    text_ref_view(d.2),
                    text_ref_view(d.3),
                    view_str(d.4),
                ),
            ),
            None => None,
        }) == details_of(*v),
{
    match (
        read_optional_text(get_field(v, "market", 5)),
        read_optional_text(get_field(v, "id", 9)),
        read_json_text(get_field(v, "amount", 10)),
        read_json_text(get_field(v, "price", 11)),
        read_optional_text(get_field(v, "side", 12)),
    ) {
        (Some(market), Some(id), Some(amount), Some(price), Some(side)) => Some(
            (market, id, amount, price, side),
        ),
        _ => None,
    }
}

fn read_numbers(v: &Json) -> (r: Option<
    (Option<u64>, Option<u64>, Option<u64>, Option<u64>, Option<u64>),
>)
    ensures
        r == numbers_of(*v),
{
    match (
        read_optional_unsigned(get_field(v, "timestamp", 4)),
        read_optional_unsigned(get_field(v, "nonce", 6)),
        read_optional_unsigned(get_field(v, "requestId", 13)),
        read_optional_unsigned(get_field(v, "startMdSeqNo", 15)),
        read_optional_unsigned(get_field(v, "endMdSeqNo", 16)),
    ) {
        (Some(timestamp), Some(nonce), Some(request_id), Some(start), Some(end)) => Some(
            (timestamp, nonce, request_id, start, end),
        ),
        _ => None,
    }
}

fn read_flags(v: &Json) -> (r: Option<(Option<bool>, Option<bool>)>)
    ensures
        r == flags_of(*v),
{
    match (
        read_optional_bool(get_field(v, "success", 18)),
        read_optional_bool(get_field(v, "authenticated", 19)),
    ) {
        (Some(success), Some(authenticated)) => Some((success, authenticated)),
        _ => None,
    }
}

fn read_books(v: &Json) -> (r: Option<
    (Vec<PriceLevel>, Vec<PriceLevel>, Option<BookSnapshot>),
>)
    ensures
        (match r {
            Some(b) => Some((rows_view(b.0@), rows_view(b.1@), snapshot_view(b.2))),
            None => None,
        }) == books_of(*v),
{
    match (
        read_rows(get_field(v, "bids", 7)),
        read_rows(get_field(v, "asks", 8)),
        read_snapshot(get_field(v, "response", 14)),
    ) {
        (Some(bids), Some(asks), Some(response)) => Some((bids, asks, response)),
        _ => None,
    }
}

/// A text, or the empty one.
pub open spec fn or_empty(t: Option<Seq<char>>) -> Seq<char> {
    match t {
        Some(s) => s,
        None => Seq::empty(),
    }
}

/// A text, or the empty one.
pub open spec fn or_empty_text(t: Option<JsonTextView>) -> JsonTextView {
    match t {
        Some(s) => s,
        None => JsonTextView::empty(),
    }
}

fn owned(t: Option<&str>) -> (r: String)
    ensures
        r@ == or_empty(view_str(t)),
{
    match t {
        Some(s) => s.to_owned(),
        None => String::new(),
    }
}

fn owned_text(t: Option<&JsonText>) -> (r: JsonText)
    ensures
        r@ == or_empty_text(text_ref_view(t)),
{
    match t {
        Some(s) => s.clone(),
        None => JsonText::empty(),
    }
}

/// A number, or zero.
pub open spec fn or_nought(n: Option<u64>) -> u64 {
    match n {
        Some(v) => v,
        None => 0,
    }
}

impl BitvavoView {
    /// What the message is about. The action goes before the event.
    pub open spec fn message_type(self) -> MessageType {
        if self.action == Some("getBook"@) {
            MessageType::BookSnapshot
        } else if self.action == Some("authenticate"@) {
            MessageType::Auth
        } else {
            match self.event {
                Some(e) => if e == "authenticate"@ {
                    MessageType::Auth
                } else if e == "book"@ {
                    MessageType::BookUpdate
                } else if e == "trade"@ {
                    MessageType::Trade
                } else {
                    MessageType::Event
                },
                None => MessageType::Unknown,
            }
        }
    }

    /// The message confirms that the authentication succeeded.
    pub open spec fn is_auth_confirmed(self) -> bool {
        (self.action == Some("authenticate"@) || self.event == Some("authenticate"@)) && (
        self.authenticated == Some(true) || self.success == Some(true))
    }

    /// The changes to the book that the message holds.
    pub open spec fn book_update(self) -> Option<UpdateView> {
        if self.event == Some("book"@) {
            Some(
                UpdateView {
                    market: or_empty(self.market),
                    bids: self.bids,
                    asks: self.asks,
                    start_md_seq_no: or_nought(self.start_md_seq_no),
                    end_md_seq_no: or_nought(self.end_md_seq_no),
                    timestamp: self.timestamp,
                },
            )
        } else {
            None
        }
    }

    /// The trade that the message holds.
    pub open spec fn trade(self) -> Option<TradeDataView> {
        if self.event == Some("trade"@) {
            Some(
                TradeDataView {
                    id: or_empty(self.id),
                    amount: or_empty_text(self.amount),
                    price: or_empty_text(self.price),
                    market: or_empty(self.market),
                    side: or_empty(self.side),
                    timestamp: or_nought(self.timestamp),
                    timestamp_ns: None,
                },
            )
        } else {
            None
        }
    }

    /// The full book that the message holds.
    pub open spec fn book_snapshot(self) -> Option<SnapshotView> {
        if self.action == Some("getBook"@) {
            self.response
        } else {
            None
        }
    }
}

impl<'a> BitvavoWsMessage<'a> {
    /// Reads a message; `None` where the value does not have the right shape.
    pub fn from_value(v: &'a Json) -> (r: Option<BitvavoWsMessage<'a>>)
        ensures
            (match r {
                Some(m) => Some(m@),
                None => None,
            }) == message_of(*v),
    {
        if !check_record(v, 20) || !check_members(v) {
            return None;
        }
        let subscriptions: Option<&'a Json> = read_any(get_field(v, "subscriptions", 17));
        match (read_heading(v), read_details(v), read_numbers(v), read_flags(v), read_books(v)) {
            (Some(h), Some(d), Some(n), Some(f), Some(b)) => Some(
                BitvavoWsMessage {
                    action: h.0,
                    event: h.1,
                    key: h.2,
                    signature: h.3,
                    timestamp: n.0,
                    market: d.0,
                    nonce: n.1,
                    bids: b.0,
                    asks: b.1,
                    id: d.1,
                    amount: d.2,
                    price: d.3,
                    side: d.4,
                    request_id: n.2,
                    response: b.2,
                    start_md_seq_no: n.3,
                    end_md_seq_no: n.4,
                    subscriptions,
                    success: f.0,
                    authenticated: f.1,
                },
            ),
            _ => None,
        }
    }

    /// What the message is about.
    pub fn message_type(&self) -> (r: MessageType)
        ensures
            r == self@.message_type(),
    {
        if is_text(self.action, "getBook") {
            MessageType::BookSnapshot
        } else if is_text(self.action, "authenticate") {
            MessageType::Auth
        } else if is_text(self.event, "authenticate") {
            MessageType::Auth
        } else if is_text(self.event, "book") {
            MessageType::BookUpdate
        } else if is_text(self.event, "trade") {
            MessageType::Trade
        } else if self.event.is_some() {
            MessageType::Event
        } else {
            MessageType::Unknown
        }
    }

    /// Whether the message confirms that the authentication succeeded.
    pub fn is_auth_confirmed(&self) -> (r: bool)
        ensures
            r == self@.is_auth_confirmed(),
    {
        let is_auth: bool = is_text(self.action, "authenticate") || is_text(
            self.event,
            "authenticate",
        );
        is_auth && (is_true(self.authenticated) || is_true(self.success))
    }

    /// The full book that the message holds.
    pub fn book_snapshot(&self) -> (r: Option<&BookSnapshot>)
        ensures
            (match r {
                Some(s) => Some(s@),
                None => None,
            }) == self@.book_snapshot(),
    {
        if !is_text(self.action, "getBook") {
            return None;
        }
        self.response.as_ref()
    }

    /// The changes to the book that the message holds.
    pub fn book_update(&self) -> (r: Option<BookUpdate>)
        ensures
            (match r {
                Some(u) => Some(u@),
                None => None,
            }) == self@.book_update(),
    {
        if !is_text(self.event, "book") {
            return None;
        }
        Some(
            BookUpdate {
                market: owned(self.market),
                bids: copy_rows(&self.bids),
                asks: copy_rows(&self.asks),
                start_md_seq_no: self.start_md_seq_no.unwrap_or(0),
                end_md_seq_no: self.end_md_seq_no.unwrap_or(0),
                timestamp: self.timestamp,
            },
        )
    }

    /// The trade that the message holds.
    pub fn trade(&self) -> (r: Option<TradeData>)
        ensures
            (match r {
                Some(t) => Some(t@),
                None => None,
            }) == self@.trade(),
    {
        if !is_text(self.event, "trade") {
            return None;
        }
        Some(
            TradeData {
                id: owned(self.id),
                amount: owned_text(self.amount),
                price: owned_text(self.price),
                market: owned(self.market),
                side: owned(self.side),
                timestamp: self.timestamp.unwrap_or(0),
                timestamp_ns: None,
            },
        )
    }
}

fn is_true(b: Option<bool>) -> (r: bool)
    ensures
        r == (b == Some(true)),
{
    match b {
        Some(v) => v,
        None => false,
    }
}

} // verus!

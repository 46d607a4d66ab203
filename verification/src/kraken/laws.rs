//! What the messages of Kraken lead to.

use crate::book::noted;
use crate::book::DepthView;
use crate::book::Note;
use crate::book::Side;
use crate::checksum::book_checksum;
use crate::clock::rfc3339;
use crate::config::DataKind;
use crate::effect::guarded_changes_take_effect;
use crate::effect::holds_guarded_changes;
use crate::effect::holds_snapshot;
use crate::effect::overlaps;
use crate::effect::snapshot_takes_effect;
use crate::items::ItemView;
use crate::items::LobLevel;
use crate::json::field;
use crate::json::is_record;
use crate::json::json_text;
use crate::json::Json;
use crate::json::JsonText;
use crate::kraken::lob::levels_at;
use crate::kraken::lob::message_never_crosses;
use crate::kraken::lob::quotes;
use crate::kraken::lob::update_clears_nothing;
use crate::kraken::lob::BookView;
use crate::kraken::types::instrument_list;
use crate::kraken::types::level_of;
use crate::kraken::types::levels_of;
use crate::kraken::types::levels_line;
use crate::kraken::types::lob_data_of;
use crate::kraken::types::message_of;
use crate::kraken::types::quoted;
use crate::kraken::types::symbols_of;
use crate::kraken::types::top_levels;
use crate::kraken::types::trade_of;
use crate::kraken::types::KrakenView;
use crate::kraken::types::LobLevelView;
use crate::kraken::types::MessageType;
use crate::kraken::ws::AdapterView;
use crate::ladder::prices_are_numbers;
use crate::laws::ask_in_reach;
use crate::laws::bid_in_reach;
use crate::laws::emits_asks;
use crate::laws::emits_bids;
use crate::laws::item_holds_what_is_in_reach;
use crate::line::PieceView;
use crate::member::integer_said;
use crate::member::is_absent;
use crate::member::is_named_at_most_once;
use crate::member::is_unsigned;
use crate::member::last_of_a_name_is_the_member;
use crate::member::may_be_null_or_text;
use crate::member::may_be_text;
use crate::member::says_double;
use crate::member::says_elements;
use crate::member::says_flag;
use crate::member::says_number_or_text;
use crate::member::says_plain_text;
use crate::member::says_signed_or_zero;
use crate::member::says_text;
use crate::member::says_unsigned;
use crate::num::FloatOp;
use crate::num::Num;
use crate::text::time_of_day;
use crate::text::unsigned_value;
use crate::effect::facing;
use vstd::prelude::*;

verus! {

/// Whether a field is missing or a number.
pub open spec fn may_be_number(f: Option<Json>) -> bool {
    f is None || f->0 is Number
}

/// A trade is read from a record of texts and numbers. Each field is what the
/// record says under its name, or at its place; the identifier is written as
/// the record writes it, be it a text or a number.
pub proof fn trade_is_what_its_record_says(v: Json)
    ensures
        trade_of(v) is Some <==> {
            &&& is_record(v, 6)
            &&& may_be_text(field(v, "symbol"@, 0))
            &&& may_be_text(field(v, "side"@, 1))
            &&& may_be_number(field(v, "price"@, 2))
            &&& may_be_number(field(v, "qty"@, 3))
            &&& may_be_text(field(v, "trade_id"@, 4)) || may_be_number(field(v, "trade_id"@, 4))
            &&& may_be_text(field(v, "timestamp"@, 5))
        },
        trade_of(v) matches Some(t) ==> {
            &&& says_plain_text(field(v, "symbol"@, 0), t.symbol)
            &&& says_plain_text(field(v, "side"@, 1), t.side)
            &&& says_double(field(v, "price"@, 2), t.price)
            &&& says_double(field(v, "qty"@, 3), t.qty)
            &&& exists|reading: Option<crate::json::Reading>| #[trigger]
                says_number_or_text(
                    field(v, "trade_id"@, 4),
                    crate::json::JsonTextView { text: t.trade_id, reading },
                )
            &&& says_plain_text(field(v, "timestamp"@, 5), t.timestamp)
        },
{
    if trade_of(v) is Some {
        let id = crate::json::number_or_text_field(field(v, "trade_id"@, 4))->0;
        assert(says_number_or_text(
            field(v, "trade_id"@, 4),
            crate::json::JsonTextView { text: trade_of(v)->0.trade_id, reading: id.reading },
        ));
    }
}

/// Whether a value is a record of a price and a quantity, each a number, and
/// the level is these.
pub open spec fn says_level_view(v: Json, level: LobLevelView) -> bool {
    &&& is_record(v, 2)
    &&& says_double(field(v, "price"@, 0), level.price)
    &&& says_double(field(v, "qty"@, 1), level.qty)
}

/// Whether a value is a record of a price and a quantity, each a number.
pub open spec fn is_level(v: Json) -> bool {
    &&& is_record(v, 2)
    &&& may_be_number(field(v, "price"@, 0))
    &&& may_be_number(field(v, "qty"@, 1))
}

/// Whether a field is a list of levels, and which; none where it is missing.
pub open spec fn says_level_views(f: Option<Json>, levels: Seq<LobLevelView>) -> bool {
    if f is None {
        levels.len() == 0
    } else {
        &&& f->0 is Arr
        &&& levels.len() == f->0->Arr_0@.len()
        &&& forall|i: int|
            0 <= i < levels.len() ==> says_level_view(f->0->Arr_0@[i], #[trigger] levels[i])
    }
}

/// Whether a field is missing or a list of levels.
pub open spec fn may_be_levels(f: Option<Json>) -> bool {
    f is None || (f->0 is Arr && forall|i: int|
        0 <= i < f->0->Arr_0@.len() ==> is_level(#[trigger] f->0->Arr_0@[i]))
}

proof fn lemma_levels_of(f: Option<Json>)
    ensures
        levels_of(f) is Some <==> may_be_levels(f),
        levels_of(f) matches Some(levels) ==> says_level_views(f, levels),
{
    if f is Some && f->0 is Arr {
        let a = f->0->Arr_0@;
        assert forall|i: int| 0 <= i < a.len() implies (level_of(#[trigger] a[i]) is Some
            <==> is_level(a[i])) by {}
        if forall|i: int| 0 <= i < a.len() ==> is_level(#[trigger] a[i]) {
            assert forall|i: int| 0 <= i < a.len() implies level_of(#[trigger] a[i]) is Some by {
                assert(is_level(a[i]));
            }
        }
        if levels_of(f) is Some {
            let levels = levels_of(f)->0;
            assert forall|i: int| 0 <= i < levels.len() implies says_level_view(
                a[i],
                #[trigger] levels[i],
            ) by {
                assert(level_of(a[i]) is Some);
            }
            assert forall|i: int| 0 <= i < a.len() implies is_level(#[trigger] a[i]) by {
                assert(level_of(a[i]) is Some);
            }
        }
    }
}

/// The data of a book are read from a record of its symbol, its two lists of
/// levels, its checksum and its moment.
pub proof fn book_data_is_what_its_record_says(v: Json)
    ensures
        lob_data_of(v) is Some <==> {
            &&& is_record(v, 5)
            &&& may_be_text(field(v, "symbol"@, 0))
            &&& may_be_levels(field(v, "bids"@, 1))
            &&& may_be_levels(field(v, "asks"@, 2))
            &&& field(v, "checksum"@, 3) is None || (integer_said(field(v, "checksum"@, 3)) is Some
                && integer_said(field(v, "checksum"@, 3))->0 <= i64::MAX)
            &&& may_be_text(field(v, "timestamp"@, 4))
        },
        lob_data_of(v) matches Some(d) ==> {
            &&& says_plain_text(field(v, "symbol"@, 0), d.symbol)
            &&& says_level_views(field(v, "bids"@, 1), d.bids)
            &&& says_level_views(field(v, "asks"@, 2), d.asks)
            &&& says_signed_or_zero(field(v, "checksum"@, 3), d.checksum)
            &&& says_plain_text(field(v, "timestamp"@, 4), d.timestamp)
        },
{
    lemma_levels_of(field(v, "bids"@, 1));
    lemma_levels_of(field(v, "asks"@, 2));
}

/// Whether an object names none of the members twice.
pub open spec fn names_members_once(v: Json) -> bool {
    v matches Json::Obj(o) ==> {
        &&& is_named_at_most_once(o@, "channel"@)
        &&& is_named_at_most_once(o@, "type"@)
        &&& is_named_at_most_once(o@, "data"@)
        &&& is_named_at_most_once(o@, "sequence"@)
        &&& is_named_at_most_once(o@, "method"@)
        &&& is_named_at_most_once(o@, "success"@)
        &&& is_named_at_most_once(o@, "error"@)
    }
}

/// A message is read from a record that names no member twice. Each field is
/// what the record says under its name, or at its place; the error is kept as
/// JSON writes it.
pub proof fn message_is_what_its_record_says(v: Json)
    ensures
        message_of(v) is Some <==> {
            &&& is_record(v, 7)
            &&& names_members_once(v)
            &&& may_be_null_or_text(field(v, "channel"@, 0))
            &&& may_be_null_or_text(field(v, "type"@, 1))
            &&& field(v, "data"@, 2) is None || field(v, "data"@, 2)->0 is Arr
            &&& is_absent(field(v, "sequence"@, 3)) || is_unsigned(field(v, "sequence"@, 3))
            &&& may_be_null_or_text(field(v, "method"@, 4))
            &&& is_absent(field(v, "success"@, 5)) || field(v, "success"@, 5)->0 is Bool
        },
        message_of(v) matches Some(m) ==> {
            &&& says_text(field(v, "channel"@, 0), m.channel)
            &&& says_text(field(v, "type"@, 1), m.msg_type)
            &&& says_elements(field(v, "data"@, 2), m.data)
            &&& says_unsigned(field(v, "sequence"@, 3), m.sequence)
            &&& says_text(field(v, "method"@, 4), m.method)
            &&& says_flag(field(v, "success"@, 5), m.success)
            &&& is_absent(field(v, "error"@, 6)) ==> m.error is None
            &&& !is_absent(field(v, "error"@, 6)) ==> m.error == Some(
                json_text(field(v, "error"@, 6)->0),
            )
        },
{
    last_of_a_name_is_the_member(v, "channel"@);
    last_of_a_name_is_the_member(v, "type"@);
    last_of_a_name_is_the_member(v, "data"@);
    last_of_a_name_is_the_member(v, "sequence"@);
    last_of_a_name_is_the_member(v, "method"@);
    last_of_a_name_is_the_member(v, "success"@);
    last_of_a_name_is_the_member(v, "error"@);
}

/// A message about the channel of books is a snapshot or an update where it
/// says so; the other channels have kinds of their own; and a message without
/// a channel is an event where it names a method.
pub proof fn kind_of_message(m: KrakenView)
    ensures
        m.message_type() == MessageType::L2Snapshot <==> m.channel == Some("book"@) && m.msg_type
            == Some("snapshot"@),
        m.message_type() == MessageType::L2Update <==> m.channel == Some("book"@) && m.msg_type
            == Some("update"@),
        m.message_type() == MessageType::L2 <==> m.channel == Some("book"@) && m.msg_type != Some(
            "snapshot"@,
        ) && m.msg_type != Some("update"@),
        m.message_type() == MessageType::Trade <==> m.channel == Some("trade"@),
        m.message_type() == MessageType::Heartbeat <==> m.channel == Some("heartbeat"@),
        m.message_type() == MessageType::Status <==> m.channel == Some("status"@),
        m.message_type() == MessageType::Instrument <==> m.channel == Some("instrument"@),
        m.message_type() == MessageType::Event <==> m.channel is None && m.method is Some,
{
    reveal_strlit("book");
    reveal_strlit("trade");
    reveal_strlit("heartbeat");
    reveal_strlit("status");
    reveal_strlit("instrument");
    reveal_strlit("snapshot");
    reveal_strlit("update");
    assert("book"@.len() == 4 && "trade"@.len() == 5 && "heartbeat"@.len() == 9 && "status"@.len()
        == 6 && "instrument"@.len() == 10);
    assert("snapshot"@.len() != "update"@.len());
}

/// Whether a moment is the one that the text spells: a date and time, in
/// milliseconds since the epoch, or else a number of seconds.
pub open spec fn spells_moment(t: JsonText, ts: u64) -> bool {
    match rfc3339(t.text@) {
        Some(ms) => ts == ms || ts == ms + 0x1_0000_0000_0000_0000,
        None => t.reading is Some && ts == t.reading->0.millis,
    }
}

/// Whether a moment is the one that the first entry of a message gives under
/// `timestamp`, and the given one where it gives none.
pub open spec fn is_moment_of(ts: u64, m: KrakenView, otherwise: u64) -> bool {
    let f = if m.data.len() > 0 {
        m.data[0].at("timestamp"@)
    } else {
        None
    };
    if f is Some && f->0 is Str && (rfc3339(f->0->Str_0.text@) is Some
        || f->0->Str_0.reading is Some) {
        spells_moment(f->0->Str_0, ts)
    } else {
        ts == otherwise
    }
}

/// Where trades are subscribed to, a message about trades whose first entry is
/// an object with the side as a text and the price and the quantity as numbers
/// gives a trade of that side, price and size. Its identifier is the one of the
/// entry, a text or an integer, which is also its number where it spells one,
/// and its moment is that of the entry.
pub proof fn trade_is_reported<A: Fn(FloatOp, Num, Num) -> Num>(
    a: AdapterView,
    unit: A,
    msg: KrakenView,
    now: u64,
    side: JsonText,
    price: crate::json::JsonNumber,
    qty: crate::json::JsonNumber,
)
    requires
        a.data_kind == DataKind::TRADE || a.data_kind == DataKind::BOTH,
        msg.channel == Some("trade"@),
        msg.data.len() > 0,
        may_be_text(msg.data[0].at("symbol"@)),
        msg.data[0].at("side"@) == Some(Json::Str(side)),
        msg.data[0].at("price"@) == Some(Json::Number(price)),
        msg.data[0].at("qty"@) == Some(Json::Number(qty)),
        may_be_text(msg.data[0].at("trade_id"@)) || may_be_number(msg.data[0].at("trade_id"@)),
        may_be_text(msg.data[0].at("timestamp"@)),
    ensures
        a.item(unit, msg, now) matches Some(ItemView::Trade(t)) && {
            &&& is_moment_of(t.ts, msg, 0)
            &&& t.exchange == "kraken"@
            &&& t.price == price.reading().num@
            &&& t.size == qty.reading().num@
            &&& t.side == side.text@
            &&& msg.data[0].at("trade_id"@) is None ==> t.trade_id is None && t.seq_id is None
            &&& msg.data[0].at("trade_id"@) matches Some(Json::Str(id)) ==> {
                &&& id.text@.len() > 0 ==> t.trade_id == Some(id.text@) && t.seq_id
                    == unsigned_value(id.text@)
                &&& id.text@.len() == 0 ==> t.trade_id is None && t.seq_id is None
            }
            &&& msg.data[0].at("trade_id"@) matches Some(Json::Number(id)) ==> (
            id.printed().len() > 0 ==> t.trade_id == Some(id.printed()) && t.seq_id
                == unsigned_value(id.printed()))
        },
        a.handled(unit, msg, now) == a,
{
    kind_of_message(msg);
    reveal_strlit("book");
    reveal_strlit("trade");
    assert("book"@.len() != "trade"@.len());
}

/// A message about trades gives an item only where trades are subscribed to
/// and its first entry is the record of a trade, and it never touches the
/// book.
pub proof fn only_trades_are_reported<A: Fn(FloatOp, Num, Num) -> Num>(
    a: AdapterView,
    unit: A,
    msg: KrakenView,
    now: u64,
)
    requires
        msg.channel == Some("trade"@),
    ensures
        a.item(unit, msg, now) is Some <==> {
            &&& a.data_kind == DataKind::TRADE || a.data_kind == DataKind::BOTH
            &&& msg.data.len() > 0
            &&& trade_of(msg.data[0]) is Some
        },
        a.handled(unit, msg, now) == a,
{
    kind_of_message(msg);
    reveal_strlit("book");
    reveal_strlit("trade");
    assert("book"@.len() != "trade"@.len());
}

/// Whether a value is an object whose price and quantity are numbers, which
/// are those of the level.
pub open spec fn says_level(v: Json, level: LobLevel) -> bool {
    &&& v.at("price"@) is Some && v.at("price"@)->0 is Number
    &&& v.at("qty"@) is Some && v.at("qty"@)->0 is Number
    &&& level.price == v.at("price"@)->0->Number_0.reading().num
    &&& level.size == v.at("qty"@)->0->Number_0.reading().num
}

/// Whether a value gives no level: it lacks a price or a quantity that is a
/// number.
pub open spec fn says_no_level(v: Json) -> bool {
    v.at("price"@) is None || !(v.at("price"@)->0 is Number) || v.at("qty"@) is None || !(v.at(
        "qty"@,
    )->0 is Number)
}

/// The levels of elements are those of the first part and then those of the
/// second. An element gives one level or none.
pub proof fn levels_follow_each_other(a: Seq<Json>, b: Seq<Json>, v: Json, level: LobLevel)
    ensures
        quotes(a + b) == quotes(a) + quotes(b),
        says_level(v, level) ==> quotes(seq![v]) == seq![level],
        says_no_level(v) ==> quotes(seq![v]).len() == 0,
    decreases b.len(),
{
    assert(seq![v].drop_last() =~= Seq::<Json>::empty());
    assert(seq![v].last() == v);
    assert(quotes(seq![v].drop_last()) =~= Seq::<LobLevel>::empty());
    if says_level(v, level) {
        assert(quoted(v) == Some((level.price, level.size)));
        assert(quotes(seq![v]) =~= seq![level]);
    }
    if b.len() == 0 {
        assert(a + b =~= a);
        assert(quotes(a) + quotes(b) =~= quotes(a));
    } else {
        levels_follow_each_other(a, b.drop_last(), v, level);
        assert((a + b).drop_last() =~= a + b.drop_last());
        assert((a + b).last() == b.last());
        assert(quotes(a + b) =~= quotes(a) + quotes(b));
    }
}

proof fn lemma_said_levels(a: Seq<Json>, levels: Seq<LobLevel>)
    requires
        a.len() == levels.len(),
        forall|i: int| 0 <= i < a.len() ==> says_level(#[trigger] a[i], levels[i]),
    ensures
        quotes(a) == levels,
    decreases a.len(),
{
    if a.len() == 0 {
        assert(levels =~= Seq::<LobLevel>::empty());
    } else {
        let t = a.drop_last();
        let l = levels.drop_last();
        assert forall|i: int| 0 <= i < t.len() implies says_level(#[trigger] t[i], l[i]) by {
            assert(t[i] == a[i]);
        }
        lemma_said_levels(t, l);
        let v = a[a.len() - 1];
        levels_follow_each_other(t, seq![v], v, levels[a.len() - 1]);
        assert(says_level(v, levels[a.len() - 1]));
        assert(a =~= t + seq![v]);
        assert(levels =~= l + seq![levels[a.len() - 1]]);
    }
}

/// A side of an entry that is an array of objects, each with a price and a
/// quantity that are numbers, gives these levels in this order. A side that is
/// missing or no array gives none.
pub proof fn levels_are_what_the_entry_says(d: Json, key: Seq<char>, levels: Seq<LobLevel>)
    ensures
        d.at(key) matches Some(Json::Arr(a)) ==> (a@.len() == levels.len() && (forall|i: int|
            0 <= i < a@.len() ==> says_level(#[trigger] a@[i], levels[i])) ==> levels_at(d, key)
            == levels),
        d.at(key) is None || !(d.at(key)->0 is Arr) ==> levels_at(d, key).len() == 0,
{
    if d.at(key) is Some && d.at(key)->0 is Arr {
        let a = d.at(key)->0->Arr_0@;
        if a.len() == levels.len() && (forall|i: int|
            0 <= i < a.len() ==> says_level(#[trigger] a[i], levels[i])) {
            lemma_said_levels(a, levels);
        }
    }
}

/// The levels that the first entry of a message gives for a side.
pub open spec fn given(msg: KrakenView, key: Seq<char>) -> Seq<LobLevel> {
    levels_at(msg.data[0], key)
}

/// An update changes both sides of a book that is not crossed: first the bids,
/// against the asks as they were, and after that the asks, against the bids as
/// they are now. It calls for a snapshot where its sequence number is not the
/// one after the last.
pub proof fn update_changes_both_sides(b: BookView, msg: KrakenView)
    requires
        b.depth.wf(),
        !b.depth.is_crossed(),
        msg.data.len() > 0,
        msg.msg_type == Some("update"@),
        prices_are_numbers(given(msg, "bids"@)),
        prices_are_numbers(given(msg, "asks"@)),
    ensures
        holds_guarded_changes(
            b.depth,
            Side::Bid,
            given(msg, "bids"@),
            b.processed(msg).depth.bids,
        ),
        holds_guarded_changes(
            DepthView { bids: b.processed(msg).depth.bids, asks: b.depth.asks },
            Side::Ask,
            given(msg, "asks"@),
            b.processed(msg).depth.asks,
        ),
        b.processed(msg).awaiting_snapshot == b.awaiting_snapshot,
        msg.sequence is None || b.last_sequence is None || msg.sequence->0 == b.last_sequence->0 + 1
            ==> b.processed(msg).needs_resync == b.needs_resync,
        msg.sequence is Some && b.last_sequence is Some && msg.sequence->0 != b.last_sequence->0
            + 1 ==> b.processed(msg).needs_resync,
        msg.sequence is None ==> b.processed(msg).last_sequence == b.last_sequence,
        msg.sequence is Some ==> b.processed(msg).last_sequence == msg.sequence,
{
    reveal_strlit("snapshot");
    reveal_strlit("update");
    assert("snapshot"@.len() != "update"@.len());
    let bids = given(msg, "bids"@);
    let asks = given(msg, "asks"@);
    let m = b.changed(bids, Side::Bid);
    update_clears_nothing(b, bids, Side::Bid);
    guarded_changes_take_effect(b.depth, Side::Bid, bids);
    update_clears_nothing(m, asks, Side::Ask);
    guarded_changes_take_effect(m.depth, Side::Ask, asks);
    assert(m.depth == b.depth.guarded(Side::Bid, bids));
    assert(m.changed(asks, Side::Ask).depth == m.depth.guarded(Side::Ask, asks));
    assert(b.processed(msg).depth == m.depth.guarded(Side::Ask, asks));
    assert((DepthView { bids: m.depth.bids, asks: b.depth.asks }) == m.depth);
}

/// Whether the sides are those of a book after a snapshot that gives levels:
/// the sides for which it gives some hold these, the others are as they were.
pub open spec fn loads(b: BookView, msg: KrakenView, full: DepthView) -> bool {
    &&& if given(msg, "bids"@).len() > 0 {
        holds_snapshot(given(msg, "bids"@), full.bids)
    } else {
        full.bids == b.depth.bids
    }
    &&& if given(msg, "asks"@).len() > 0 {
        holds_snapshot(given(msg, "asks"@), full.asks)
    } else {
        full.asks == b.depth.asks
    }
}

/// A snapshot that gives levels for a side or for both replaces these sides,
/// and leaves a side for which it gives none. A book that is crossed after
/// that is cleared, and a snapshot is awaited; otherwise none is awaited any
/// more. One that gives asks starts the sequence anew.
pub proof fn snapshot_replaces_what_it_gives(b: BookView, msg: KrakenView) -> (full: DepthView)
    requires
        msg.data.len() > 0,
        msg.msg_type is None || msg.msg_type == Some("snapshot"@),
        given(msg, "bids"@).len() > 0 || given(msg, "asks"@).len() > 0,
    ensures
        loads(b, msg, full),
        !overlaps(full) ==> {
            &&& b.processed(msg).depth == full
            &&& !b.processed(msg).awaiting_snapshot
        },
        overlaps(full) ==> {
            &&& b.processed(msg).depth.bids.len() == 0
            &&& b.processed(msg).depth.asks.len() == 0
            &&& b.processed(msg).awaiting_snapshot
        },
        given(msg, "asks"@).len() > 0 ==> {
            &&& !b.processed(msg).needs_resync
            &&& b.processed(msg).last_sequence == msg.sequence
        },
        given(msg, "asks"@).len() == 0 ==> {
            &&& b.processed(msg).needs_resync == (b.needs_resync || (msg.sequence is Some
                && b.last_sequence is Some && msg.sequence->0 != b.last_sequence->0 + 1))
            &&& b.processed(msg).last_sequence == (if msg.sequence is Some {
                msg.sequence
            } else {
                b.last_sequence
            })
        },
{
    let bids = given(msg, "bids"@);
    let asks = given(msg, "asks"@);
    snapshot_takes_effect(b.depth, Side::Bid, bids);
    snapshot_takes_effect(b.depth, Side::Ask, asks);
    assert(b.levelled(msg) == b.unrepaired(bids, asks).repaired());
    b.unrepaired(bids, asks).depth
}

/// A snapshot without any level leaves the book as it is and is a snapshot
/// nevertheless: none is awaited any more.
pub proof fn bare_snapshot_changes_no_level(b: BookView, msg: KrakenView)
    requires
        msg.data.len() > 0,
        msg.msg_type is None || msg.msg_type == Some("snapshot"@),
        given(msg, "bids"@).len() == 0,
        given(msg, "asks"@).len() == 0,
    ensures
        b.processed(msg).depth == b.depth,
        !b.processed(msg).awaiting_snapshot,
{
}

/// A message without entries changes nothing, and one of another type changes
/// no level.
pub proof fn other_messages_change_no_level(b: BookView, msg: KrakenView)
    requires
        msg.data.len() == 0 || (msg.msg_type is Some && msg.msg_type != Some("snapshot"@)
            && msg.msg_type != Some("update"@)),
    ensures
        b.processed(msg).depth == b.depth,
        b.processed(msg).awaiting_snapshot == b.awaiting_snapshot,
        msg.data.len() == 0 ==> b.processed(msg) == b && b.notes(msg).len() == 0,
{
}

/// A checksum above zero in the first entry is held against that of the ten
/// best levels of each side of the book as the message leaves it, and one
/// below zero always passes. Where the entry has none, or zero, the outcome of
/// the last one stays, but for a snapshot that gives asks, which calls it off.
pub proof fn checksum_is_held_against_the_book(b: BookView, msg: KrakenView)
    requires
        msg.data.len() > 0,
    ensures
        integer_said(msg.data[0].at("checksum"@)) matches Some(n) ==> {
            &&& 0 < n <= i64::MAX ==> (b.processed(msg).checksum_failed <==> book_checksum(
                b.processed(msg).depth,
                10,
            ) != n)
            &&& n < 0 ==> !b.processed(msg).checksum_failed
        },
        (is_absent(msg.data[0].at("checksum"@)) || integer_said(msg.data[0].at("checksum"@)) == Some(
            0int,
        )) ==> b.processed(msg).checksum_failed == (b.checksum_failed && !((msg.msg_type is None
            || msg.msg_type == Some("snapshot"@)) && given(msg, "asks"@).len() > 0)),
{
    reveal_strlit("snapshot");
    reveal_strlit("update");
    assert("snapshot"@.len() != "update"@.len());
}

/// The note of a checksum that the message gives and that is not that of the
/// book as the message leaves it.
pub open spec fn mismatch_notes(b: BookView, msg: KrakenView) -> Seq<Note> {
    let computed = book_checksum(b.processed(msg).depth, 10);
    match integer_said(msg.data[0].at("checksum"@)) {
        Some(n) => if 0 < n <= i64::MAX && computed != n {
            seq![Note::Mismatch { computed, checksum: n as i64 }]
        } else {
            Seq::empty()
        },
        None => Seq::empty(),
    }
}

/// The note of a sequence number that is not the one after the last.
pub open spec fn gap_notes(last: Option<u64>, sequence: Option<u64>) -> Seq<Note> {
    if last is Some && sequence is Some && sequence->0 != last->0 + 1 {
        seq![Note::OutOfSequence { last: last->0, sequence: sequence->0 }]
    } else {
        Seq::empty()
    }
}

/// An update to a book that is not crossed gives cause to note the bids that
/// are refused, the asks that are refused after that, a gap in the sequence and
/// a checksum that does not match, in this order.
pub proof fn update_notes_refusals_gap_and_mismatch(b: BookView, msg: KrakenView)
    requires
        b.depth.wf(),
        !b.depth.is_crossed(),
        msg.data.len() > 0,
        msg.msg_type == Some("update"@),
        prices_are_numbers(given(msg, "bids"@)),
        prices_are_numbers(given(msg, "asks"@)),
    ensures
        b.notes(msg) == b.depth.refusals(Side::Bid, given(msg, "bids"@)) + (DepthView {
            bids: b.processed(msg).depth.bids,
            asks: b.depth.asks,
        }).refusals(Side::Ask, given(msg, "asks"@)) + gap_notes(b.last_sequence, msg.sequence)
            + mismatch_notes(b, msg),
{
    reveal_strlit("snapshot");
    reveal_strlit("update");
    assert("snapshot"@.len() != "update"@.len());
    let bids = given(msg, "bids"@);
    let asks = given(msg, "asks"@);
    let m = b.changed(bids, Side::Bid);
    update_clears_nothing(b, bids, Side::Bid);
    guarded_changes_take_effect(b.depth, Side::Bid, bids);
    update_clears_nothing(m, asks, Side::Ask);
    guarded_changes_take_effect(m.depth, Side::Ask, asks);
    assert(m.depth == b.depth.guarded(Side::Bid, bids));
    assert(b.processed(msg).depth == m.depth.guarded(Side::Ask, asks));
    assert((DepthView { bids: b.processed(msg).depth.bids, asks: b.depth.asks }) == m.depth);
    assert(b.change_notes(bids, Side::Bid) =~= b.depth.refusals(Side::Bid, bids));
    assert(m.change_notes(asks, Side::Ask) =~= m.depth.refusals(Side::Ask, asks));
    assert(noted(b.levelled(msg).sequence_note(msg.sequence)) =~= gap_notes(
        b.last_sequence,
        msg.sequence,
    ));
    assert(noted(b.unverified(msg).checksum_note(msg.checksum())) =~= mismatch_notes(b, msg));
    assert(b.notes(msg) =~= b.depth.refusals(Side::Bid, bids) + m.depth.refusals(Side::Ask, asks)
        + gap_notes(b.last_sequence, msg.sequence) + mismatch_notes(b, msg));
}

/// A snapshot that gives asks gives cause to note that the book was crossed,
/// with its two best prices, and after that a checksum that does not match.
pub proof fn snapshot_notes_clearing_and_mismatch(b: BookView, msg: KrakenView) -> (full: DepthView)
    requires
        msg.data.len() > 0,
        msg.msg_type is None || msg.msg_type == Some("snapshot"@),
        given(msg, "asks"@).len() > 0,
    ensures
        loads(b, msg, full),
        overlaps(full) ==> b.notes(msg) == seq![
            Note::Cleared { bid: full.bids.last().price, ask: full.asks[0].price },
        ] + mismatch_notes(b, msg),
        !overlaps(full) ==> b.notes(msg) == mismatch_notes(b, msg),
{
    let bids = given(msg, "bids"@);
    let asks = given(msg, "asks"@);
    let full = b.unrepaired(bids, asks).depth;
    snapshot_takes_effect(b.depth, Side::Bid, bids);
    snapshot_takes_effect(b.depth, Side::Ask, asks);
    assert(noted(b.levelled(msg).sequence_note(msg.sequence)) =~= Seq::<Note>::empty());
    assert(noted(b.unverified(msg).checksum_note(msg.checksum())) =~= mismatch_notes(b, msg));
    let cleared = if overlaps(full) {
        seq![Note::Cleared { bid: full.bids.last().price, ask: full.asks[0].price }]
    } else {
        Seq::empty()
    };
    assert(b.notes(msg) =~= cleared + mismatch_notes(b, msg));
    assert(!overlaps(full) ==> b.notes(msg) =~= mismatch_notes(b, msg));
    full
}

/// Where the book is subscribed to, an item that a message about it gives
/// carries the name of the exchange and the moment of the message, and holds
/// what is in reach of the book as the message leaves it. The message changes
/// the book to just that.
pub proof fn book_item_shows_the_book<A: Fn(FloatOp, Num, Num) -> Num>(
    a: AdapterView,
    unit: A,
    msg: KrakenView,
    now: u64,
)
    requires
        a.book.depth.wf(),
        msg.channel == Some("book"@),
    ensures
        a.item(unit, msg, now) matches Some(item) ==> item is Lob && {
            let lob = item->Lob_0;
            let d = a.book.processed(msg).depth;
            &&& a.data_kind == DataKind::LOB || a.data_kind == DataKind::BOTH
            &&& lob.exchange == "kraken"@
            &&& is_moment_of(lob.ts, msg, now)
            &&& emits_bids(unit, d.bids, a.max_level, a.max_level_pct, lob.bids)
            &&& emits_asks(unit, d.asks, a.max_level, a.max_level_pct, lob.asks)
            &&& a.handled(unit, msg, now).book == a.book.processed(msg)
            &&& a.handled(unit, msg, now).notes == a.book.notes(msg)
            &&& a.handled(unit, msg, now).prev_lob == Some(lob)
        },
{
    kind_of_message(msg);
    message_never_crosses(a.book, msg);
    let d = a.book.processed(msg).depth;
    item_holds_what_is_in_reach(
        unit,
        d,
        crate::clock::moment(msg.timestamp_ms(), now),
        "kraken"@,
        a.max_level,
        a.max_level_pct,
    );
}

/// Where the book is subscribed to and no snapshot is missing, a message about
/// it that leaves levels in reach on both sides gives an item, unless the item
/// before holds the same levels.
pub proof fn book_is_shown_when_it_changes<A: Fn(FloatOp, Num, Num) -> Num>(
    a: AdapterView,
    unit: A,
    msg: KrakenView,
    now: u64,
    bid: int,
    ask: int,
)
    requires
        a.book.depth.wf(),
        a.data_kind == DataKind::LOB || a.data_kind == DataKind::BOTH,
        msg.channel == Some("book"@),
        a.book.awaiting_snapshot ==> msg.data.len() > 0 && (msg.msg_type is None || msg.msg_type
            == Some("snapshot"@)),
        !a.book.processed(msg).needs_resync,
        !a.book.processed(msg).awaiting_snapshot,
        a.max_level != Some(0usize),
        0 <= bid < a.book.processed(msg).depth.bids.len(),
        bid_in_reach(
            unit,
            a.book.processed(msg).depth.bids,
            a.max_level_pct,
            a.book.processed(msg).depth.bids[bid],
        ),
        0 <= ask < a.book.processed(msg).depth.asks.len(),
        ask_in_reach(
            unit,
            a.book.processed(msg).depth.asks,
            a.max_level_pct,
            a.book.processed(msg).depth.asks[ask],
        ),
    ensures
        a.handled(unit, msg, now).book == a.book.processed(msg),
        a.handled(unit, msg, now).notes == a.book.notes(msg),
        a.prev_lob is None ==> a.item(unit, msg, now) is Some,
        a.item(unit, msg, now) is None ==> a.handled(unit, msg, now).prev_lob == a.prev_lob && {
            let d = a.book.processed(msg).depth;
            exists|lob: crate::items::LobView|
                {
                    &&& #[trigger] crate::items::levels_equal(a.prev_lob->0.bids, lob.bids)
                    &&& crate::items::levels_equal(a.prev_lob->0.asks, lob.asks)
                    &&& emits_bids(unit, d.bids, a.max_level, a.max_level_pct, lob.bids)
                    &&& emits_asks(unit, d.asks, a.max_level, a.max_level_pct, lob.asks)
                }
        },
{
    kind_of_message(msg);
    message_never_crosses(a.book, msg);
    let d = a.book.processed(msg).depth;
    item_holds_what_is_in_reach(
        unit,
        d,
        crate::clock::moment(msg.timestamp_ms(), now),
        "kraken"@,
        a.max_level,
        a.max_level_pct,
    );
    let lob = a.fed(msg).lob(unit, crate::clock::moment(msg.timestamp_ms(), now));
    assert(lob is Some);
}

/// Until a snapshot comes, a message about the book that is none changes
/// nothing and gives nothing; and a message that leaves the book in need of a
/// snapshot gives nothing, and leaves the adapter with no book and no item
/// before.
pub proof fn without_snapshot_nothing_is_shown<A: Fn(FloatOp, Num, Num) -> Num>(
    a: AdapterView,
    unit: A,
    msg: KrakenView,
    now: u64,
)
    requires
        a.data_kind == DataKind::LOB || a.data_kind == DataKind::BOTH,
        msg.channel == Some("book"@),
    ensures
        a.book.awaiting_snapshot && (msg.data.len() == 0 || (msg.msg_type is Some && msg.msg_type
            != Some("snapshot"@))) ==> a.item(unit, msg, now) is None && a.handled(unit, msg, now)
            == a,
        !a.book.awaiting_snapshot && (a.book.processed(msg).needs_resync || a.book.processed(
            msg,
        ).awaiting_snapshot) ==> {
            &&& a.item(unit, msg, now) is None
            &&& a.handled(unit, msg, now).book.depth.bids.len() == 0
            &&& a.handled(unit, msg, now).book.depth.asks.len() == 0
            &&& a.handled(unit, msg, now).book.awaiting_snapshot
            &&& a.handled(unit, msg, now).book.last_sequence is None
            &&& !a.handled(unit, msg, now).book.needs_resync
            &&& !a.handled(unit, msg, now).book.checksum_failed
            &&& a.handled(unit, msg, now).notes == a.book.notes(msg)
            &&& a.handled(unit, msg, now).prev_lob is None
        },
{
    kind_of_message(msg);
}

/// No message changes what the adapter was set up with.
pub proof fn settings_stay<A: Fn(FloatOp, Num, Num) -> Num>(
    a: AdapterView,
    unit: A,
    msg: KrakenView,
    now: u64,
)
    ensures
        ({
            let after = a.handled(unit, msg, now);
            &&& after.instrument == a.instrument
            &&& after.region == a.region
            &&& after.max_level_pct == a.max_level_pct
            &&& after.max_level == a.max_level
            &&& after.data_kind == a.data_kind
            &&& after.checksum_log == a.checksum_log
            &&& after.crossguard_log == a.crossguard_log
        }),
        ({
            let after = a.wiped();
            &&& after.instrument == a.instrument
            &&& after.region == a.region
            &&& after.max_level_pct == a.max_level_pct
            &&& after.max_level == a.max_level
            &&& after.data_kind == a.data_kind
            &&& after.checksum_log == a.checksum_log
            &&& after.crossguard_log == a.crossguard_log
        }),
{
}

/// The channel of the book is subscribed to exactly where the book is asked
/// for, that of trades exactly where trades are, each once and the book first.
pub proof fn channels_are_those_asked_for(a: AdapterView)
    ensures
        ({
            let lob = a.data_kind == DataKind::LOB || a.data_kind == DataKind::BOTH;
            let trade = a.data_kind == DataKind::TRADE || a.data_kind == DataKind::BOTH;
            let s = a.subscriptions();
            &&& lob && trade ==> s.len() == 2 && s[0].0 == "book"@ && s[1].0 == "trade"@
            &&& lob && !trade ==> s.len() == 1 && s[0].0 == "book"@
            &&& !lob && trade ==> s.len() == 1 && s[0].0 == "trade"@
            &&& !lob && !trade ==> s.len() == 0
            &&& forall|i: int|
                0 <= i < s.len() ==> (#[trigger] s[i]).1 == crate::kraken::ws::subscribe_request(
                    s[i].0,
                    a.instrument,
                )
        }),
{
}

/// Whether an element is an object that names a symbol, which is the text.
pub open spec fn says_symbol(v: Json, symbol: Seq<char>) -> bool {
    v.at("symbol"@) is Some && v.at("symbol"@)->0 is Str && v.at("symbol"@)->0->Str_0.text@ == symbol
}

proof fn lemma_symbols(a: Seq<Json>, symbol: Seq<char>)
    ensures
        symbols_of(a).contains(symbol) <==> exists|i: int|
            0 <= i < a.len() && says_symbol(#[trigger] a[i], symbol),
    decreases a.len(),
{
    if a.len() > 0 {
        let t = a.drop_last();
        let s = symbols_of(t);
        let all = symbols_of(a);
        lemma_symbols(t, symbol);
        assert(a[a.len() - 1] == a.last());
        if s.contains(symbol) {
            let k = choose|k: int| 0 <= k < s.len() && s[k] == symbol;
            assert(all[k] == symbol);
            let i = choose|i: int| 0 <= i < t.len() && says_symbol(#[trigger] t[i], symbol);
            assert(says_symbol(a[i], symbol));
        }
        if says_symbol(a.last(), symbol) {
            assert(all[all.len() - 1] == symbol);
        }
        if all.contains(symbol) && !s.contains(symbol) {
            let k = choose|k: int| 0 <= k < all.len() && all[k] == symbol;
            if k < s.len() {
                assert(s[k] == symbol);
            }
            assert(says_symbol(a[a.len() - 1], symbol));
        }
        if exists|i: int| 0 <= i < a.len() && says_symbol(#[trigger] a[i], symbol) {
            let i = choose|i: int| 0 <= i < a.len() && says_symbol(#[trigger] a[i], symbol);
            if i < t.len() {
                assert(says_symbol(t[i], symbol));
            }
        }
    }
}

/// A message lists instruments exactly where it is about the channel of
/// instruments and its data holds an array of pairs, and the instruments that
/// it lists are the symbols of these pairs.
pub proof fn instruments_are_the_symbols_of_the_pairs(v: Json, symbol: Seq<char>)
    ensures
        instrument_list(v) is Some <==> {
            &&& v.at("channel"@) is Some && v.at("channel"@)->0 is Str
            &&& v.at("channel"@)->0->Str_0.text@ == "instrument"@
            &&& v.at("data"@) is Some
            &&& v.at("data"@)->0.at("pairs"@) is Some && v.at("data"@)->0.at("pairs"@)->0 is Arr
        },
        instrument_list(v) matches Some(symbols) ==> (symbols.contains(symbol) <==> exists|i: int|
            0 <= i < v.at("data"@)->0.at("pairs"@)->0->Arr_0@.len() && says_symbol(
                #[trigger] v.at("data"@)->0.at("pairs"@)->0->Arr_0@[i],
                symbol,
            )),
{
    if instrument_list(v) is Some {
        lemma_symbols(v.at("data"@)->0.at("pairs"@)->0->Arr_0@, symbol);
    }
}

/// The symbol that is shown is that of the first entry, and a question mark
/// where it has none. Each kind of message has a tag of its own.
pub proof fn symbol_and_kind_are_shown(m: KrakenView, a: MessageType, b: MessageType)
    ensures
        m.data.len() > 0 ==> (m.data[0].at("symbol"@) matches Some(Json::Str(t)) ==> m.symbol()
            == t.text@),
        m.data.len() == 0 || m.data[0].at("symbol"@) is None || !(m.data[0].at(
            "symbol"@,
        )->0 is Str) ==> m.symbol() == "?"@,
        a.tag() == b.tag() ==> a == b,
{
    reveal_strlit("HEARTBEAT");
    reveal_strlit("STATUS");
    reveal_strlit("INSTRUMENT");
    reveal_strlit("EVENT");
    reveal_strlit("LOB2 SNAPSHOT");
    reveal_strlit("LOB2 UPDATE");
    reveal_strlit("LOB2");
    reveal_strlit("TRADE");
    reveal_strlit("UNKNOWN");
    assert("HEARTBEAT"@.len() == 9 && "STATUS"@.len() == 6 && "INSTRUMENT"@.len() == 10
        && "EVENT"@.len() == 5 && "LOB2 SNAPSHOT"@.len() == 13 && "LOB2 UPDATE"@.len() == 11
        && "LOB2"@.len() == 4 && "TRADE"@.len() == 5 && "UNKNOWN"@.len() == 7);
    assert("TRADE"@[0] == 'T' && "EVENT"@[0] == 'E');
}

/// An event is shown by its method and its outcome: success, or an error with
/// what the exchange says of it.
pub proof fn event_shows_its_outcome(m: KrakenView, method: Seq<char>)
    requires
        m.channel is None,
        m.method == Some(method),
    ensures
        m.summary().len() == 1,
        m.success is None ==> m.summary()[0] == PieceView::Text(method),
        m.success == Some(true) ==> m.summary()[0] == PieceView::Text(method + " success"@),
        m.success == Some(false) && m.error is None ==> m.summary()[0] == PieceView::Text(
            method + " error"@,
        ),
        m.success == Some(false) && m.error is Some ==> m.summary()[0] == PieceView::Text(
            method + " error: "@ + m.error->0,
        ),
{
    reveal_strlit(" error");
    reveal_strlit(": ");
    reveal_strlit(" error: ");
    assert(" error: "@ =~= " error"@ + ": "@);
    if m.success == Some(false) && m.error is Some {
        assert(method + " error"@ + ": "@ + m.error->0 =~= method + " error: "@ + m.error->0);
    }
}

/// The pieces that show a level: its price with two decimals and its quantity
/// with four.
pub open spec fn level_pieces(level: LobLevel) -> Seq<PieceView> {
    seq![
        PieceView::Fixed { num: level.price, decimals: 2 },
        PieceView::Text(" ("@),
        PieceView::Fixed { num: level.size, decimals: 4 },
        PieceView::Text(")"@),
    ]
}

/// The first two elements of a side are shown, each that gives a level, with a
/// comma between two of them.
pub proof fn two_levels_are_shown(d: Json, key: Seq<char>, first: LobLevel, second: LobLevel)
    ensures
        d.at(key) is None || !(d.at(key)->0 is Arr) ==> top_levels(d, key).len() == 0,
        d.at(key) matches Some(Json::Arr(a)) ==> {
            &&& a@.len() == 0 ==> top_levels(d, key).len() == 0
            &&& a@.len() == 1 && says_level(a@[0], first) ==> top_levels(d, key) == level_pieces(
                first,
            )
            &&& a@.len() >= 2 && says_level(a@[0], first) && says_level(a@[1], second)
                ==> top_levels(d, key) == level_pieces(first) + seq![PieceView::Text(", "@)]
                + level_pieces(second)
            &&& a@.len() >= 2 && says_no_level(a@[0]) && says_level(a@[1], second) ==> top_levels(
                d,
                key,
            ) == level_pieces(second)
            &&& a@.len() >= 2 && says_level(a@[0], first) && says_no_level(a@[1]) ==> top_levels(
                d,
                key,
            ) == level_pieces(first)
        },
{
    if d.at(key) is Some && d.at(key)->0 is Arr {
        let a = d.at(key)->0->Arr_0@;
        assert(levels_line(a, 0) =~= Seq::<PieceView>::empty());
        if a.len() >= 1 {
            assert(says_level(a[0], first) ==> quoted(a[0]) == Some((first.price, first.size)));
            assert(says_no_level(a[0]) ==> quoted(a[0]) is None);
            assert(says_level(a[0], first) ==> levels_line(a, 1) =~= level_pieces(first));
            assert(says_no_level(a[0]) ==> levels_line(a, 1) =~= Seq::<PieceView>::empty());
        }
        if a.len() >= 2 {
            assert(says_level(a[1], second) ==> quoted(a[1]) == Some((second.price, second.size)));
            assert(says_no_level(a[1]) ==> quoted(a[1]) is None);
            assert(says_level(a[0], first) && says_level(a[1], second) ==> levels_line(a, 2)
                =~= level_pieces(first) + seq![PieceView::Text(", "@)] + level_pieces(second));
            assert(says_no_level(a[0]) && says_level(a[1], second) ==> levels_line(a, 2)
                =~= level_pieces(second));
            assert(says_level(a[0], first) && says_no_level(a[1]) ==> levels_line(a, 2)
                =~= level_pieces(first));
        }
    }
}

/// A message about the book is shown by its symbol and the first levels of each
/// side, one about a trade by its price and its quantity, with four decimals,
/// and its side.
pub proof fn summary_shows_the_message(m: KrakenView)
    ensures
        m.channel == Some("book"@) && m.data.len() > 0 ==> m.summary() == seq![
            PieceView::Text(m.symbol() + " "@),
            PieceView::Text("bids: "@),
        ] + top_levels(m.data[0], "bids"@) + seq![PieceView::Text(" | asks: "@)] + top_levels(
            m.data[0],
            "asks"@,
        ),
        m.channel == Some("book"@) && m.data.len() == 0 ==> m.summary() == seq![
            PieceView::Text(m.symbol() + " "@),
        ],
        m.channel == Some("trade"@) && m.data.len() > 0 && trade_of(m.data[0]) is Some
            && m.data[0].at("price"@) is Some && m.data[0].at("qty"@) is Some && m.data[0] is Obj
            ==> m.summary() == seq![
            PieceView::Text(m.symbol()),
            PieceView::Text(" @ "@),
            PieceView::Fixed {
                num: m.data[0].at("price"@)->0->Number_0.reading().num,
                decimals: 4,
            },
            PieceView::Text(" sz="@),
            PieceView::Fixed {
                num: m.data[0].at("qty"@)->0->Number_0.reading().num,
                decimals: 4,
            },
            PieceView::Text(" side="@ + trade_of(m.data[0])->0.side),
        ],
        m.channel == Some("trade"@) && (m.data.len() == 0 || trade_of(m.data[0]) is None)
            ==> m.summary() == seq![PieceView::Text(m.symbol()), PieceView::Text(" (raw)"@)],
        m.channel == Some("heartbeat"@) ==> m.summary() == seq![PieceView::Text("heartbeat"@)],
        m.channel == Some("status"@) ==> m.summary() == seq![PieceView::Text("status"@)],
        m.channel == Some("instrument"@) ==> m.summary() == seq![PieceView::Text(m.symbol())],
{
    kind_of_message(m);
    if m.channel == Some("trade"@) {
        assert(m.message_type() == MessageType::Trade);
        if m.data.len() == 0 || trade_of(m.data[0]) is None {
            assert(m.summary() =~= seq![PieceView::Text(m.symbol()), PieceView::Text(" (raw)"@)]);
        }
        if m.data.len() > 0 && trade_of(m.data[0]) is Some && m.data[0].at("price"@) is Some
            && m.data[0].at("qty"@) is Some && m.data[0] is Obj {
            trade_is_what_its_record_says(m.data[0]);
            assert(m.summary() =~= seq![
                PieceView::Text(m.symbol()),
                PieceView::Text(" @ "@),
                PieceView::Fixed {
                    num: m.data[0].at("price"@)->0->Number_0.reading().num,
                    decimals: 4,
                },
                PieceView::Text(" sz="@),
                PieceView::Fixed {
                    num: m.data[0].at("qty"@)->0->Number_0.reading().num,
                    decimals: 4,
                },
                PieceView::Text(" side="@ + trade_of(m.data[0])->0.side),
            ]);
        }
    }
}

/// A message is shown by the time of day of its moment, its kind and its
/// summary.
pub proof fn line_shows_time_kind_and_summary(m: KrakenView, now: u64, ts: u64)
    requires
        is_moment_of(ts, m, now),
    ensures
        crate::kraken::ws::message_line(m, now) == seq![
            PieceView::Text(
                "["@ + time_of_day(ts as int) + " "@ + m.message_type().tag() + "] "@,
            ),
        ] + m.summary(),
{
}

/// A message refuses the subscription to instruments where it says that it did
/// not succeed, and what it says of the error, if anything, is reported.
pub proof fn refusal_tells_the_error(v: Json, error: Option<Seq<char>>)
    ensures
        crate::kraken::validation::refuses(v) <==> {
            &&& message_of(v) is Some
            &&& field(v, "success"@, 5) == Some(Json::Bool(false))
        },
        error is Some ==> crate::kraken::validation::refusal(error)
            == "Kraken instrument subscription failed: "@ + error->0,
        error is None ==> crate::kraken::validation::refusal(error)
            == "Kraken instrument subscription failed: "@ + "unknown error"@,
{
    message_is_what_its_record_says(v);
}

/// A snapshot of one side replaces that side and leaves the other. A book that
/// is crossed after that is cleared, and a snapshot is awaited; otherwise none is
/// awaited any more.
pub proof fn one_side_is_replaced(b: BookView, levels: Seq<LobLevel>, side: Side) -> (full: DepthView)
    ensures
        holds_snapshot(levels, crate::effect::levels_of(full, side)),
        crate::effect::levels_of(full, facing(side)) == crate::effect::levels_of(b.depth, facing(side)),
        !overlaps(full) ==> b.snapshot(levels, side).depth == full && !b.snapshot(
            levels,
            side,
        ).awaiting_snapshot,
        side == Side::Ask ==> !b.snapshot(levels, side).needs_resync && b.snapshot(
            levels,
            side,
        ).last_sequence is None && !b.snapshot(levels, side).checksum_failed,
        side == Side::Bid ==> b.snapshot(levels, side).needs_resync == b.needs_resync
            && b.snapshot(levels, side).last_sequence == b.last_sequence && b.snapshot(
            levels,
            side,
        ).checksum_failed == b.checksum_failed,
        overlaps(full) ==> {
            &&& b.snapshot(levels, side).depth.bids.len() == 0
            &&& b.snapshot(levels, side).depth.asks.len() == 0
            &&& b.snapshot(levels, side).awaiting_snapshot
        },
{
    snapshot_takes_effect(b.depth, side, levels);
    b.depth.replaced(side, levels)
}

/// An update of one side of a book that is not crossed makes the changes that
/// count, leaves the other side, and gives cause to note those that are refused.
pub proof fn one_side_is_changed(b: BookView, levels: Seq<LobLevel>, side: Side)
    requires
        b.depth.wf(),
        !b.depth.is_crossed(),
        prices_are_numbers(levels),
    ensures
        holds_guarded_changes(
            b.depth,
            side,
            levels,
            crate::effect::levels_of(b.update(levels, side).depth, side),
        ),
        crate::effect::levels_of(b.update(levels, side).depth, facing(side)) == crate::effect::levels_of(b.depth, facing(side)),
        b.update(levels, side).needs_resync == b.needs_resync,
        b.update(levels, side).awaiting_snapshot == b.awaiting_snapshot,
        b.update(levels, side).checksum_failed == b.checksum_failed,
        b.update_notes(levels, side) == b.depth.refusals(side, levels),
{
    update_clears_nothing(b, levels, side);
    guarded_changes_take_effect(b.depth, side, levels);
}

/// A checksum that is held against a book by itself passes where it is not above
/// zero or is that of the ten best levels of each side, and changes nothing but
/// the outcome.
pub proof fn checksum_by_itself(b: BookView, checksum: i64)
    ensures
        b.verified(checksum).checksum_failed <==> checksum > 0 && book_checksum(b.depth, 10)
            != checksum,
        b.verified(checksum) == (BookView {
            checksum_failed: b.verified(checksum).checksum_failed,
            ..b
        }),
{
}

/// A message with entries is a snapshot where its type says so or is missing,
/// and an update where it says that. Its checksum is the integer of its first
/// entry, but for zero, and its moment is that of the first entry.
pub proof fn message_tells_what_it_brings(m: KrakenView, ts: u64)
    ensures
        m.is_snapshot() <==> m.data.len() > 0 && (m.msg_type is None || m.msg_type == Some("snapshot"@)),
        m.is_update() <==> m.data.len() > 0 && m.msg_type == Some("update"@),
        m.data.len() == 0 ==> m.checksum() is None && m.timestamp_ms() is None,
        m.data.len() > 0 ==> {
            let said = integer_said(m.data[0].at("checksum"@));
            &&& m.checksum() is Some <==> said is Some && said->0 != 0 && said->0 <= i64::MAX
            &&& m.checksum() is Some ==> m.checksum()->0 == said->0
        },
        m.timestamp_ms() matches Some(ms) ==> is_moment_of(ms, m, ts),
        m.timestamp_ms() is None ==> is_moment_of(ts, m, ts),
{
}

/// Where there is no limit on levels and no percentage, the item that a
/// snapshot of both sides gives holds just what the snapshot gives.
pub proof fn snapshot_is_shown_in_full<A: Fn(FloatOp, Num, Num) -> Num>(
    a: AdapterView,
    unit: A,
    msg: KrakenView,
    now: u64,
    lob: crate::items::LobView,
)
    requires
        msg.channel == Some("book"@),
        msg.data.len() > 0,
        msg.msg_type is None || msg.msg_type == Some("snapshot"@),
        given(msg, "bids"@).len() > 0,
        given(msg, "asks"@).len() > 0,
        a.max_level is None,
        crate::laws::unbounded(a.max_level_pct),
        a.item(unit, msg, now) == Some(ItemView::Lob(lob)),
    ensures
        holds_snapshot(given(msg, "bids"@), lob.bids),
        holds_snapshot(given(msg, "asks"@), lob.asks),
{
    kind_of_message(msg);
    let bids = given(msg, "bids"@);
    let asks = given(msg, "asks"@);
    snapshot_takes_effect(a.book.depth, Side::Bid, given(msg, "bids"@));
    snapshot_takes_effect(a.book.depth, Side::Ask, given(msg, "asks"@));
    crate::book::filled_is_ordered(given(msg, "bids"@));
    crate::book::filled_is_ordered(given(msg, "asks"@));
    let d = a.book.processed(msg).depth;
    assert(a.book.levelled(msg) == a.book.unrepaired(bids, asks).repaired());
    assert(d.bids == crate::book::filled(given(msg, "bids"@)));
    assert(d.asks == crate::book::filled(given(msg, "asks"@)));
    crate::laws::no_filter_means_full(unit, d, lob.ts, "kraken"@, a.max_level_pct);
    assert(crate::book::full_item(d, lob.ts, "kraken"@) == Some(lob));
    item_holds_what_is_in_reach(unit, d, lob.ts, "kraken"@, None, a.max_level_pct);
    crate::laws::full_item_holds_every_level(d, lob.ts, "kraken"@);
}

} // verus!

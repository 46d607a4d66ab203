//! What the messages of OKX lead to.

use crate::book::noted;
use crate::book::DepthView;
use crate::book::Note;
use crate::book::Side;
use crate::checksum::book_checksum;
use crate::config::DataKind;
use crate::effect::guarded_changes_take_effect;
use crate::effect::holds_guarded_changes;
use crate::effect::holds_snapshot;
use crate::effect::overlaps;
use crate::effect::snapshot_takes_effect;
use crate::items::ItemView;
use crate::items::LobLevel;
use crate::json::field;
use crate::json::is_record;
use crate::json::Json;
use crate::json::JsonText;
use crate::ladder::prices_are_numbers;
use crate::laws::ask_in_reach;
use crate::laws::bid_in_reach;
use crate::laws::emits_asks;
use crate::laws::emits_bids;
use crate::laws::item_holds_what_is_in_reach;
use crate::member::integer_said;
use crate::member::is_absent;
use crate::member::is_named_at_most_once;
use crate::member::is_number_of;
use crate::member::is_unsigned;
use crate::member::last_of_a_name_is_the_member;
use crate::member::may_be_null_or_text;
use crate::member::may_be_text;
use crate::member::says_elements;
use crate::member::says_plain_text;
use crate::member::says_text;
use crate::member::says_text_or_empty;
use crate::member::says_unsigned;
use crate::num::FloatOp;
use crate::num::Num;
use crate::okx::lob::message_never_crosses;
use crate::okx::lob::parsed;
use crate::okx::lob::update_clears_nothing;
use crate::okx::lob::BookView;
use crate::okx::types::arg_field;
use crate::okx::types::level_numbers;
use crate::okx::types::levels_at;
use crate::okx::types::levels_text;
use crate::okx::types::message_of;
use crate::okx::types::rows_among;
use crate::okx::types::texts_among;
use crate::okx::types::trade_of;
use crate::okx::types::ArgView;
use crate::okx::types::MessageType;
use crate::okx::types::OkxView;
use crate::okx::ws::AdapterView;
use crate::text::time_of_day;
use crate::text::unsigned_value;
use crate::effect::facing;
use crate::effect::levels_of;
use vstd::prelude::*;

verus! {

/// A trade is read from a record whose fields are texts, but for the sequence
/// number, which is an integer, missing or null. Each field is what the record
/// says under its name, or at its place.
pub proof fn trade_is_what_its_record_says(v: Json)
    ensures
        trade_of(v) is Some <==> {
            &&& is_record(v, 6)
            &&& may_be_text(field(v, "px"@, 0))
            &&& may_be_text(field(v, "sz"@, 1))
            &&& may_be_text(field(v, "side"@, 2))
            &&& may_be_text(field(v, "tradeId"@, 3))
            &&& may_be_text(field(v, "ts"@, 4))
            &&& is_absent(field(v, "seqId"@, 5)) || is_unsigned(field(v, "seqId"@, 5))
        },
        trade_of(v) matches Some(t) ==> {
            &&& says_text_or_empty(field(v, "px"@, 0), t.px)
            &&& says_text_or_empty(field(v, "sz"@, 1), t.sz)
            &&& says_plain_text(field(v, "side"@, 2), t.side)
            &&& says_plain_text(field(v, "tradeId"@, 3), t.trade_id)
            &&& says_plain_text(field(v, "ts"@, 4), t.ts)
            &&& says_unsigned(field(v, "seqId"@, 5), t.seq_id)
        },
{
}

/// Whether an object names none of the members twice.
pub open spec fn names_members_once(v: Json) -> bool {
    v matches Json::Obj(o) ==> {
        &&& is_named_at_most_once(o@, "event"@)
        &&& is_named_at_most_once(o@, "arg"@)
        &&& is_named_at_most_once(o@, "action"@)
        &&& is_named_at_most_once(o@, "data"@)
        &&& is_named_at_most_once(o@, "ts"@)
    }
}

/// Whether a value says what a message is about: the channel and the
/// instrument.
pub open spec fn says_arg(v: Json, arg: ArgView) -> bool {
    &&& is_record(v, 2)
    &&& says_text(field(v, "channel"@, 0), arg.channel)
    &&& says_text(field(v, "instId"@, 1), arg.inst_id)
    &&& v matches Json::Obj(o) ==> is_named_at_most_once(o@, "channel"@) && is_named_at_most_once(
        o@,
        "instId"@,
    )
}

/// Whether a value can be read as what a message is about.
pub open spec fn may_be_arg(v: Json) -> bool {
    &&& is_record(v, 2)
    &&& may_be_null_or_text(field(v, "channel"@, 0))
    &&& may_be_null_or_text(field(v, "instId"@, 1))
    &&& v matches Json::Obj(o) ==> is_named_at_most_once(o@, "channel"@) && is_named_at_most_once(
        o@,
        "instId"@,
    )
}

proof fn lemma_arg(v: Json)
    ensures
        arg_field(Some(v)) is Some <==> v is Null || may_be_arg(v),
        !(v is Null) ==> (arg_field(Some(v)) matches Some(arg) ==> arg is Some && says_arg(v, arg->0)),
        v is Null ==> arg_field(Some(v)) == Some(None::<ArgView>),
{
    last_of_a_name_is_the_member(v, "channel"@);
    last_of_a_name_is_the_member(v, "instId"@);
}

/// A message is read from a record that names no member twice. Each field is
/// what the record says under its name, or at its place.
pub proof fn message_is_what_its_record_says(v: Json)
    ensures
        message_of(v) is Some <==> {
            &&& is_record(v, 5)
            &&& names_members_once(v)
            &&& may_be_null_or_text(field(v, "event"@, 0))
            &&& is_absent(field(v, "arg"@, 1)) || may_be_arg(field(v, "arg"@, 1)->0)
            &&& may_be_null_or_text(field(v, "action"@, 2))
            &&& field(v, "data"@, 3) is None || field(v, "data"@, 3)->0 is Arr
            &&& may_be_null_or_text(field(v, "ts"@, 4))
        },
        message_of(v) matches Some(m) ==> {
            &&& says_text(field(v, "event"@, 0), m.event)
            &&& is_absent(field(v, "arg"@, 1)) ==> m.arg is None
            &&& !is_absent(field(v, "arg"@, 1)) ==> m.arg is Some && says_arg(
                field(v, "arg"@, 1)->0,
                m.arg->0,
            )
            &&& says_text(field(v, "action"@, 2), m.action)
            &&& says_elements(field(v, "data"@, 3), m.data)
            &&& says_text(field(v, "ts"@, 4), m.ts)
        },
{
    last_of_a_name_is_the_member(v, "event"@);
    last_of_a_name_is_the_member(v, "arg"@);
    last_of_a_name_is_the_member(v, "action"@);
    last_of_a_name_is_the_member(v, "data"@);
    last_of_a_name_is_the_member(v, "ts"@);
    if field(v, "arg"@, 1) is Some {
        lemma_arg(field(v, "arg"@, 1)->0);
    }
}

/// Whether a message is about the channel, and no event.
pub open spec fn is_about(m: OkxView, channel: Seq<char>) -> bool {
    m.event is None && m.arg is Some && m.arg->0.channel == Some(channel)
}

/// A message that names an event is an event. Of the others, one about the
/// channel of books is a snapshot or an update where it says so, and one about
/// the channel of trades is a trade.
pub proof fn kind_of_message(m: OkxView)
    ensures
        m.message_type() == MessageType::Event <==> m.event is Some,
        m.message_type() == MessageType::L2Snapshot <==> is_about(m, "books"@) && m.action == Some(
            "snapshot"@,
        ),
        m.message_type() == MessageType::L2Update <==> is_about(m, "books"@) && m.action == Some(
            "update"@,
        ),
        m.message_type() == MessageType::L2 <==> is_about(m, "books"@) && m.action != Some(
            "snapshot"@,
        ) && m.action != Some("update"@),
        m.message_type() == MessageType::Trade <==> is_about(m, "trades"@),
        m.message_type() == MessageType::Unknown <==> m.event is None && !is_about(m, "books"@)
            && !is_about(m, "trades"@),
{
    reveal_strlit("books");
    reveal_strlit("trades");
    reveal_strlit("snapshot");
    reveal_strlit("update");
    assert("books"@.len() != "trades"@.len());
    assert("snapshot"@.len() != "update"@.len());
}

/// Whether a moment is the one that the first entry of a message gives under
/// `ts`, in milliseconds, and the given one where it gives none.
pub open spec fn is_moment_of(ts: u64, m: OkxView, otherwise: u64) -> bool {
    let given = if m.data.len() > 0 && m.data[0].at("ts"@) is Some && m.data[0].at("ts"@)->0 is Str {
        unsigned_value(m.data[0].at("ts"@)->0->Str_0.text@)
    } else {
        None
    };
    match given {
        Some(ms) => ts == ms,
        None => ts == otherwise,
    }
}

/// Where trades are subscribed to, a message about trades whose first entry is
/// an object with the price, the size, the side and the identifier as texts
/// gives a trade: its side is that text, its price and its size are the numbers
/// that those texts are read as, and its moment is the one under `ts`. An empty
/// identifier is left out.
pub proof fn trade_is_reported<A: Fn(FloatOp, Num, Num) -> Num>(
    a: AdapterView,
    unit: A,
    msg: OkxView,
    now: u64,
    px: JsonText,
    sz: JsonText,
    side: JsonText,
    id: JsonText,
)
    requires
        a.data_kind == DataKind::TRADE || a.data_kind == DataKind::BOTH,
        is_about(msg, "trades"@),
        msg.data.len() > 0,
        msg.data[0].at("px"@) == Some(Json::Str(px)),
        msg.data[0].at("sz"@) == Some(Json::Str(sz)),
        msg.data[0].at("side"@) == Some(Json::Str(side)),
        msg.data[0].at("tradeId"@) == Some(Json::Str(id)),
        may_be_text(msg.data[0].at("ts"@)),
        is_absent(msg.data[0].at("seqId"@)) || is_unsigned(msg.data[0].at("seqId"@)),
    ensures
        a.item(unit, msg, now) matches Some(ItemView::Trade(t)) && {
            &&& is_moment_of(t.ts, msg, 0)
            &&& t.exchange == "okx"@
            &&& is_number_of(t.price, px@)
            &&& is_number_of(t.size, sz@)
            &&& t.side == side.text@
            &&& id.text@.len() > 0 ==> t.trade_id == Some(id.text@)
            &&& id.text@.len() == 0 ==> t.trade_id is None
            &&& says_unsigned(msg.data[0].at("seqId"@), t.seq_id)
        },
        a.handled(unit, msg, now) == a,
{
    kind_of_message(msg);
}

/// A message about trades gives an item only where trades are subscribed to
/// and its first entry is the record of a trade, and it never touches the
/// book.
pub proof fn only_trades_are_reported<A: Fn(FloatOp, Num, Num) -> Num>(
    a: AdapterView,
    unit: A,
    msg: OkxView,
    now: u64,
)
    requires
        is_about(msg, "trades"@),
    ensures
        a.item(unit, msg, now) is Some <==> {
            &&& a.data_kind == DataKind::TRADE || a.data_kind == DataKind::BOTH
            &&& msg.data.len() > 0
            &&& trade_of(msg.data[0]) is Some
        },
        a.handled(unit, msg, now) == a,
{
    kind_of_message(msg);
}

/// The texts among elements, and the rows among them, are those of the first
/// part and then those of the second; what is no text, or no array, is passed
/// over.
pub proof fn rows_follow_each_other(a: Seq<Json>, b: Seq<Json>, v: Json)
    ensures
        texts_among(a + b) == texts_among(a) + texts_among(b),
        rows_among(a + b) == rows_among(a) + rows_among(b),
        texts_among(seq![v]) == (if v is Str {
            seq![v->Str_0]
        } else {
            Seq::empty()
        }),
        rows_among(seq![v]) == (if v is Arr {
            seq![texts_among(v->Arr_0@)]
        } else {
            Seq::empty()
        }),
    decreases b.len(),
{
    assert(seq![v].drop_last() =~= Seq::<Json>::empty());
    assert(seq![v].last() == v);
    assert(texts_among(seq![v].drop_last()) =~= Seq::<JsonText>::empty());
    assert(rows_among(seq![v].drop_last()) =~= Seq::<Seq<JsonText>>::empty());
    assert(texts_among(seq![v]) =~= (if v is Str {
        seq![v->Str_0]
    } else {
        Seq::empty()
    }));
    assert(rows_among(seq![v]) =~= (if v is Arr {
        seq![texts_among(v->Arr_0@)]
    } else {
        Seq::empty()
    }));
    if b.len() == 0 {
        assert(a + b =~= a);
        assert(texts_among(a) + texts_among(b) =~= texts_among(a));
        assert(rows_among(a) + rows_among(b) =~= rows_among(a));
    } else {
        rows_follow_each_other(a, b.drop_last(), v);
        assert((a + b).drop_last() =~= a + b.drop_last());
        assert((a + b).last() == b.last());
        assert(texts_among(a + b) =~= texts_among(a) + texts_among(b));
        assert(rows_among(a + b) =~= rows_among(a) + rows_among(b));
    }
}

/// The levels of rows are those of the first part and then those of the
/// second. A row gives the level of its first two texts where both are read as
/// numbers, and none otherwise.
pub proof fn levels_follow_each_other(
    a: Seq<Seq<JsonText>>,
    b: Seq<Seq<JsonText>>,
    row: Seq<JsonText>,
)
    ensures
        parsed(a + b) == parsed(a) + parsed(b),
        row.len() >= 2 && row[0].reading is Some && row[1].reading is Some ==> parsed(seq![row])
            == seq![LobLevel { price: row[0].reading->0.num, size: row[1].reading->0.num }],
        row.len() < 2 || row[0].reading is None || row[1].reading is None ==> parsed(
            seq![row],
        ).len() == 0,
    decreases b.len(),
{
    assert(seq![row].drop_last() =~= Seq::<Seq<JsonText>>::empty());
    assert(seq![row].last() == row);
    assert(parsed(seq![row].drop_last()) =~= Seq::<LobLevel>::empty());
    if row.len() >= 2 && row[0].reading is Some && row[1].reading is Some {
        assert(level_numbers(row) == Some((row[0].reading->0.num, row[1].reading->0.num)));
        assert(parsed(seq![row]) =~= seq![
            LobLevel { price: row[0].reading->0.num, size: row[1].reading->0.num },
        ]);
    }
    if b.len() == 0 {
        assert(a + b =~= a);
        assert(parsed(a) + parsed(b) =~= parsed(a));
    } else {
        levels_follow_each_other(a, b.drop_last(), row);
        assert((a + b).drop_last() =~= a + b.drop_last());
        assert((a + b).last() == b.last());
        assert(parsed(a + b) =~= parsed(a) + parsed(b));
    }
}

/// Whether a value is an array whose first two elements are texts that are
/// read as the price and the size of the level.
pub open spec fn says_level(v: Json, level: LobLevel) -> bool {
    &&& v is Arr
    &&& v->Arr_0@.len() >= 2
    &&& v->Arr_0@[0] is Str && v->Arr_0@[0]->Str_0.reading is Some
    &&& v->Arr_0@[1] is Str && v->Arr_0@[1]->Str_0.reading is Some
    &&& level.price == v->Arr_0@[0]->Str_0.reading->0.num
    &&& level.size == v->Arr_0@[1]->Str_0.reading->0.num
}

proof fn lemma_texts_start(a: Seq<Json>)
    requires
        a.len() >= 2,
        a[0] is Str,
        a[1] is Str,
    ensures
        texts_among(a).len() >= 2,
        texts_among(a)[0] == a[0]->Str_0,
        texts_among(a)[1] == a[1]->Str_0,
{
    let first = seq![a[0]];
    let second = seq![a[1]];
    let rest = a.skip(2);
    rows_follow_each_other(first, second, a[0]);
    rows_follow_each_other(first, second, a[1]);
    rows_follow_each_other(first + second, rest, a[0]);
    assert(a =~= first + second + rest);
}

proof fn lemma_said_levels(a: Seq<Json>, levels: Seq<LobLevel>)
    requires
        a.len() == levels.len(),
        forall|i: int| 0 <= i < a.len() ==> says_level(#[trigger] a[i], levels[i]),
    ensures
        parsed(rows_among(a)) == levels,
    decreases a.len(),
{
    if a.len() == 0 {
        assert(levels =~= Seq::<LobLevel>::empty());
    } else {
        let t = a.drop_last();
        let l = levels.drop_last();
        assert forall|i: int| 0 <= i < t.len() implies says_level(#[trigger] t[i], l[i]) by {
            assert(t[i] == a[i]);
        }
        lemma_said_levels(t, l);
        let v = a[a.len() - 1];
        assert(says_level(v, levels[a.len() - 1]));
        lemma_texts_start(v->Arr_0@);
        rows_follow_each_other(t, seq![v], v);
        assert(a =~= t + seq![v]);
        levels_follow_each_other(rows_among(t), seq![texts_among(v->Arr_0@)], texts_among(v->Arr_0@));
        assert(levels =~= l + seq![levels[a.len() - 1]]);
    }
}

/// A side of an entry that is an array of rows, each with a price and a size
/// that are texts read as numbers, gives these levels in this order. A side
/// that is missing or no array gives none.
pub proof fn levels_are_what_the_entry_says(d: Json, key: Seq<char>, levels: Seq<LobLevel>)
    ensures
        d.at(key) matches Some(Json::Arr(a)) ==> (a@.len() == levels.len() && (forall|i: int|
            0 <= i < a@.len() ==> says_level(#[trigger] a@[i], levels[i])) ==> parsed(
            levels_at(d, key),
        ) == levels),
        d.at(key) is None || !(d.at(key)->0 is Arr) ==> levels_at(d, key).len() == 0,
{
    if d.at(key) is Some && d.at(key)->0 is Arr {
        let a = d.at(key)->0->Arr_0@;
        if a.len() == levels.len() && (forall|i: int|
            0 <= i < a.len() ==> says_level(#[trigger] a[i], levels[i])) {
            lemma_said_levels(a, levels);
        }
    }
}

/// The levels that the first entry of a message gives for a side.
pub open spec fn given(msg: OkxView, key: Seq<char>) -> Seq<LobLevel> {
    parsed(levels_at(msg.data[0], key))
}

/// An update changes both sides of a book that is not crossed: first the bids,
/// against the asks as they were, and after that the asks, against the bids as
/// they are now. It calls for no snapshot.
pub proof fn update_changes_both_sides(b: BookView, msg: OkxView)
    requires
        b.depth.wf(),
        !b.depth.is_crossed(),
        msg.data.len() > 0,
        msg.action == Some("update"@),
        prices_are_numbers(given(msg, "bids"@)),
        prices_are_numbers(given(msg, "asks"@)),
    ensures
        holds_guarded_changes(
            b.depth,
            Side::Bid,
            given(msg, "bids"@),
            b.processed(msg).depth.bids,
        ),
        holds_guarded_changes(
            DepthView { bids: b.processed(msg).depth.bids, asks: b.depth.asks },
            Side::Ask,
            given(msg, "asks"@),
            b.processed(msg).depth.asks,
        ),
        b.processed(msg).needs_resync == b.needs_resync,
        b.processed(msg).awaiting_snapshot == b.awaiting_snapshot,
{
    reveal_strlit("snapshot");
    reveal_strlit("update");
    assert("snapshot"@.len() != "update"@.len());
    let bids = levels_at(msg.data[0], "bids"@);
    let asks = levels_at(msg.data[0], "asks"@);
    let m = b.changed(bids, Side::Bid);
    update_clears_nothing(b, bids, Side::Bid);
    guarded_changes_take_effect(b.depth, Side::Bid, parsed(bids));
    update_clears_nothing(m, asks, Side::Ask);
    guarded_changes_take_effect(m.depth, Side::Ask, parsed(asks));
    assert(m.depth == b.depth.guarded(Side::Bid, parsed(bids)));
    assert(m.changed(asks, Side::Ask).depth == m.depth.guarded(Side::Ask, parsed(asks)));
    assert(b.processed(msg).depth == m.depth.guarded(Side::Ask, parsed(asks)));
    assert((DepthView { bids: m.depth.bids, asks: b.depth.asks }) == m.depth);
}

/// Whether the sides are those of a book after a snapshot that gives rows of
/// levels: the sides for which it gives some hold these, the others are as
/// they were.
pub open spec fn loads(b: BookView, msg: OkxView, full: DepthView) -> bool {
    &&& if levels_at(msg.data[0], "bids"@).len() > 0 {
        holds_snapshot(given(msg, "bids"@), full.bids)
    } else {
        full.bids == b.depth.bids
    }
    &&& if levels_at(msg.data[0], "asks"@).len() > 0 {
        holds_snapshot(given(msg, "asks"@), full.asks)
    } else {
        full.asks == b.depth.asks
    }
}

/// A snapshot that gives rows of levels for a side or for both replaces these
/// sides, and leaves a side for which it gives none. A book that is crossed
/// after that is cleared, and a snapshot is called for and awaited; otherwise
/// none is awaited any more.
pub proof fn snapshot_replaces_what_it_gives(b: BookView, msg: OkxView) -> (full: DepthView)
    requires
        msg.data.len() > 0,
        msg.action is None || msg.action == Some("snapshot"@),
        levels_at(msg.data[0], "bids"@).len() > 0 || levels_at(msg.data[0], "asks"@).len() > 0,
    ensures
        loads(b, msg, full),
        !overlaps(full) ==> {
            &&& b.processed(msg).depth == full
            &&& !b.processed(msg).awaiting_snapshot
            &&& b.processed(msg).needs_resync == (levels_at(msg.data[0], "asks"@).len() == 0
                && b.needs_resync)
        },
        overlaps(full) ==> {
            &&& b.processed(msg).depth.bids.len() == 0
            &&& b.processed(msg).depth.asks.len() == 0
            &&& b.processed(msg).awaiting_snapshot
            &&& b.processed(msg).needs_resync
        },
{
    let bids = levels_at(msg.data[0], "bids"@);
    let asks = levels_at(msg.data[0], "asks"@);
    snapshot_takes_effect(b.depth, Side::Bid, parsed(bids));
    snapshot_takes_effect(b.depth, Side::Ask, parsed(asks));
    assert(b.levelled(msg) == b.unrepaired(bids, asks).repaired());
    b.unrepaired(bids, asks).depth
}

/// A snapshot without any row of levels leaves the book as it is and is a
/// snapshot nevertheless: none is awaited any more.
pub proof fn bare_snapshot_changes_no_level(b: BookView, msg: OkxView)
    requires
        msg.data.len() > 0,
        msg.action is None || msg.action == Some("snapshot"@),
        levels_at(msg.data[0], "bids"@).len() == 0,
        levels_at(msg.data[0], "asks"@).len() == 0,
    ensures
        b.processed(msg).depth == b.depth,
        !b.processed(msg).awaiting_snapshot,
        b.processed(msg).needs_resync == b.needs_resync,
{
}

/// A message without entries, or with another action, changes no level.
pub proof fn other_messages_change_no_level(b: BookView, msg: OkxView)
    requires
        msg.data.len() == 0 || (msg.action is Some && msg.action != Some("snapshot"@) && msg.action
            != Some("update"@)),
    ensures
        b.processed(msg).depth == b.depth,
        b.processed(msg).needs_resync == b.needs_resync,
        b.processed(msg).awaiting_snapshot == b.awaiting_snapshot,
        msg.data.len() == 0 ==> b.processed(msg) == b && b.notes(msg).len() == 0,
{
}

/// A checksum above zero in the first entry is held against that of the ten
/// best levels of each side of the book as the message leaves it, and one
/// below zero always passes. Where the entry has none, or zero, the outcome of
/// the last one stays, but for a snapshot that gives asks, which calls it off.
pub proof fn checksum_is_held_against_the_book(b: BookView, msg: OkxView)
    requires
        msg.data.len() > 0,
    ensures
        integer_said(msg.data[0].at("checksum"@)) matches Some(n) ==> {
            &&& 0 < n <= i64::MAX ==> (b.processed(msg).checksum_failed <==> book_checksum(
                b.processed(msg).depth,
                10,
            ) != n)
            &&& n < 0 ==> !b.processed(msg).checksum_failed
        },
        (is_absent(msg.data[0].at("checksum"@)) || integer_said(msg.data[0].at("checksum"@)) == Some(
            0int,
        )) ==> b.processed(msg).checksum_failed == (b.checksum_failed && !((msg.action is None
            || msg.action == Some("snapshot"@)) && levels_at(msg.data[0], "asks"@).len() > 0)),
{
    reveal_strlit("snapshot");
    reveal_strlit("update");
    assert("snapshot"@.len() != "update"@.len());
}

/// The note of a checksum that the message gives and that is not that of the
/// book as the message leaves it.
pub open spec fn mismatch_notes(b: BookView, msg: OkxView) -> Seq<Note> {
    let computed = book_checksum(b.processed(msg).depth, 10);
    match integer_said(msg.data[0].at("checksum"@)) {
        Some(n) => if 0 < n <= i64::MAX && computed != n {
            seq![Note::Mismatch { computed, checksum: n as i64 }]
        } else {
            Seq::empty()
        },
        None => Seq::empty(),
    }
}

/// An update to a book that is not crossed gives cause to note the bids that
/// are refused, the asks that are refused after that, and a checksum that does
/// not match, in this order.
pub proof fn update_notes_refusals_and_mismatch(b: BookView, msg: OkxView)
    requires
        b.depth.wf(),
        !b.depth.is_crossed(),
        msg.data.len() > 0,
        msg.action == Some("update"@),
        prices_are_numbers(given(msg, "bids"@)),
        prices_are_numbers(given(msg, "asks"@)),
    ensures
        b.notes(msg) == b.depth.refusals(Side::Bid, given(msg, "bids"@)) + (DepthView {
            bids: b.processed(msg).depth.bids,
            asks: b.depth.asks,
        }).refusals(Side::Ask, given(msg, "asks"@)) + mismatch_notes(b, msg),
{
    reveal_strlit("snapshot");
    reveal_strlit("update");
    assert("snapshot"@.len() != "update"@.len());
    let bids = levels_at(msg.data[0], "bids"@);
    let asks = levels_at(msg.data[0], "asks"@);
    let m = b.changed(bids, Side::Bid);
    update_clears_nothing(b, bids, Side::Bid);
    guarded_changes_take_effect(b.depth, Side::Bid, parsed(bids));
    update_clears_nothing(m, asks, Side::Ask);
    guarded_changes_take_effect(m.depth, Side::Ask, parsed(asks));
    assert(m.depth == b.depth.guarded(Side::Bid, parsed(bids)));
    assert(b.processed(msg).depth == m.depth.guarded(Side::Ask, parsed(asks)));
    assert((DepthView { bids: b.processed(msg).depth.bids, asks: b.depth.asks }) == m.depth);
    assert(b.change_notes(bids, Side::Bid) =~= b.depth.refusals(Side::Bid, parsed(bids)));
    assert(m.change_notes(asks, Side::Ask) =~= m.depth.refusals(Side::Ask, parsed(asks)));
    assert(noted(b.unverified(msg).checksum_note(msg.checksum())) =~= mismatch_notes(b, msg));
    assert(b.notes(msg) =~= b.depth.refusals(Side::Bid, parsed(bids)) + m.depth.refusals(
        Side::Ask,
        parsed(asks),
    ) + mismatch_notes(b, msg));
}

/// A snapshot gives cause to note that the book was crossed, with its two best
/// prices, and after that a checksum that does not match.
pub proof fn snapshot_notes_clearing_and_mismatch(b: BookView, msg: OkxView) -> (full: DepthView)
    requires
        msg.data.len() > 0,
        msg.action is None || msg.action == Some("snapshot"@),
        levels_at(msg.data[0], "bids"@).len() > 0 || levels_at(msg.data[0], "asks"@).len() > 0,
    ensures
        loads(b, msg, full),
        overlaps(full) ==> b.notes(msg) == seq![
            Note::Cleared { bid: full.bids.last().price, ask: full.asks[0].price },
        ] + mismatch_notes(b, msg),
        !overlaps(full) ==> b.notes(msg) == mismatch_notes(b, msg),
{
    let bids = levels_at(msg.data[0], "bids"@);
    let asks = levels_at(msg.data[0], "asks"@);
    let full = b.unrepaired(bids, asks).depth;
    snapshot_takes_effect(b.depth, Side::Bid, parsed(bids));
    snapshot_takes_effect(b.depth, Side::Ask, parsed(asks));
    assert(noted(b.unverified(msg).checksum_note(msg.checksum())) =~= mismatch_notes(b, msg));
    let cleared = if overlaps(full) {
        seq![Note::Cleared { bid: full.bids.last().price, ask: full.asks[0].price }]
    } else {
        Seq::empty()
    };
    assert(b.notes(msg) =~= cleared + mismatch_notes(b, msg));
    assert(!overlaps(full) ==> b.notes(msg) =~= mismatch_notes(b, msg));
    full
}

/// Where the book is subscribed to, an item that a message about it gives
/// carries the name of the exchange and the moment of the message, and holds
/// what is in reach of the book as the message leaves it. The message changes
/// the book to just that.
pub proof fn book_item_shows_the_book<A: Fn(FloatOp, Num, Num) -> Num>(
    a: AdapterView,
    unit: A,
    msg: OkxView,
    now: u64,
)
    requires
        a.book.depth.wf(),
        is_about(msg, "books"@),
    ensures
        a.item(unit, msg, now) matches Some(item) ==> item is Lob && {
            let lob = item->Lob_0;
            let d = a.book.processed(msg).depth;
            &&& a.data_kind == DataKind::LOB || a.data_kind == DataKind::BOTH
            &&& lob.exchange == "okx"@
            &&& msg.action == Some("snapshot"@) || msg.action == Some("update"@) ==> is_moment_of(
                lob.ts,
                msg,
                now,
            )
            &&& msg.action != Some("snapshot"@) && msg.action != Some("update"@) ==> is_moment_of(
                lob.ts,
                msg,
                0,
            )
            &&& emits_bids(unit, d.bids, a.max_level, a.max_level_pct, lob.bids)
            &&& emits_asks(unit, d.asks, a.max_level, a.max_level_pct, lob.asks)
            &&& a.handled(unit, msg, now).book == a.book.processed(msg)
            &&& a.handled(unit, msg, now).notes == a.book.notes(msg)
            &&& a.handled(unit, msg, now).prev_lob == Some(lob)
        },
{
    reveal_strlit("snapshot");
    reveal_strlit("update");
    assert("snapshot"@.len() != "update"@.len());
    kind_of_message(msg);
    message_never_crosses(a.book, msg);
    let d = a.book.processed(msg).depth;
    item_holds_what_is_in_reach(
        unit,
        d,
        crate::okx::ws::book_moment(msg, now),
        "okx"@,
        a.max_level,
        a.max_level_pct,
    );
}

/// Where the book is subscribed to and no snapshot is missing, a message about
/// it that leaves levels in reach on both sides gives an item, unless the item
/// before holds the same levels.
pub proof fn book_is_shown_when_it_changes<A: Fn(FloatOp, Num, Num) -> Num>(
    a: AdapterView,
    unit: A,
    msg: OkxView,
    now: u64,
    bid: int,
    ask: int,
)
    requires
        a.book.depth.wf(),
        a.data_kind == DataKind::LOB || a.data_kind == DataKind::BOTH,
        is_about(msg, "books"@),
        a.book.awaiting_snapshot ==> msg.data.len() > 0 && (msg.action is None || msg.action
            == Some("snapshot"@)),
        !a.book.processed(msg).needs_resync,
        !a.book.processed(msg).awaiting_snapshot,
        a.max_level != Some(0usize),
        0 <= bid < a.book.processed(msg).depth.bids.len(),
        bid_in_reach(
            unit,
            a.book.processed(msg).depth.bids,
            a.max_level_pct,
            a.book.processed(msg).depth.bids[bid],
        ),
        0 <= ask < a.book.processed(msg).depth.asks.len(),
        ask_in_reach(
            unit,
            a.book.processed(msg).depth.asks,
            a.max_level_pct,
            a.book.processed(msg).depth.asks[ask],
        ),
    ensures
        a.handled(unit, msg, now).book == a.book.processed(msg),
        a.handled(unit, msg, now).notes == a.book.notes(msg),
        a.prev_lob is None ==> a.item(unit, msg, now) is Some,
        a.item(unit, msg, now) is None ==> a.handled(unit, msg, now).prev_lob == a.prev_lob && {
            let d = a.book.processed(msg).depth;
            exists|lob: crate::items::LobView|
                {
                    &&& #[trigger] crate::items::levels_equal(a.prev_lob->0.bids, lob.bids)
                    &&& crate::items::levels_equal(a.prev_lob->0.asks, lob.asks)
                    &&& emits_bids(unit, d.bids, a.max_level, a.max_level_pct, lob.bids)
                    &&& emits_asks(unit, d.asks, a.max_level, a.max_level_pct, lob.asks)
                }
        },
{
    kind_of_message(msg);
    message_never_crosses(a.book, msg);
    let d = a.book.processed(msg).depth;
    item_holds_what_is_in_reach(
        unit,
        d,
        crate::okx::ws::book_moment(msg, now),
        "okx"@,
        a.max_level,
        a.max_level_pct,
    );
    let lob = a.fed(msg).lob(unit, crate::okx::ws::book_moment(msg, now));
    assert(lob is Some);
}

/// Until a snapshot comes, a message about the book that is none changes
/// nothing and gives nothing; and a message that leaves the book in need of a
/// snapshot gives nothing, and leaves the adapter with no book and no item
/// before.
pub proof fn without_snapshot_nothing_is_shown<A: Fn(FloatOp, Num, Num) -> Num>(
    a: AdapterView,
    unit: A,
    msg: OkxView,
    now: u64,
)
    requires
        a.data_kind == DataKind::LOB || a.data_kind == DataKind::BOTH,
        is_about(msg, "books"@),
    ensures
        a.book.awaiting_snapshot && (msg.data.len() == 0 || (msg.action is Some && msg.action
            != Some("snapshot"@))) ==> a.item(unit, msg, now) is None && a.handled(unit, msg, now)
            == a,
        !a.book.awaiting_snapshot && (a.book.processed(msg).needs_resync || a.book.processed(
            msg,
        ).awaiting_snapshot) ==> {
            &&& a.item(unit, msg, now) is None
            &&& a.handled(unit, msg, now).book.depth.bids.len() == 0
            &&& a.handled(unit, msg, now).book.depth.asks.len() == 0
            &&& a.handled(unit, msg, now).book.awaiting_snapshot
            &&& !a.handled(unit, msg, now).book.needs_resync
            &&& !a.handled(unit, msg, now).book.checksum_failed
            &&& a.handled(unit, msg, now).notes == a.book.notes(msg)
            &&& a.handled(unit, msg, now).prev_lob is None
        },
{
    kind_of_message(msg);
}

/// No message changes what the adapter was set up with.
pub proof fn settings_stay<A: Fn(FloatOp, Num, Num) -> Num>(
    a: AdapterView,
    unit: A,
    msg: OkxView,
    now: u64,
)
    ensures
        ({
            let after = a.handled(unit, msg, now);
            &&& after.instrument == a.instrument
            &&& after.region == a.region
            &&& after.max_level_pct == a.max_level_pct
            &&& after.max_level == a.max_level
            &&& after.data_kind == a.data_kind
            &&& after.checksum_log == a.checksum_log
        }),
        ({
            let after = a.wiped();
            &&& after.instrument == a.instrument
            &&& after.region == a.region
            &&& after.max_level_pct == a.max_level_pct
            &&& after.max_level == a.max_level
            &&& after.data_kind == a.data_kind
            &&& after.checksum_log == a.checksum_log
        }),
{
}

/// The channel of books is subscribed to exactly where the book is asked for,
/// that of trades exactly where trades are, each once and the book first.
pub proof fn channels_are_those_asked_for(a: AdapterView)
    ensures
        ({
            let lob = a.data_kind == DataKind::LOB || a.data_kind == DataKind::BOTH;
            let trade = a.data_kind == DataKind::TRADE || a.data_kind == DataKind::BOTH;
            let s = a.subscriptions();
            &&& lob && trade ==> s.len() == 2 && s[0].0 == "books"@ && s[1].0 == "trades"@
            &&& lob && !trade ==> s.len() == 1 && s[0].0 == "books"@
            &&& !lob && trade ==> s.len() == 1 && s[0].0 == "trades"@
            &&& !lob && !trade ==> s.len() == 0
            &&& forall|i: int|
                0 <= i < s.len() ==> (#[trigger] s[i]).1 == crate::okx::ws::subscribe_request(
                    s[i].0,
                    a.instrument,
                )
        }),
{
}

/// A message is about the instrument that it names, and shown with a question
/// mark where it names none. Each kind of message has a tag of its own.
pub proof fn instrument_and_kind_are_shown(m: OkxView, a: MessageType, b: MessageType)
    ensures
        m.arg is Some && m.arg->0.inst_id is Some ==> m.instrument() == m.arg->0.inst_id->0,
        m.arg is None || m.arg->0.inst_id is None ==> m.instrument() == "?"@,
        a.tag() == b.tag() ==> a == b,
{
    reveal_strlit("LOB2 SNAPSHOT");
    reveal_strlit("LOB2 UPDATE");
    reveal_strlit("LOB2");
    reveal_strlit("TRADE");
    reveal_strlit("EVENT");
    reveal_strlit("UNKNOWN");
    assert("LOB2 SNAPSHOT"@.len() == 13 && "LOB2 UPDATE"@.len() == 11 && "LOB2"@.len() == 4
        && "TRADE"@.len() == 5 && "EVENT"@.len() == 5 && "UNKNOWN"@.len() == 7);
    assert("TRADE"@[0] == 'T' && "EVENT"@[0] == 'E');
}

/// How a row of a book is shown: its price and, in brackets, its size, both as
/// the exchange writes them.
pub open spec fn shows_row(shown: Seq<char>, row: Seq<JsonText>) -> bool {
    if row.len() >= 2 {
        shown == row[0].text@ + " ("@ + row[1].text@ + ")"@
    } else {
        shown == "?"@
    }
}

/// Of the rows of a side the first two are shown, with a comma between them.
pub proof fn two_rows_are_shown(rows: Seq<Seq<JsonText>>, first: Seq<char>, second: Seq<char>)
    ensures
        rows.len() == 0 ==> levels_text(rows).len() == 0,
        rows.len() == 1 && shows_row(first, rows[0]) ==> levels_text(rows) == first,
        rows.len() >= 2 && shows_row(first, rows[0]) && shows_row(second, rows[1]) ==> levels_text(
            rows,
        ) == first + ", "@ + second,
{
}

/// A message about the book is shown by the instrument and the rows of each
/// side.
pub proof fn summary_shows_the_book(m: OkxView)
    requires
        is_about(m, "books"@),
    ensures
        m.data.len() == 0 ==> m.summary() == m.instrument() + " "@,
        m.data.len() > 0 ==> m.summary() == m.instrument() + " bids: "@ + levels_text(
            levels_at(m.data[0], "bids"@),
        ) + " | asks: "@ + levels_text(levels_at(m.data[0], "asks"@)),
{
    kind_of_message(m);
    reveal_strlit(" ");
    reveal_strlit("bids: ");
    reveal_strlit(" bids: ");
    assert(" bids: "@ =~= " "@ + "bids: "@);
    if m.data.len() > 0 {
        assert(m.instrument() + " "@ + "bids: "@ =~= m.instrument() + " bids: "@);
    }
}

/// A message about a trade is shown by the instrument and the price, the size
/// and the side of the trade, an event by its name, and any other message by
/// the instrument alone.
pub proof fn summary_shows_trades_and_events(m: OkxView)
    ensures
        m.event is Some ==> m.summary() == m.event->0,
        is_about(m, "trades"@) && m.data.len() > 0 ==> (trade_of(m.data[0]) matches Some(t)
            ==> m.summary() == m.instrument() + (" @ "@ + t.px.text + " sz="@ + t.sz.text
            + " side="@ + t.side)),
        is_about(m, "trades"@) && (m.data.len() == 0 || trade_of(m.data[0]) is None) ==> m.summary()
            == m.instrument() + " (raw)"@,
        m.event is None && !is_about(m, "books"@) && !is_about(m, "trades"@) ==> m.summary()
            == m.instrument(),
{
    kind_of_message(m);
}

/// A message is shown by the time of day of its moment, its kind and its
/// summary.
pub proof fn line_shows_time_kind_and_summary(m: OkxView, now: u64, ts: u64)
    requires
        is_moment_of(ts, m, now),
    ensures
        crate::okx::ws::message_line(m, now) == "["@ + time_of_day(ts as int) + " "@
            + m.message_type().tag() + "] "@ + m.summary(),
{
}

/// An adapter starts with an empty book that awaits a snapshot, and with what
/// it is set up with.
pub proof fn adapter_awaits_a_snapshot(
    instrument: Seq<char>,
    region: Seq<char>,
    max_level_pct: Num,
    max_level: Option<usize>,
    data_kind: DataKind,
    checksum_log: bool,
)
    ensures
        ({
            let a = AdapterView::initial(
                instrument,
                region,
                max_level_pct,
                max_level,
                data_kind,
                checksum_log,
            );
            &&& a.instrument == instrument
            &&& a.region == region
            &&& a.max_level_pct == max_level_pct
            &&& a.max_level == max_level
            &&& a.data_kind == data_kind
            &&& a.checksum_log == checksum_log
            &&& a.book.checksum_log == checksum_log
            &&& a.book.depth.bids.len() == 0
            &&& a.book.depth.asks.len() == 0
            &&& a.book.awaiting_snapshot
            &&& !a.book.needs_resync
            &&& !a.book.checksum_failed
            &&& a.notes.len() == 0
            &&& a.prev_lob is None
        }),
{
}

/// A snapshot of one side replaces that side and leaves the other. A book that
/// is crossed after that is cleared, and a snapshot is awaited; otherwise none is
/// awaited any more.
pub proof fn one_side_is_replaced(b: BookView, rows: Seq<Seq<JsonText>>, side: Side) -> (full: DepthView)
    ensures
        holds_snapshot(parsed(rows), levels_of(full, side)),
        levels_of(full, facing(side)) == levels_of(b.depth, facing(side)),
        !overlaps(full) ==> b.snapshot(rows, side).depth == full && !b.snapshot(
            rows,
            side,
        ).awaiting_snapshot,
        !overlaps(full) && side == Side::Ask ==> !b.snapshot(rows, side).needs_resync
            && !b.snapshot(rows, side).checksum_failed,
        !overlaps(full) && side == Side::Bid ==> b.snapshot(rows, side).needs_resync
            == b.needs_resync && b.snapshot(rows, side).checksum_failed == b.checksum_failed,
        overlaps(full) ==> {
            &&& b.snapshot(rows, side).depth.bids.len() == 0
            &&& b.snapshot(rows, side).depth.asks.len() == 0
            &&& b.snapshot(rows, side).awaiting_snapshot
            &&& b.snapshot(rows, side).needs_resync
        },
{
    snapshot_takes_effect(b.depth, side, parsed(rows));
    b.depth.replaced(side, parsed(rows))
}

/// An update of one side of a book that is not crossed makes the changes that
/// count, leaves the other side, and gives cause to note those that are refused.
pub proof fn one_side_is_changed(b: BookView, rows: Seq<Seq<JsonText>>, side: Side)
    requires
        b.depth.wf(),
        !b.depth.is_crossed(),
        prices_are_numbers(parsed(rows)),
    ensures
        holds_guarded_changes(
            b.depth,
            side,
            parsed(rows),
            levels_of(b.update(rows, side).depth, side),
        ),
        levels_of(b.update(rows, side).depth, facing(side)) == levels_of(b.depth, facing(side)),
        b.update(rows, side).needs_resync == b.needs_resync,
        b.update(rows, side).awaiting_snapshot == b.awaiting_snapshot,
        b.update(rows, side).checksum_failed == b.checksum_failed,
        b.update_notes(rows, side) == b.depth.refusals(side, parsed(rows)),
{
    update_clears_nothing(b, rows, side);
    guarded_changes_take_effect(b.depth, side, parsed(rows));
}

/// A checksum that is held against a book by itself passes where it is not above
/// zero or is that of the ten best levels of each side, and changes nothing but
/// the outcome.
pub proof fn checksum_by_itself(b: BookView, checksum: i64)
    ensures
        b.verified(checksum).checksum_failed <==> checksum > 0 && book_checksum(b.depth, 10)
            != checksum,
        b.verified(checksum) == (BookView {
            checksum_failed: b.verified(checksum).checksum_failed,
            ..b
        }),
{
}

/// A message with entries is a snapshot where its action says so or is missing,
/// and an update where it says that. Its checksum is the integer of its first
/// entry, but for zero, and its moment is that of the first entry.
pub proof fn message_tells_what_it_brings(m: OkxView, ts: u64)
    ensures
        m.is_snapshot() <==> m.data.len() > 0 && (m.action is None || m.action == Some("snapshot"@)),
        m.is_update() <==> m.data.len() > 0 && m.action == Some("update"@),
        m.data.len() == 0 ==> m.checksum() is None && m.timestamp_ms() is None,
        m.data.len() > 0 ==> {
            let said = integer_said(m.data[0].at("checksum"@));
            &&& m.checksum() is Some <==> said is Some && said->0 != 0 && said->0 <= i64::MAX
            &&& m.checksum() is Some ==> m.checksum()->0 == said->0
        },
        m.timestamp_ms() matches Some(ms) ==> is_moment_of(ms, m, ts),
        m.timestamp_ms() is None ==> is_moment_of(ts, m, ts),
{
}

/// Where there is no limit on levels and no percentage, the item that a
/// snapshot of both sides gives holds just what the snapshot gives.
pub proof fn snapshot_is_shown_in_full<A: Fn(FloatOp, Num, Num) -> Num>(
    a: AdapterView,
    unit: A,
    msg: OkxView,
    now: u64,
    lob: crate::items::LobView,
)
    requires
        is_about(msg, "books"@),
        msg.data.len() > 0,
        msg.action is None || msg.action == Some("snapshot"@),
        levels_at(msg.data[0], "bids"@).len() > 0,
        levels_at(msg.data[0], "asks"@).len() > 0,
        a.max_level is None,
        crate::laws::unbounded(a.max_level_pct),
        a.item(unit, msg, now) == Some(ItemView::Lob(lob)),
    ensures
        holds_snapshot(given(msg, "bids"@), lob.bids),
        holds_snapshot(given(msg, "asks"@), lob.asks),
{
    kind_of_message(msg);
    let bids = levels_at(msg.data[0], "bids"@);
    let asks = levels_at(msg.data[0], "asks"@);
    snapshot_takes_effect(a.book.depth, Side::Bid, given(msg, "bids"@));
    snapshot_takes_effect(a.book.depth, Side::Ask, given(msg, "asks"@));
    crate::book::filled_is_ordered(given(msg, "bids"@));
    crate::book::filled_is_ordered(given(msg, "asks"@));
    let d = a.book.processed(msg).depth;
    assert(a.book.levelled(msg) == a.book.unrepaired(bids, asks).repaired());
    assert(d.bids == crate::book::filled(given(msg, "bids"@)));
    assert(d.asks == crate::book::filled(given(msg, "asks"@)));
    crate::laws::no_filter_means_full(unit, d, lob.ts, "okx"@, a.max_level_pct);
    assert(crate::book::full_item(d, lob.ts, "okx"@) == Some(lob));
    item_holds_what_is_in_reach(unit, d, lob.ts, "okx"@, None, a.max_level_pct);
    crate::laws::full_item_holds_every_level(d, lob.ts, "okx"@);
}

} // verus!

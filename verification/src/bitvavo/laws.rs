//! What the messages of Bitvavo lead to.

use crate::bitvavo::lob::parsed;
use crate::bitvavo::lob::readable;
use crate::bitvavo::lob::readable_row;
use crate::bitvavo::lob::updates_keep_order;
use crate::bitvavo::lob::BookView;
use crate::bitvavo::types::message_of;
use crate::bitvavo::types::snapshot_of;
use crate::bitvavo::types::BitvavoView;
use crate::bitvavo::types::MessageType;
use crate::bitvavo::types::SnapshotView;
use crate::bitvavo::types::UpdateView;
use crate::bitvavo::ws::subscribe_request;
use crate::bitvavo::ws::AdapterView;
use crate::config::DataKind;
use crate::effect::changes_take_effect;
use crate::effect::holds_changes;
use crate::effect::holds_snapshot;
use crate::effect::snapshot_takes_effect;
use crate::book::Side;
use crate::items::ItemView;
use crate::items::LobLevel;
use crate::json::field;
use crate::json::is_record;
use crate::json::Json;
use crate::json::JsonText;
use crate::laws::emits_asks;
use crate::laws::emits_bids;
use crate::laws::item_holds_what_is_in_reach;
use crate::member::is_absent;
use crate::member::is_named_at_most_once;
use crate::member::is_number_of;
use crate::member::is_row;
use crate::member::is_unsigned;
use crate::member::last_of_a_name_is_the_member;
use crate::member::may_be_null_or_text;
use crate::member::rows_are_read;
use crate::member::says_flag;
use crate::member::says_rows;
use crate::member::says_text;
use crate::member::says_unsigned;
use crate::num::FloatOp;
use crate::num::Num;
use vstd::prelude::*;

verus! {

/// Whether a field is missing or an array of arrays of texts.
pub open spec fn may_be_rows(f: Option<Json>) -> bool {
    f is None || (f->0 is Arr && forall|i: int|
        0 <= i < f->0->Arr_0@.len() ==> is_row(#[trigger] f->0->Arr_0@[i]))
}

/// Whether a field is missing, null or an integer that is not negative.
pub open spec fn may_be_null_or_unsigned(f: Option<Json>) -> bool {
    is_absent(f) || is_unsigned(f)
}

/// Whether a field is missing, null or a truth value.
pub open spec fn may_be_null_or_flag(f: Option<Json>) -> bool {
    is_absent(f) || f->0 is Bool
}

/// Whether a value is the record of a snapshot: all of its fields are there,
/// but for the moment, and no member is named twice.
pub open spec fn is_snapshot(v: Json) -> bool {
    &&& is_record(v, 6)
    &&& v matches Json::Obj(o) ==> {
        &&& is_named_at_most_once(o@, "market"@)
        &&& is_named_at_most_once(o@, "nonce"@)
        &&& is_named_at_most_once(o@, "bids"@)
        &&& is_named_at_most_once(o@, "asks"@)
        &&& is_named_at_most_once(o@, "timestamp"@)
        &&& is_named_at_most_once(o@, "mdSeqNo"@)
    }
    &&& field(v, "market"@, 0) is Some && field(v, "market"@, 0)->0 is Str
    &&& is_unsigned(field(v, "nonce"@, 1))
    &&& field(v, "bids"@, 2) is Some && may_be_rows(field(v, "bids"@, 2))
    &&& field(v, "asks"@, 3) is Some && may_be_rows(field(v, "asks"@, 3))
    &&& may_be_null_or_unsigned(field(v, "timestamp"@, 4))
    &&& is_unsigned(field(v, "mdSeqNo"@, 5))
}

/// Whether the record says the snapshot.
pub open spec fn says_snapshot(v: Json, s: SnapshotView) -> bool {
    &&& says_text(field(v, "market"@, 0), Some(s.market))
    &&& says_unsigned(field(v, "nonce"@, 1), Some(s.nonce))
    &&& says_rows(field(v, "bids"@, 2), s.bids)
    &&& says_rows(field(v, "asks"@, 3), s.asks)
    &&& says_unsigned(field(v, "timestamp"@, 4), s.timestamp)
    &&& says_unsigned(field(v, "mdSeqNo"@, 5), Some(s.mdseqno))
}

/// A snapshot is read from its record, field by field.
pub proof fn snapshot_is_what_its_record_says(v: Json)
    ensures
        snapshot_of(v) is Some <==> is_snapshot(v),
        snapshot_of(v) matches Some(s) ==> says_snapshot(v, s),
{
    last_of_a_name_is_the_member(v, "market"@);
    last_of_a_name_is_the_member(v, "nonce"@);
    last_of_a_name_is_the_member(v, "bids"@);
    last_of_a_name_is_the_member(v, "asks"@);
    last_of_a_name_is_the_member(v, "timestamp"@);
    last_of_a_name_is_the_member(v, "mdSeqNo"@);
    rows_are_read(field(v, "bids"@, 2));
    rows_are_read(field(v, "asks"@, 3));
}

/// Whether an object names none of the members twice.
pub open spec fn names_members_once(v: Json) -> bool {
    v matches Json::Obj(o) ==> {
        &&& is_named_at_most_once(o@, "action"@)
        &&& is_named_at_most_once(o@, "event"@)
        &&& is_named_at_most_once(o@, "key"@)
        &&& is_named_at_most_once(o@, "signature"@)
        &&& is_named_at_most_once(o@, "timestamp"@)
        &&& is_named_at_most_once(o@, "market"@)
        &&& is_named_at_most_once(o@, "nonce"@)
        &&& is_named_at_most_once(o@, "bids"@)
        &&& is_named_at_most_once(o@, "asks"@)
        &&& is_named_at_most_once(o@, "id"@)
        &&& is_named_at_most_once(o@, "amount"@)
        &&& is_named_at_most_once(o@, "price"@)
        &&& is_named_at_most_once(o@, "side"@)
        &&& is_named_at_most_once(o@, "requestId"@)
        &&& is_named_at_most_once(o@, "response"@)
        &&& is_named_at_most_once(o@, "startMdSeqNo"@)
        &&& is_named_at_most_once(o@, "endMdSeqNo"@)
        &&& is_named_at_most_once(o@, "subscriptions"@)
        &&& is_named_at_most_once(o@, "success"@)
        &&& is_named_at_most_once(o@, "authenticated"@)
    }
}

proof fn lemma_members_once(v: Json)
    ensures
        crate::bitvavo::types::members_once(v) <==> names_members_once(v),
{
    last_of_a_name_is_the_member(v, "action"@);
    last_of_a_name_is_the_member(v, "event"@);
    last_of_a_name_is_the_member(v, "key"@);
    last_of_a_name_is_the_member(v, "signature"@);
    last_of_a_name_is_the_member(v, "timestamp"@);
    last_of_a_name_is_the_member(v, "market"@);
    last_of_a_name_is_the_member(v, "nonce"@);
    last_of_a_name_is_the_member(v, "bids"@);
    last_of_a_name_is_the_member(v, "asks"@);
    last_of_a_name_is_the_member(v, "id"@);
    last_of_a_name_is_the_member(v, "amount"@);
    last_of_a_name_is_the_member(v, "price"@);
    last_of_a_name_is_the_member(v, "side"@);
    last_of_a_name_is_the_member(v, "requestId"@);
    last_of_a_name_is_the_member(v, "response"@);
    last_of_a_name_is_the_member(v, "startMdSeqNo"@);
    last_of_a_name_is_the_member(v, "endMdSeqNo"@);
    last_of_a_name_is_the_member(v, "subscriptions"@);
    last_of_a_name_is_the_member(v, "success"@);
    last_of_a_name_is_the_member(v, "authenticated"@);
}

/// Whether a text with its reading is the one that a field says, if any.
pub open spec fn says_reading(f: Option<Json>, got: Option<crate::json::JsonTextView>) -> bool {
    if is_absent(f) {
        got is None
    } else {
        f->0 is Str && got == Some(f->0->Str_0@)
    }
}

/// A message is read from a record that names no member twice. Each field is
/// what the record says under its name, or at its place.
pub proof fn message_is_what_its_record_says(v: Json)
    ensures
        message_of(v) is Some <==> {
            &&& is_record(v, 20)
            &&& names_members_once(v)
            &&& may_be_null_or_text(field(v, "action"@, 0))
            &&& may_be_null_or_text(field(v, "event"@, 1))
            &&& may_be_null_or_text(field(v, "key"@, 2))
            &&& may_be_null_or_text(field(v, "signature"@, 3))
            &&& may_be_null_or_unsigned(field(v, "timestamp"@, 4))
            &&& may_be_null_or_text(field(v, "market"@, 5))
            &&& may_be_null_or_unsigned(field(v, "nonce"@, 6))
            &&& may_be_rows(field(v, "bids"@, 7))
            &&& may_be_rows(field(v, "asks"@, 8))
            &&& may_be_null_or_text(field(v, "id"@, 9))
            &&& may_be_null_or_text(field(v, "amount"@, 10))
            &&& may_be_null_or_text(field(v, "price"@, 11))
            &&& may_be_null_or_text(field(v, "side"@, 12))
            &&& may_be_null_or_unsigned(field(v, "requestId"@, 13))
            &&& is_absent(field(v, "response"@, 14)) || is_snapshot(field(v, "response"@, 14)->0)
            &&& may_be_null_or_unsigned(field(v, "startMdSeqNo"@, 15))
            &&& may_be_null_or_unsigned(field(v, "endMdSeqNo"@, 16))
            &&& may_be_null_or_flag(field(v, "success"@, 18))
            &&& may_be_null_or_flag(field(v, "authenticated"@, 19))
        },
        message_of(v) matches Some(m) ==> {
            &&& says_text(field(v, "action"@, 0), m.action)
            &&& says_text(field(v, "event"@, 1), m.event)
            &&& says_text(field(v, "key"@, 2), m.key)
            &&& says_text(field(v, "signature"@, 3), m.signature)
            &&& says_unsigned(field(v, "timestamp"@, 4), m.timestamp)
            &&& says_text(field(v, "market"@, 5), m.market)
            &&& says_unsigned(field(v, "nonce"@, 6), m.nonce)
            &&& says_rows(field(v, "bids"@, 7), m.bids)
            &&& says_rows(field(v, "asks"@, 8), m.asks)
            &&& says_text(field(v, "id"@, 9), m.id)
            &&& says_reading(field(v, "amount"@, 10), m.amount)
            &&& says_reading(field(v, "price"@, 11), m.price)
            &&& says_text(field(v, "side"@, 12), m.side)
            &&& says_unsigned(field(v, "requestId"@, 13), m.request_id)
            &&& is_absent(field(v, "response"@, 14)) ==> m.response is None
            &&& !is_absent(field(v, "response"@, 14)) ==> m.response is Some && says_snapshot(
                field(v, "response"@, 14)->0,
                m.response->0,
            )
            &&& says_unsigned(field(v, "startMdSeqNo"@, 15), m.start_md_seq_no)
            &&& says_unsigned(field(v, "endMdSeqNo"@, 16), m.end_md_seq_no)
            &&& is_absent(field(v, "subscriptions"@, 17)) ==> m.subscriptions is None
            &&& !is_absent(field(v, "subscriptions"@, 17)) ==> m.subscriptions == field(
                v,
                "subscriptions"@,
                17,
            )
            &&& says_flag(field(v, "success"@, 18), m.success)
            &&& says_flag(field(v, "authenticated"@, 19), m.authenticated)
        },
{
    lemma_members_once(v);
    rows_are_read(field(v, "bids"@, 7));
    rows_are_read(field(v, "asks"@, 8));
    if field(v, "response"@, 14) is Some {
        snapshot_is_what_its_record_says(field(v, "response"@, 14)->0);
    }
}

/// An answer to a request for the book is a snapshot; what is about the
/// authentication is that; and of the rest, the event tells a change of the
/// book, a trade and anything else apart.
pub proof fn kind_of_message(m: BitvavoView)
    ensures
        m.message_type() == MessageType::BookSnapshot <==> m.action == Some("getBook"@),
        m.message_type() == MessageType::Auth <==> m.action == Some("authenticate"@) || (m.action
            != Some("getBook"@) && m.event == Some("authenticate"@)),
        m.message_type() == MessageType::BookUpdate <==> m.action != Some("getBook"@) && m.action
            != Some("authenticate"@) && m.event == Some("book"@),
        m.message_type() == MessageType::Trade <==> m.action != Some("getBook"@) && m.action
            != Some("authenticate"@) && m.event == Some("trade"@),
        m.message_type() == MessageType::Unknown <==> m.action != Some("getBook"@) && m.action
            != Some("authenticate"@) && m.event is None,
        m.is_auth_confirmed() <==> (m.action == Some("authenticate"@) || m.event == Some(
            "authenticate"@,
        )) && (m.authenticated == Some(true) || m.success == Some(true)),
{
    reveal_strlit("getBook");
    reveal_strlit("authenticate");
    reveal_strlit("book");
    reveal_strlit("trade");
    assert("getBook"@.len() == 7 && "authenticate"@.len() == 12 && "book"@.len() == 4
        && "trade"@.len() == 5);
}

/// The levels of rows are those of the first part and then those of the
/// second. A row gives the level of its first two texts where both are read as
/// numbers, and none otherwise.
pub proof fn levels_follow_each_other(
    a: Seq<Seq<JsonText>>,
    b: Seq<Seq<JsonText>>,
    row: Seq<JsonText>,
)
    requires
        row.len() >= 2,
    ensures
        parsed(a + b) == parsed(a) + parsed(b),
        row[0].reading is Some && row[1].reading is Some ==> parsed(seq![row]) == seq![
            LobLevel { price: row[0].reading->0.num, size: row[1].reading->0.num },
        ],
        row[0].reading is None || row[1].reading is None ==> parsed(seq![row]).len() == 0,
    decreases b.len(),
{
    assert(seq![row].drop_last() =~= Seq::<Seq<JsonText>>::empty());
    assert(seq![row].last() == row);
    assert(parsed(seq![row].drop_last()) =~= Seq::<LobLevel>::empty());
    if row[0].reading is Some && row[1].reading is Some {
        assert(row[0]@.num() == Some(row[0].reading->0.num));
        assert(row[1]@.num() == Some(row[1].reading->0.num));
        assert(parsed(seq![row]) =~= seq![
            LobLevel { price: row[0].reading->0.num, size: row[1].reading->0.num },
        ]);
    } else {
        assert(row[0]@.num() is None || row[1]@.num() is None);
    }
    if b.len() == 0 {
        assert(a + b =~= a);
        assert(parsed(a) + parsed(b) =~= parsed(a));
    } else {
        levels_follow_each_other(a, b.drop_last(), row);
        assert((a + b).drop_last() =~= a + b.drop_last());
        assert((a + b).last() == b.last());
        assert(parsed(a + b) =~= parsed(a) + parsed(b));
    }
}

/// Whether a row starts with the price and the size of the level.
pub open spec fn says_level(row: Seq<JsonText>, level: LobLevel) -> bool {
    &&& row.len() >= 2
    &&& row[0].reading is Some && level.price == row[0].reading->0.num
    &&& row[1].reading is Some && level.size == row[1].reading->0.num
}

/// Rows that each start with a price and a size give these levels, in this
/// order.
pub proof fn levels_are_what_the_rows_say(rows: Seq<Seq<JsonText>>, levels: Seq<LobLevel>)
    requires
        rows.len() == levels.len(),
        forall|i: int| 0 <= i < rows.len() ==> says_level(#[trigger] rows[i], levels[i]),
    ensures
        parsed(rows) == levels,
    decreases rows.len(),
{
    if rows.len() == 0 {
        assert(levels =~= Seq::<LobLevel>::empty());
    } else {
        let t = rows.drop_last();
        let l = levels.drop_last();
        assert forall|i: int| 0 <= i < t.len() implies says_level(#[trigger] t[i], l[i]) by {
            assert(t[i] == rows[i]);
        }
        levels_are_what_the_rows_say(t, l);
        let row = rows[rows.len() - 1];
        assert(says_level(row, levels[rows.len() - 1]));
        levels_follow_each_other(t, seq![row], row);
        assert(rows =~= t + seq![row]);
        assert(levels =~= l + seq![levels[rows.len() - 1]]);
    }
}

/// An update that is due, as it starts after the last number applied, changes
/// both sides: at each price that it names, a side holds the size that it gives
/// last, or nothing where that is zero, and at every other price what it held.
/// The last number applied is then the one at which it ends.
pub proof fn due_update_changes_both_sides(b: BookView, u: UpdateView)
    requires
        b.depth.wf(),
        b.last_mdseq is Some,
        u.start_md_seq_no > b.last_mdseq->0,
    ensures
        holds_changes(b.depth.bids, parsed(u.bids), b.update(u).depth.bids),
        holds_changes(b.depth.asks, parsed(u.asks), b.update(u).depth.asks),
        b.update(u).last_mdseq == Some(u.end_md_seq_no),
        b.update(u).pending == b.pending,
{
    changes_take_effect(b.depth, Side::Bid, parsed(u.bids));
    let m = b.depth.updated(Side::Bid, parsed(u.bids));
    changes_take_effect(m, Side::Ask, parsed(u.asks));
}

/// Until there is a snapshot, an update changes no level; it is put aside, in
/// its turn. After that, one that starts no later than the last number applied
/// changes nothing at all.
pub proof fn update_out_of_turn_changes_no_level(b: BookView, u: UpdateView)
    requires
        b.last_mdseq is None || u.start_md_seq_no <= b.last_mdseq->0,
    ensures
        b.update(u).depth == b.depth,
        b.update(u).last_mdseq == b.last_mdseq,
        b.last_mdseq is None ==> b.update(u).pending == b.pending.push(u),
        b.last_mdseq is Some ==> b.update(u).pending == b.pending,
{
}

/// A snapshot replaces both sides and sets the last number applied to its own;
/// updates that were put aside stay so.
pub proof fn snapshot_replaces_both_sides(b: BookView, snap: SnapshotView)
    ensures
        holds_snapshot(parsed(snap.bids), b.snapshot(snap).depth.bids),
        holds_snapshot(parsed(snap.asks), b.snapshot(snap).depth.asks),
        b.snapshot(snap).last_mdseq == Some(snap.mdseqno),
        b.snapshot(snap).pending == b.pending,
{
    snapshot_takes_effect(b.depth, Side::Bid, parsed(snap.bids));
    let m = b.depth.replaced(Side::Bid, parsed(snap.bids));
    snapshot_takes_effect(m, Side::Ask, parsed(snap.asks));
}

/// Updates are applied one after the other, and draining a book applies those
/// that were put aside, in their order.
pub proof fn updates_follow_each_other(
    b: BookView,
    first: Seq<UpdateView>,
    second: Seq<UpdateView>,
    u: UpdateView,
)
    ensures
        b.updates(Seq::empty()) == b,
        b.updates(seq![u]) == b.update(u),
        b.updates(first + second) == b.updates(first).updates(second),
        b.pending.len() == 0 ==> b.drained() == b,
        b.last_mdseq is Some && b.pending == seq![u] ==> b.drained() == (BookView {
            pending: Seq::empty(),
            ..b
        }).update(u),
    decreases second.len(),
{
    assert(seq![u].drop_last() =~= Seq::<UpdateView>::empty());
    assert(seq![u].last() == u);
    assert(b.updates(seq![u].drop_last()) == b);
    let bare = BookView { pending: Seq::empty(), ..b };
    assert(bare.updates(seq![u].drop_last()) == bare);
    if b.pending.len() == 0 {
        assert(b.pending =~= Seq::<UpdateView>::empty());
    }
    if second.len() == 0 {
        assert(first + second =~= first);
    } else {
        updates_follow_each_other(b, first, second.drop_last(), u);
        assert((first + second).drop_last() =~= first + second.drop_last());
        assert((first + second).last() == second.last());
    }
}

/// Where trades are subscribed to, a message of a trade gives one: its side is
/// the text that the message gives, its price and its size are the numbers of
/// the texts, and its moment is that of the message. It carries the number
/// after that of the trade before.
pub proof fn trade_is_reported<A: Fn(FloatOp, Num, Num) -> Num>(
    a: AdapterView,
    unit: A,
    msg: BitvavoView,
    now: u64,
)
    requires
        a.data_kind == DataKind::TRADE || a.data_kind == DataKind::BOTH,
        msg.action != Some("getBook"@) && msg.action != Some("authenticate"@),
        msg.event == Some("trade"@),
        a.trade_seq < u64::MAX,
    ensures
        a.item(unit, msg, now) matches Some(ItemView::Trade(t)) && {
            &&& msg.timestamp is Some ==> t.ts == msg.timestamp->0
            &&& msg.timestamp is None ==> t.ts == 0
            &&& t.exchange == a.exchange
            &&& msg.price is Some ==> is_number_of(t.price, msg.price->0)
            &&& msg.price is None ==> t.price.bits == 0
            &&& msg.amount is Some ==> is_number_of(t.size, msg.amount->0)
            &&& msg.amount is None ==> t.size.bits == 0
            &&& msg.side is Some ==> t.side == msg.side->0
            &&& msg.side is None ==> t.side.len() == 0
            &&& msg.id is Some && msg.id->0.len() > 0 ==> t.trade_id == msg.id
            &&& msg.id is None || msg.id->0.len() == 0 ==> t.trade_id is None
            &&& t.seq_id == Some((a.trade_seq + 1) as u64)
        },
        a.handled(unit, msg, now).trade_seq == a.trade_seq + 1,
        a.handled(unit, msg, now).book == a.book,
        a.handled(unit, msg, now).prev_lob == a.prev_lob,
{
    kind_of_message(msg);
}

/// Where trades are not subscribed to, a message of a trade changes nothing
/// and gives nothing.
pub proof fn unasked_trade_is_passed_over<A: Fn(FloatOp, Num, Num) -> Num>(
    a: AdapterView,
    unit: A,
    msg: BitvavoView,
    now: u64,
)
    requires
        a.data_kind == DataKind::LOB || a.data_kind == DataKind::EMPTY,
        msg.action != Some("getBook"@) && msg.action != Some("authenticate"@),
        msg.event == Some("trade"@),
    ensures
        a.item(unit, msg, now) is None,
        a.handled(unit, msg, now) == a,
{
    kind_of_message(msg);
}

/// Whether a moment is that of a number of nanoseconds in milliseconds, and
/// the given one where there is none.
pub open spec fn is_moment_of(ts: u64, ns: Option<u64>, otherwise: u64) -> bool {
    match ns {
        Some(n) => ts * 1_000_000 <= n < (ts + 1) * 1_000_000,
        None => ts == otherwise,
    }
}

/// Where the book is subscribed to, a message that changes it leads to the
/// book with that update applied, and an item that it gives carries the moment
/// of the message and holds what is in reach of that book.
pub proof fn update_message_is_applied<A: Fn(FloatOp, Num, Num) -> Num>(
    a: AdapterView,
    unit: A,
    msg: BitvavoView,
    now: u64,
    u: UpdateView,
)
    requires
        a.book.depth.wf(),
        a.data_kind == DataKind::LOB || a.data_kind == DataKind::BOTH,
        msg.action != Some("getBook"@) && msg.action != Some("authenticate"@),
        msg.event == Some("book"@),
        u.bids == msg.bids,
        u.asks == msg.asks,
        u.start_md_seq_no == (if msg.start_md_seq_no is Some {
            msg.start_md_seq_no->0
        } else {
            0
        }),
        u.end_md_seq_no == (if msg.end_md_seq_no is Some {
            msg.end_md_seq_no->0
        } else {
            0
        }),
        u.timestamp == msg.timestamp,
        u.market == (if msg.market is Some {
            msg.market->0
        } else {
            Seq::empty()
        }),
    ensures
        a.handled(unit, msg, now).book == a.book.update(u),
        a.handled(unit, msg, now).trade_seq == a.trade_seq,
        a.item(unit, msg, now) matches Some(item) ==> item is Lob && {
            let lob = item->Lob_0;
            let d = a.book.update(u).depth;
            &&& lob.exchange == a.exchange
            &&& is_moment_of(lob.ts, msg.timestamp, now)
            &&& emits_bids(unit, d.bids, a.max_level, a.max_level_pct, lob.bids)
            &&& emits_asks(unit, d.asks, a.max_level, a.max_level_pct, lob.asks)
            &&& a.handled(unit, msg, now).prev_lob == Some(lob)
        },
        a.item(unit, msg, now) is None ==> a.handled(unit, msg, now).prev_lob == a.prev_lob,
{
    kind_of_message(msg);
    assert(msg.book_update() == Some(u));
    changes_take_effect(a.book.depth, Side::Bid, parsed(u.bids));
    let m = a.book.depth.updated(Side::Bid, parsed(u.bids));
    changes_take_effect(m, Side::Ask, parsed(u.asks));
    item_holds_what_is_in_reach(
        unit,
        a.book.update(u).depth,
        a.book_moment(msg, now),
        a.exchange,
        a.max_level,
        a.max_level_pct,
    );
}

/// Where the book is subscribed to, the answer to a request for it leads to
/// the book of the snapshot with the updates that were put aside applied after
/// it, and an item that it gives carries the moment of the snapshot and holds
/// what is in reach of that book.
pub proof fn snapshot_message_is_applied<A: Fn(FloatOp, Num, Num) -> Num>(
    a: AdapterView,
    unit: A,
    msg: BitvavoView,
    now: u64,
    snap: SnapshotView,
)
    requires
        a.book.depth.wf(),
        a.data_kind == DataKind::LOB || a.data_kind == DataKind::BOTH,
        msg.action == Some("getBook"@),
        msg.response == Some(snap),
    ensures
        a.handled(unit, msg, now).book == a.book.snapshot(snap).drained(),
        a.handled(unit, msg, now).trade_seq == a.trade_seq,
        a.item(unit, msg, now) matches Some(item) ==> item is Lob && {
            let lob = item->Lob_0;
            let d = a.book.snapshot(snap).drained().depth;
            &&& lob.exchange == a.exchange
            &&& is_moment_of(lob.ts, snap.timestamp, now)
            &&& emits_bids(unit, d.bids, a.max_level, a.max_level_pct, lob.bids)
            &&& emits_asks(unit, d.asks, a.max_level, a.max_level_pct, lob.asks)
            &&& a.handled(unit, msg, now).prev_lob == Some(lob)
        },
        a.item(unit, msg, now) is None ==> a.handled(unit, msg, now).prev_lob == a.prev_lob,
{
    kind_of_message(msg);
    let b = a.book.snapshot(snap);
    updates_keep_order(a.book, snap, Seq::empty());
    updates_keep_order(BookView { pending: Seq::empty(), ..b }, snap, b.pending);
    item_holds_what_is_in_reach(
        unit,
        b.drained().depth,
        a.book_moment(msg, now),
        a.exchange,
        a.max_level,
        a.max_level_pct,
    );
}

/// A message about the authentication, one of any other event and one without
/// event change nothing and give nothing; nor does one about the book where the
/// book is not subscribed to, nor an answer without a snapshot.
pub proof fn other_messages_change_nothing<A: Fn(FloatOp, Num, Num) -> Num>(
    a: AdapterView,
    unit: A,
    msg: BitvavoView,
    now: u64,
)
    requires
        msg.action != Some("getBook"@) && msg.event != Some("book"@) && msg.event != Some("trade"@)
            || msg.action == Some("authenticate"@) || ((a.data_kind == DataKind::TRADE || a.data_kind
            == DataKind::EMPTY) && (msg.action == Some("getBook"@) || msg.event == Some("book"@)))
            || (msg.action == Some("getBook"@) && msg.response is None),
    ensures
        a.item(unit, msg, now) is None,
        a.handled(unit, msg, now) == a,
{
    kind_of_message(msg);
    reveal_strlit("book");
    reveal_strlit("trade");
    reveal_strlit("getBook");
    reveal_strlit("authenticate");
    assert("book"@.len() == 4 && "trade"@.len() == 5 && "getBook"@.len() == 7
        && "authenticate"@.len() == 12);
}

/// Where the book is asked for, its channel is subscribed to first and the
/// book itself is asked for after that, as deep as the limit on levels or else
/// a thousand; the channel of trades is subscribed to exactly where trades are
/// asked for, and comes last.
pub proof fn channels_are_those_asked_for(a: AdapterView)
    ensures
        ({
            let lob = a.data_kind == DataKind::LOB || a.data_kind == DataKind::BOTH;
            let trade = a.data_kind == DataKind::TRADE || a.data_kind == DataKind::BOTH;
            let s = a.subscriptions();
            &&& s.len() == (if lob {
                2int
            } else {
                0
            }) + (if trade {
                1int
            } else {
                0
            })
            &&& lob ==> s[0] == ("book"@, subscribe_request("book"@, a.instrument)) && s[1].0
                == "getbook"@
            &&& lob && a.max_level is Some ==> s[1].1 == crate::bitvavo::ws::getbook_request(
                a.instrument,
                a.max_level->0 as u64,
            )
            &&& lob && a.max_level is None ==> s[1].1 == crate::bitvavo::ws::getbook_request(
                a.instrument,
                1000,
            )
            &&& trade ==> s.last() == ("trades"@, subscribe_request("trades"@, a.instrument))
        }),
{
}

/// No message changes what the adapter was set up with.
pub proof fn settings_stay<A: Fn(FloatOp, Num, Num) -> Num>(
    a: AdapterView,
    unit: A,
    msg: BitvavoView,
    now: u64,
)
    ensures
        ({
            let after = a.handled(unit, msg, now);
            &&& after.instrument == a.instrument
            &&& after.exchange == a.exchange
            &&& after.region == a.region
            &&& after.api_key == a.api_key
            &&& after.api_secret == a.api_secret
            &&& after.max_level_pct == a.max_level_pct
            &&& after.max_level == a.max_level
            &&& after.data_kind == a.data_kind
        }),
{
}

/// Rows can be read where each has a price, and a size where its price is a
/// number. An update can be taken in where it is not due or its rows can be
/// read, and updates one after the other where each can in its turn.
pub proof fn what_can_be_read_is_taken_in(
    b: BookView,
    rows: Seq<Seq<JsonText>>,
    first: Seq<UpdateView>,
    second: Seq<UpdateView>,
    u: UpdateView,
)
    ensures
        readable(rows) <==> forall|i: int|
            0 <= i < rows.len() ==> (#[trigger] rows[i]).len() >= 1 && (rows[i].len() == 1
                ==> rows[i][0].reading is None),
        b.accepts(u) <==> b.last_mdseq is None || u.start_md_seq_no <= b.last_mdseq->0 || (readable(
            u.bids,
        ) && readable(u.asks)),
        b.accepts_all(Seq::empty()),
        b.accepts_all(seq![u]) <==> b.accepts(u),
        b.accepts_all(first + second) <==> b.accepts_all(first) && b.updates(first).accepts_all(
            second,
        ),
        b.pending.len() == 0 ==> b.can_drain(),
    decreases second.len(),
{
    if readable(rows) {
        assert forall|i: int| 0 <= i < rows.len() implies (#[trigger] rows[i]).len() >= 1 && (
        rows[i].len() == 1 ==> rows[i][0].reading is None) by {
            assert(readable_row(rows[i]));
        }
    }
    if forall|i: int|
        0 <= i < rows.len() ==> (#[trigger] rows[i]).len() >= 1 && (rows[i].len() == 1
            ==> rows[i][0].reading is None) {
        assert forall|i: int| 0 <= i < rows.len() implies readable_row(#[trigger] rows[i]) by {
            assert(rows[i].len() >= 1);
        }
    }
    assert(seq![u].drop_last() =~= Seq::<UpdateView>::empty());
    assert(seq![u].last() == u);
    assert(b.accepts_all(seq![u].drop_last()));
    assert(b.updates(seq![u].drop_last()) == b);
    if b.pending.len() == 0 {
        assert(b.pending =~= Seq::<UpdateView>::empty());
    }
    if second.len() == 0 {
        assert(first + second =~= first);
    } else {
        what_can_be_read_is_taken_in(b, rows, first, second.drop_last(), u);
        updates_follow_each_other(b, first, second.drop_last(), u);
        assert((first + second).drop_last() =~= first + second.drop_last());
        assert((first + second).last() == second.last());
    }
}

/// The parts of a message: an update where its event is that of the book, a
/// trade where it is that of a trade, and a snapshot where it answers a request
/// for the book; each of what the message gives, and of nothing where it gives
/// none.
pub proof fn parts_are_those_of_the_message(m: BitvavoView)
    ensures
        m.book_update() is Some <==> m.event == Some("book"@),
        m.book_update() matches Some(u) ==> {
            &&& u.bids == m.bids
            &&& u.asks == m.asks
            &&& u.timestamp == m.timestamp
            &&& m.market is Some ==> u.market == m.market->0
            &&& m.start_md_seq_no is Some ==> u.start_md_seq_no == m.start_md_seq_no->0
            &&& m.start_md_seq_no is None ==> u.start_md_seq_no == 0
            &&& m.end_md_seq_no is Some ==> u.end_md_seq_no == m.end_md_seq_no->0
            &&& m.end_md_seq_no is None ==> u.end_md_seq_no == 0
        },
        m.trade() is Some <==> m.event == Some("trade"@),
        m.trade() matches Some(t) ==> {
            &&& m.id is Some ==> t.id == m.id->0
            &&& m.id is None ==> t.id.len() == 0
            &&& m.amount is Some ==> t.amount == m.amount->0
            &&& m.amount is None ==> t.amount.text.len() == 0 && t.amount.reading is None
            &&& m.price is Some ==> t.price == m.price->0
            &&& m.price is None ==> t.price.text.len() == 0 && t.price.reading is None
            &&& m.market is Some ==> t.market == m.market->0
            &&& m.side is Some ==> t.side == m.side->0
            &&& m.side is None ==> t.side.len() == 0
            &&& m.timestamp is Some ==> t.timestamp == m.timestamp->0
            &&& m.timestamp is None ==> t.timestamp == 0
        },
        m.action == Some("getBook"@) ==> m.book_snapshot() == m.response,
        m.action != Some("getBook"@) ==> m.book_snapshot() is None,
{
}

} // verus!

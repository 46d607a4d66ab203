//! What the messages of Bitstamp lead to.

use crate::bitstamp::lob::distinct;
use crate::bitstamp::lob::level_total;
use crate::bitstamp::lob::order_place;
use crate::bitstamp::lob::place_of;
use crate::bitstamp::lob::placed;
use crate::bitstamp::lob::BookView;
use crate::bitstamp::lob::OrderInfo;
use crate::bitstamp::types::book_data_of;
use crate::bitstamp::types::entry_of;
use crate::bitstamp::types::message_of;
use crate::bitstamp::types::micros_to_millis;
use crate::bitstamp::types::trade_of;
use crate::bitstamp::types::BitstampView;
use crate::bitstamp::types::BookDataView;
use crate::bitstamp::types::EntryView;
use crate::bitstamp::types::MessageType;
use crate::bitstamp::ws::subscribe_request;
use crate::bitstamp::ws::AdapterView;
use crate::book::DepthView;
use crate::book::Side;
use crate::config::DataKind;
use crate::effect::blocked;
use crate::effect::facing;
use crate::effect::levels_of;
use crate::effect::one_change_takes_effect;
use crate::effect::overlaps;
use crate::items::ItemView;
use crate::items::LobLevel;
use crate::json::field;
use crate::json::is_record;
use crate::json::Json;
use crate::json::JsonText;
use crate::ladder::erase_is_local;
use crate::ladder::size_at;
use crate::member::integer_said;
use crate::member::is_absent;
use crate::member::is_named_at_most_once;
use crate::member::is_number_of;
use crate::member::is_row;
use crate::member::is_unsigned;
use crate::member::last_of_a_name_is_the_member;
use crate::member::may_be_null_or_text;
use crate::member::may_be_text;
use crate::member::rows_are_read;
use crate::member::says_integer_or_zero;
use crate::member::says_number_or_text;
use crate::member::says_plain_text;
use crate::member::says_rows;
use crate::member::says_signed_or_zero;
use crate::member::says_text;
use crate::member::says_text_or_empty;
use crate::member::says_unsigned_or_zero;
use crate::num::answer;
use crate::num::FloatOp;
use crate::num::Num;
use crate::text::begins;
use crate::text::decimal;
use crate::text::letters_lower;
use crate::text::unsigned_value;
use crate::urls::rest_endpoint;
use vstd::prelude::*;

verus! {

/// Whether a field is missing, a text or a number.
pub open spec fn may_be_text_or_number(f: Option<Json>) -> bool {
    f is None || f->0 is Str || f->0 is Number
}

/// Whether a field is missing or an integer that fits.
pub open spec fn may_be_integer(f: Option<Json>) -> bool {
    f is None || (integer_said(f) is Some && integer_said(f)->0 <= i64::MAX)
}

/// An order is read from its record. Each field is what the record says under
/// its name, or at its place.
pub proof fn order_is_what_its_record_says(v: Json)
    ensures
        entry_of(v) is Some <==> {
            &&& is_record(v, 6)
            &&& field(v, "id"@, 0) is None || is_unsigned(field(v, "id"@, 0))
            &&& may_be_text(field(v, "id_str"@, 1))
            &&& may_be_text_or_number(field(v, "price"@, 2))
            &&& may_be_text_or_number(field(v, "amount"@, 3))
            &&& may_be_text_or_number(field(v, "type"@, 4))
            &&& may_be_text(field(v, "timestamp"@, 5))
        },
        entry_of(v) matches Some(e) ==> {
            &&& says_unsigned_or_zero(field(v, "id"@, 0), e.id)
            &&& says_plain_text(field(v, "id_str"@, 1), e.id_str)
            &&& says_number_or_text(field(v, "price"@, 2), e.price)
            &&& says_number_or_text(field(v, "amount"@, 3), e.amount)
            &&& says_integer_or_zero(field(v, "type"@, 4), e.order_type)
            &&& says_text_or_empty(field(v, "timestamp"@, 5), e.timestamp)
        },
{
}

/// A trade is read from its record. Each field is what the record says under
/// its name, or at its place, and a trade of type zero is a purchase.
pub proof fn trade_is_what_its_record_says(v: Json)
    ensures
        trade_of(v) is Some <==> {
            &&& is_record(v, 8)
            &&& field(v, "id"@, 0) is None || is_unsigned(field(v, "id"@, 0))
            &&& may_be_text_or_number(field(v, "price"@, 1))
            &&& may_be_text_or_number(field(v, "amount"@, 2))
            &&& may_be_text_or_number(field(v, "type"@, 3))
            &&& may_be_text(field(v, "timestamp"@, 4))
            &&& may_be_text(field(v, "microtimestamp"@, 5))
            &&& may_be_integer(field(v, "buy_order_id"@, 6))
            &&& may_be_integer(field(v, "sell_order_id"@, 7))
        },
        trade_of(v) matches Some(t) ==> {
            &&& says_unsigned_or_zero(field(v, "id"@, 0), t.id)
            &&& says_number_or_text(field(v, "price"@, 1), t.price)
            &&& says_number_or_text(field(v, "amount"@, 2), t.amount)
            &&& says_integer_or_zero(field(v, "type"@, 3), t.trade_type)
            &&& says_text_or_empty(field(v, "timestamp"@, 4), t.timestamp)
            &&& says_plain_text(field(v, "microtimestamp"@, 5), t.microtimestamp)
            &&& says_signed_or_zero(field(v, "buy_order_id"@, 6), t.buy_order_id)
            &&& says_signed_or_zero(field(v, "sell_order_id"@, 7), t.sell_order_id)
            &&& t.trade_type == 0 ==> t.side() == "buy"@
            &&& t.trade_type != 0 ==> t.side() == "sell"@
        },
{
}

/// Whether a field is missing or an array of arrays of texts.
pub open spec fn may_be_rows(f: Option<Json>) -> bool {
    f is None || (f->0 is Arr && forall|i: int|
        0 <= i < f->0->Arr_0@.len() ==> is_row(#[trigger] f->0->Arr_0@[i]))
}

/// The data of a book are read from their record. Each field is what the
/// record says under its name, or at its place.
pub proof fn book_data_is_what_its_record_says(v: Json)
    ensures
        book_data_of(v) is Some <==> {
            &&& is_record(v, 4)
            &&& may_be_rows(field(v, "bids"@, 0))
            &&& may_be_rows(field(v, "asks"@, 1))
            &&& may_be_text(field(v, "timestamp"@, 2))
            &&& may_be_text(field(v, "microtimestamp"@, 3))
        },
        book_data_of(v) matches Some(d) ==> {
            &&& says_rows(field(v, "bids"@, 0), d.bids)
            &&& says_rows(field(v, "asks"@, 1), d.asks)
            &&& says_plain_text(field(v, "timestamp"@, 2), d.timestamp)
            &&& says_plain_text(field(v, "microtimestamp"@, 3), d.microtimestamp)
        },
{
    rows_are_read(field(v, "bids"@, 0));
    rows_are_read(field(v, "asks"@, 1));
}

/// A message is read from a record that names no member twice. Each field is
/// what the record says under its name, or at its place.
pub proof fn message_is_what_its_record_says(v: Json)
    ensures
        message_of(v) is Some <==> {
            &&& is_record(v, 3)
            &&& v matches Json::Obj(o) ==> {
                &&& is_named_at_most_once(o@, "event"@)
                &&& is_named_at_most_once(o@, "channel"@)
                &&& is_named_at_most_once(o@, "data"@)
            }
            &&& may_be_null_or_text(field(v, "event"@, 0))
            &&& may_be_null_or_text(field(v, "channel"@, 1))
        },
        message_of(v) matches Some(m) ==> {
            &&& says_text(field(v, "event"@, 0), m.event)
            &&& says_text(field(v, "channel"@, 1), m.channel)
            &&& is_absent(field(v, "data"@, 2)) ==> m.data is None
            &&& !is_absent(field(v, "data"@, 2)) ==> m.data == field(v, "data"@, 2)
        },
{
    last_of_a_name_is_the_member(v, "event"@);
    last_of_a_name_is_the_member(v, "channel"@);
    last_of_a_name_is_the_member(v, "data"@);
}

/// Whether the channel starts so.
pub open spec fn is_on(m: BitstampView, prefix: Seq<char>) -> bool {
    m.channel is Some && prefix.len() <= m.channel->0.len() && forall|i: int|
        0 <= i < prefix.len() ==> #[trigger] m.channel->0[i] == prefix[i]
}

proof fn lemma_begins(s: Seq<char>, p: Seq<char>)
    ensures
        begins(s, p) <==> p.len() <= s.len() && forall|i: int|
            0 <= i < p.len() ==> #[trigger] s[i] == p[i],
{
    if p.len() <= s.len() {
        if begins(s, p) {
            assert forall|i: int| 0 <= i < p.len() implies #[trigger] s[i] == p[i] by {
                assert(s.take(p.len() as int)[i] == p[i]);
            }
        }
        if forall|i: int| 0 <= i < p.len() ==> #[trigger] s[i] == p[i] {
            assert(s.take(p.len() as int) =~= p);
        }
    }
}

/// Whether the event is that one.
pub open spec fn is_event(m: BitstampView, event: Seq<char>) -> bool {
    m.event == Some(event)
}

/// An order that is created, deleted or changed is a change of the book, and so
/// are data on a channel of orders or of books; a snapshot is one; and a trade
/// has two names. A message without event is of no kind.
pub proof fn kind_of_message(m: BitstampView)
    ensures
        is_event(m, "order_created"@) || is_event(m, "order_deleted"@) || is_event(
            m,
            "order_changed"@,
        ) ==> m.message_type() == MessageType::L2Update,
        m.message_type() == MessageType::L2Snapshot <==> is_event(m, "snapshot"@),
        is_event(m, "data"@) && (is_on(m, "order_book_"@) || is_on(m, "diff_order_book_"@) || is_on(
            m,
            "live_orders_"@,
        )) ==> m.message_type() == MessageType::L2Update,
        is_event(m, "data"@) && !is_on(m, "order_book_"@) && !is_on(m, "diff_order_book_"@)
            && !is_on(m, "live_orders_"@) ==> m.message_type() == MessageType::Unknown,
        m.message_type() == MessageType::Trade <==> is_event(m, "trade"@) || is_event(
            m,
            "live_trades"@,
        ),
        is_event(m, "bts:subscription_succeeded"@) || is_event(m, "bts:unsubscription_succeeded"@)
            ==> m.message_type() == MessageType::Event,
        m.event is None ==> m.message_type() == MessageType::Unknown,
        m.message_type() == MessageType::Event ==> m.event is Some && !is_event(m, "data"@),
{
    reveal_strlit("order_created");
    reveal_strlit("order_deleted");
    reveal_strlit("order_changed");
    reveal_strlit("snapshot");
    reveal_strlit("data");
    reveal_strlit("trade");
    reveal_strlit("live_trades");
    reveal_strlit("bts:subscription_succeeded");
    reveal_strlit("bts:unsubscription_succeeded");
    assert("order_created"@.len() == 13 && "order_deleted"@.len() == 13 && "order_changed"@.len()
        == 13 && "snapshot"@.len() == 8 && "data"@.len() == 4 && "trade"@.len() == 5
        && "live_trades"@.len() == 11 && "bts:subscription_succeeded"@.len() == 26
        && "bts:unsubscription_succeeded"@.len() == 28);
    if m.channel is Some {
        lemma_begins(m.channel->0, "order_book_"@);
        lemma_begins(m.channel->0, "diff_order_book_"@);
        lemma_begins(m.channel->0, "live_orders_"@);
    }
}

/// Any other event is a change of the book where the channel is one of
/// orders.
pub proof fn orders_are_changes(m: BitstampView)
    requires
        is_on(m, "live_orders_"@),
        m.event is Some,
        !is_event(m, "snapshot"@) && !is_event(m, "trade"@) && !is_event(m, "live_trades"@),
        !is_event(m, "bts:subscription_succeeded"@) && !is_event(
            m,
            "bts:unsubscription_succeeded"@,
        ),
    ensures
        m.message_type() == MessageType::L2Update,
{
    lemma_begins(m.channel->0, "live_orders_"@);
}

/// The total at a price is that of the orders of the side and the price: one
/// more of them adds its size, and any other order leaves it.
pub proof fn total_adds_the_orders_of_the_level<A: Fn(FloatOp, Num, Num) -> Num>(
    unit: A,
    orders: Seq<OrderInfo>,
    order: OrderInfo,
    side: Side,
    key: int,
)
    ensures
        level_total(unit, Seq::empty(), side, key) is None,
        order.side != side || order.price.key() != key ==> level_total(
            unit,
            orders.push(order),
            side,
            key,
        ) == level_total(unit, orders, side, key),
        order.side == side && order.price.key() == key && level_total(unit, orders, side, key) is None
            ==> level_total(unit, orders.push(order), side, key) == Some(order.size),
        order.side == side && order.price.key() == key && level_total(unit, orders, side, key) is Some
            ==> level_total(unit, orders.push(order), side, key) == Some(
            answer(unit, FloatOp::Sum, level_total(unit, orders, side, key)->0, order.size),
        ),
{
    assert(orders.push(order).drop_last() =~= orders);
}

proof fn lemma_total_is_some<A: Fn(FloatOp, Num, Num) -> Num>(
    unit: A,
    orders: Seq<OrderInfo>,
    side: Side,
    key: int,
)
    ensures
        level_total(unit, orders, side, key) is Some <==> exists|i: int|
            0 <= i < orders.len() && (#[trigger] orders[i]).side == side && orders[i].price.key()
                == key,
    decreases orders.len(),
{
    if orders.len() > 0 {
        let t = orders.drop_last();
        lemma_total_is_some(unit, t, side, key);
        assert(orders[orders.len() - 1] == orders.last());
        if level_total(unit, t, side, key) is Some {
            let i = choose|i: int|
                0 <= i < t.len() && (#[trigger] t[i]).side == side && t[i].price.key() == key;
            assert(orders[i] == t[i]);
        }
        if exists|i: int|
            0 <= i < orders.len() && (#[trigger] orders[i]).side == side && orders[i].price.key()
                == key {
            let i = choose|i: int|
                0 <= i < orders.len() && (#[trigger] orders[i]).side == side
                    && orders[i].price.key() == key;
            if i < t.len() {
                assert(t[i] == orders[i]);
            }
        }
    }
}

/// There is a total exactly where an order has the side and the price, and
/// where there is but one, it is that order's size.
pub proof fn total_of_one_order_is_its_size<A: Fn(FloatOp, Num, Num) -> Num>(
    unit: A,
    orders: Seq<OrderInfo>,
    i: int,
)
    requires
        0 <= i < orders.len(),
        forall|j: int|
            0 <= j < orders.len() && j != i ==> !((#[trigger] orders[j]).side == orders[i].side
                && orders[j].price.key() == orders[i].price.key()),
    ensures
        level_total(unit, orders, orders[i].side, orders[i].price.key()) == Some(orders[i].size),
    decreases orders.len(),
{
    let t = orders.drop_last();
    let side = orders[i].side;
    let key = orders[i].price.key();
    lemma_total_is_some(unit, t, side, key);
    assert(orders[orders.len() - 1] == orders.last());
    if i < t.len() {
        assert forall|j: int| 0 <= j < t.len() && j != i implies !((#[trigger] t[j]).side
            == t[i].side && t[j].price.key() == t[i].price.key()) by {
            assert(t[j] == orders[j]);
        }
        total_of_one_order_is_its_size(unit, t, i);
    } else {
        if level_total(unit, t, side, key) is Some {
            let j = choose|j: int|
                0 <= j < t.len() && (#[trigger] t[j]).side == side && t[j].price.key() == key;
            assert(orders[j] == t[j]);
        }
    }
}

/// Whether a book differs from another, at most, in its orders and in what it
/// holds at one price of one side: the total of the orders there, or nothing
/// where there is none or it is zero.
pub open spec fn holds_total<A: Fn(FloatOp, Num, Num) -> Num>(
    unit: A,
    before: DepthView,
    side: Side,
    price: Num,
    after: BookView,
) -> bool {
    &&& after.depth.wf()
    &&& levels_of(after.depth, facing(side)) == levels_of(before, facing(side))
    &&& forall|key: int|
        key != price.key() ==> #[trigger] size_at(levels_of(after.depth, side), key) == size_at(
            levels_of(before, side),
            key,
        )
    &&& match level_total(unit, after.orders, side, price.key()) {
        Some(t) => if t.key() == 0 {
            size_at(levels_of(after.depth, side), price.key()) is None
        } else {
            size_at(levels_of(after.depth, side), price.key()) == Some(t)
        },
        None => size_at(levels_of(after.depth, side), price.key()) is None,
    }
}

/// Whether a book is the one, or, where that is crossed, an empty one that
/// needs a snapshot.
pub open spec fn settles(made: BookView, result: BookView) -> bool {
    &&& !overlaps(made.depth) ==> result == made
    &&& overlaps(made.depth) ==> {
        &&& result.orders.len() == 0
        &&& result.depth.bids.len() == 0
        &&& result.depth.asks.len() == 0
        &&& result.needs_resync
    }
}

proof fn lemma_rebuilt<A: Fn(FloatOp, Num, Num) -> Num>(
    b: BookView,
    unit: A,
    side: Side,
    price: Num,
)
    requires
        b.depth.wf(),
    ensures
        holds_total(unit, b.depth, side, price, b.rebuilt(unit, side, price)),
        b.rebuilt(unit, side, price).orders == b.orders,
        b.rebuilt(unit, side, price).needs_resync == b.needs_resync,
        settles(b, b.repaired()),
{
    erase_is_local(levels_of(b.depth, side), price.key());
    match level_total(unit, b.orders, side, price.key()) {
        Some(size) => {
            one_change_takes_effect(b.depth, side, LobLevel { price, size });
        },
        None => {},
    }
}

/// An order with a size whose price keeps clear of the other side is in the
/// book after that, in the place of the order of its number if there was one,
/// and its price holds the total of the orders there. All other orders stay.
pub proof fn order_is_placed<A: Fn(FloatOp, Num, Num) -> Num>(
    b: BookView,
    unit: A,
    order: OrderInfo,
) -> (made: BookView)
    requires
        b.depth.wf(),
        distinct(b.orders),
        order.size.key() != 0,
        !blocked(b.depth, order.side, order.price),
    ensures
        made.orders.contains(order),
        made.needs_resync == b.needs_resync,
        forall|o: OrderInfo|
            o.id != order.id ==> (#[trigger] made.orders.contains(o) <==> b.orders.contains(o)),
        forall|o: OrderInfo| #[trigger]
            made.orders.contains(o) && o.id == order.id ==> o == order,
        holds_total(unit, b.depth, order.side, order.price, made),
        settles(made, b.ordered(unit, order)),
{
    let p = place_of(b.orders, order.id);
    let orders = placed(b.orders, order);
    order_place(b.orders, order.id);
    let with = BookView { orders, ..b };
    let made = with.rebuilt(unit, order.side, order.price);
    lemma_rebuilt(with, unit, order.side, order.price);
    lemma_rebuilt(made, unit, order.side, order.price);
    assert(orders[p] == order);
    assert forall|o: OrderInfo| o.id != order.id implies (#[trigger] orders.contains(o)
        <==> b.orders.contains(o)) by {
        if orders.contains(o) {
            let i = choose|i: int| 0 <= i < orders.len() && orders[i] == o;
            assert(b.orders[i] == o);
        }
        if b.orders.contains(o) {
            let i = choose|i: int| 0 <= i < b.orders.len() && b.orders[i] == o;
            assert(orders[i] == o);
        }
    }
    assert forall|o: OrderInfo| #[trigger] orders.contains(o) && o.id == order.id implies o
        == order by {
        let i = choose|i: int| 0 <= i < orders.len() && orders[i] == o;
        if i != p {
            assert(b.orders[i] == o);
            if p < b.orders.len() {
                assert(b.orders[p].id == order.id);
                if i < p {
                    assert(b.orders[i].id != b.orders[p].id);
                } else {
                    assert(b.orders[p].id != b.orders[i].id);
                }
            }
        }
    }
    made
}

/// An order of size zero takes the order of its number out of the book, and
/// the price of that order holds the total of the orders left there, or nothing
/// where none is left. All other orders stay.
pub proof fn order_is_taken_out<A: Fn(FloatOp, Num, Num) -> Num>(
    b: BookView,
    unit: A,
    order: OrderInfo,
    known: int,
) -> (made: BookView)
    requires
        b.depth.wf(),
        distinct(b.orders),
        order.size.key() == 0,
        0 <= known < b.orders.len(),
        b.orders[known].id == order.id,
    ensures
        made.needs_resync == b.needs_resync,
        forall|o: OrderInfo|
            o.id != order.id ==> (#[trigger] made.orders.contains(o) <==> b.orders.contains(o)),
        forall|o: OrderInfo| #[trigger] made.orders.contains(o) ==> o.id != order.id,
        holds_total(unit, b.depth, b.orders[known].side, b.orders[known].price, made),
        settles(made, b.ordered(unit, order)),
{
    let p = place_of(b.orders, order.id);
    order_place(b.orders, order.id);
    if p < known {
        assert(p < b.orders.len());
        assert(b.orders[p].id != b.orders[known].id);
    }
    if known < p {
        assert(b.orders[known].id != order.id);
    }
    assert(p == known);
    let gone = b.orders[p];
    let orders = b.orders.remove(p);
    let without = BookView { orders, ..b };
    let made = without.rebuilt(unit, gone.side, gone.price);
    lemma_rebuilt(without, unit, gone.side, gone.price);
    lemma_rebuilt(made, unit, gone.side, gone.price);
    assert forall|o: OrderInfo| o.id != order.id implies (#[trigger] orders.contains(o)
        <==> b.orders.contains(o)) by {
        if orders.contains(o) {
            let i = choose|i: int| 0 <= i < orders.len() && orders[i] == o;
            assert(b.orders[if i < p {
                i
            } else {
                i + 1
            }] == o);
        }
        if b.orders.contains(o) {
            let i = choose|i: int| 0 <= i < b.orders.len() && b.orders[i] == o;
            assert(orders[if i < p {
                i
            } else {
                i - 1
            }] == o);
        }
    }
    assert forall|o: OrderInfo| #[trigger] orders.contains(o) implies o.id != order.id by {
        let i = choose|i: int| 0 <= i < orders.len() && orders[i] == o;
        if i < p {
            assert(b.orders[i].id != b.orders[p].id);
        } else {
            assert(b.orders[i + 1] == o);
            assert(b.orders[p].id != b.orders[i + 1].id);
        }
    }
    made
}

/// An order that would meet or pass the best price of the other side changes
/// nothing, nor does one of size zero whose number no order has.
pub proof fn order_without_effect<A: Fn(FloatOp, Num, Num) -> Num>(
    b: BookView,
    unit: A,
    order: OrderInfo,
)
    requires
        (order.size.key() != 0 && blocked(b.depth, order.side, order.price)) || (order.size.key()
            == 0 && forall|i: int| 0 <= i < b.orders.len() ==> (#[trigger] b.orders[i]).id
            != order.id),
    ensures
        b.ordered(unit, order) == b,
{
    order_place(b.orders, order.id);
}

/// An entry whose price and amount are numbers is an order of its number, a
/// bid where its type is zero and an ask otherwise; any other entry changes
/// nothing.
pub proof fn entry_is_an_order<A: Fn(FloatOp, Num, Num) -> Num>(
    b: BookView,
    unit: A,
    entry: EntryView,
    order: OrderInfo,
)
    ensures
        entry.price.reading is None || entry.amount.reading is None ==> b.entered(unit, entry) == b,
        entry.price.reading is Some && entry.amount.reading is Some && order.id == entry.id
            && order.price == entry.price.reading->0.num && order.size
            == entry.amount.reading->0.num && (order.side == Side::Bid <==> entry.order_type == 0)
            ==> b.entered(unit, entry) == b.ordered(unit, order),
{
}

/// Rows are orders without a number, one after the other: each that starts
/// with a price and an amount that are numbers is an order of the side, with
/// both to eight decimals; any other row changes nothing.
pub proof fn rows_are_orders<A: Fn(FloatOp, Num, Num) -> Num>(
    b: BookView,
    unit: A,
    first: Seq<Seq<JsonText>>,
    second: Seq<Seq<JsonText>>,
    row: Seq<JsonText>,
    side: Side,
    order: OrderInfo,
)
    ensures
        b.rows(unit, Seq::empty(), side) == b,
        b.rows(unit, first + second, side) == b.rows(unit, first, side).rows(unit, second, side),
        row.len() < 2 || row[0].reading is None || row[1].reading is None ==> b.rows(
            unit,
            seq![row],
            side,
        ) == b,
        row.len() >= 2 && row[0].reading is Some && row[1].reading is Some && order.id == 0
            && order.price == row[0].reading->0.rounded && order.size == row[1].reading->0.rounded
            && order.side == side ==> b.rows(unit, seq![row], side) == b.ordered(unit, order),
    decreases second.len(),
{
    assert(seq![row].drop_last() =~= Seq::<Seq<JsonText>>::empty());
    assert(seq![row].last() == row);
    assert(b.rows(unit, seq![row].drop_last(), side) == b);
    if second.len() == 0 {
        assert(first + second =~= first);
    } else {
        rows_are_orders(b, unit, first, second.drop_last(), row, side, order);
        assert((first + second).drop_last() =~= first + second.drop_last());
        assert((first + second).last() == second.last());
    }
}

/// A snapshot or a change of the book brings the rows of its bids and after
/// that those of its asks; a trade whose price and amount are numbers is an
/// order of its number and its side, with both to eight decimals; and any other
/// message changes nothing.
pub proof fn message_brings_orders<A: Fn(FloatOp, Num, Num) -> Num>(
    b: BookView,
    unit: A,
    msg: BitstampView,
    order: OrderInfo,
)
    ensures
        (msg.message_type() == MessageType::L2Snapshot || msg.message_type()
            == MessageType::L2Update) && msg.data is Some ==> (book_data_of(msg.data->0) matches Some(
            data,
        ) ==> b.processed(unit, msg) == b.rows(unit, data.bids, Side::Bid).rows(
            unit,
            data.asks,
            Side::Ask,
        )),
        msg.message_type() == MessageType::Trade && msg.data is Some ==> (trade_of(
            msg.data->0,
        ) matches Some(t) ==> (t.price.reading is Some && t.amount.reading is Some && order.id
            == t.id && order.price == t.price.reading->0.rounded && order.size
            == t.amount.reading->0.rounded && (order.side == Side::Bid <==> t.trade_type == 0)
            ==> b.processed(unit, msg) == b.ordered(unit, order))),
        msg.data is None || msg.message_type() == MessageType::Event || msg.message_type()
            == MessageType::Unknown ==> b.processed(unit, msg) == b,
{
}

/// Whether a moment is the one that a message gives: that of the order it is
/// about, in seconds, or else that of the trade; and the given one where it
/// gives none.
pub open spec fn is_moment_of(ts: u64, m: BitstampView, otherwise: u64) -> bool {
    let of_order = if m.data is Some {
        match entry_of(m.data->0) {
            Some(e) => if e.timestamp.reading is Some {
                Some(e.timestamp.reading->0.millis)
            } else {
                unsigned_value(e.timestamp.text)
            },
            None => None,
        }
    } else {
        None
    };
    let of_trade = if m.data is Some {
        match trade_of(m.data->0) {
            Some(t) => if t.timestamp.reading is Some {
                Some(t.timestamp.reading->0.millis)
            } else {
                None
            },
            None => None,
        }
    } else {
        None
    };
    if of_order is Some {
        ts == of_order->0
    } else if of_trade is Some {
        ts == of_trade->0
    } else {
        ts == otherwise
    }
}

/// Where trades are subscribed to, a message of a trade whose data is an
/// object with the price and the amount as texts or numbers gives a trade: its
/// price and its size are the numbers of these, it is a purchase where its type
/// is zero and a sale otherwise, and it carries the number after that of the
/// trade before. A trade of number zero has no identifier.
pub proof fn trade_is_reported<A: Fn(FloatOp, Num, Num) -> Num>(
    a: AdapterView,
    unit: A,
    msg: BitstampView,
    now: u64,
    v: Json,
    price: JsonText,
    amount: JsonText,
)
    requires
        a.data_kind == DataKind::TRADE || a.data_kind == DataKind::BOTH,
        is_event(msg, "trade"@) || is_event(msg, "live_trades"@),
        msg.data == Some(v),
        v is Obj,
        v.at("price"@) == Some(Json::Str(price)),
        v.at("amount"@) == Some(Json::Str(amount)),
        is_unsigned(v.at("id"@)),
        is_unsigned(v.at("type"@)),
        may_be_text(v.at("timestamp"@)),
        may_be_text(v.at("microtimestamp"@)),
        may_be_integer(v.at("buy_order_id"@)),
        may_be_integer(v.at("sell_order_id"@)),
        a.trade_seq < u64::MAX,
    ensures
        a.item(unit, msg, now) matches Some(ItemView::Trade(t)) && {
            &&& is_moment_of(t.ts, msg, 0)
            &&& t.exchange == a.exchange
            &&& is_number_of(t.price, price@)
            &&& is_number_of(t.size, amount@)
            &&& v.at("type"@)->0->Number_0->PosInt_0 == 0 ==> t.side == "buy"@
            &&& v.at("type"@)->0->Number_0->PosInt_0 != 0 ==> t.side == "sell"@
            &&& v.at("id"@)->0->Number_0->PosInt_0 == 0 ==> t.trade_id is None
            &&& v.at("id"@)->0->Number_0->PosInt_0 != 0 ==> t.trade_id == Some(
                decimal(v.at("id"@)->0->Number_0->PosInt_0 as nat),
            )
            &&& t.seq_id == Some((a.trade_seq + 1) as u64)
        },
        a.handled(unit, msg, now).trade_seq == a.trade_seq + 1,
        a.handled(unit, msg, now).book == a.book,
        a.handled(unit, msg, now).prev_lob == a.prev_lob,
{
    kind_of_message(msg);
    trade_is_what_its_record_says(v);
}

/// A message of a trade gives one exactly where trades are subscribed to and
/// its data is the record of one; otherwise it changes nothing.
pub proof fn only_trades_are_reported<A: Fn(FloatOp, Num, Num) -> Num>(
    a: AdapterView,
    unit: A,
    msg: BitstampView,
    now: u64,
)
    requires
        is_event(msg, "trade"@) || is_event(msg, "live_trades"@),
    ensures
        a.item(unit, msg, now) is Some <==> {
            &&& a.data_kind == DataKind::TRADE || a.data_kind == DataKind::BOTH
            &&& msg.data is Some
            &&& trade_of(msg.data->0) is Some
        },
        a.item(unit, msg, now) is None ==> a.handled(unit, msg, now) == a,
{
    kind_of_message(msg);
}

/// A message that is about neither the book nor a trade changes nothing and
/// gives nothing.
pub proof fn other_messages_change_nothing<A: Fn(FloatOp, Num, Num) -> Num>(
    a: AdapterView,
    unit: A,
    msg: BitstampView,
    now: u64,
)
    requires
        msg.message_type() == MessageType::Event || msg.message_type() == MessageType::Unknown,
    ensures
        a.item(unit, msg, now) is None,
        a.handled(unit, msg, now) == a,
{
}

/// Where the book is subscribed to, a message about it leads to the book with
/// its orders, or, where that needs a snapshot, to an empty one with no item
/// before and none given. An item that it gives carries the moment of the
/// message.
pub proof fn book_message_is_applied<A: Fn(FloatOp, Num, Num) -> Num>(
    a: AdapterView,
    unit: A,
    msg: BitstampView,
    now: u64,
)
    requires
        a.data_kind == DataKind::LOB || a.data_kind == DataKind::BOTH,
        msg.message_type() == MessageType::L2Snapshot || msg.message_type()
            == MessageType::L2Update,
    ensures
        a.book.processed(unit, msg).needs_resync ==> {
            &&& a.item(unit, msg, now) is None
            &&& a.handled(unit, msg, now).book.orders.len() == 0
            &&& a.handled(unit, msg, now).book.depth.bids.len() == 0
            &&& a.handled(unit, msg, now).book.depth.asks.len() == 0
            &&& !a.handled(unit, msg, now).book.needs_resync
            &&& a.handled(unit, msg, now).prev_lob is None
        },
        !a.book.processed(unit, msg).needs_resync ==> {
            &&& a.handled(unit, msg, now).book == a.book.processed(unit, msg)
            &&& a.item(unit, msg, now) matches Some(item) ==> item is Lob && is_moment_of(
                item->Lob_0.ts,
                msg,
                now,
            ) && item->Lob_0.exchange == a.exchange && a.handled(unit, msg, now).prev_lob == Some(
                item->Lob_0,
            )
            &&& a.prev_lob is None && crate::bitstamp::lob::BITSTAMP_LOB_DISABLED ==> a.item(
                unit,
                msg,
                now,
            ) is Some
        },
        a.handled(unit, msg, now).trade_seq == a.trade_seq,
{
}

/// A snapshot fetched anew gives an item of the book that its rows make of an
/// empty one, with its moment to the millisecond.
pub proof fn fetched_snapshot_is_shown<A: Fn(FloatOp, Num, Num) -> Num>(
    a: AdapterView,
    unit: A,
    data: BookDataView,
    now: u64,
)
    ensures
        a.snapshot_item(unit, data, now) matches Some(lob) ==> {
            let d = BookView::empty().rows(unit, data.bids, Side::Bid).rows(
                unit,
                data.asks,
                Side::Ask,
            ).depth;
            &&& lob.exchange == a.exchange
            &&& unsigned_value(data.microtimestamp) matches Some(us) ==> lob.ts * 1000 <= us < (
            lob.ts + 1) * 1000
            &&& unsigned_value(data.microtimestamp) is None ==> lob.ts == now
            &&& crate::laws::emits_bids(unit, d.bids, a.max_level, a.max_level_pct, lob.bids)
            &&& crate::laws::emits_asks(unit, d.asks, a.max_level, a.max_level_pct, lob.asks)
        },
{
    let e = BookView::empty();
    let m = e.rows(unit, data.bids, Side::Bid);
    crate::bitstamp::lob::rows_never_cross(e, unit, data.bids, Side::Bid);
    crate::bitstamp::lob::rows_never_cross(m, unit, data.asks, Side::Ask);
    crate::laws::item_holds_what_is_in_reach(
        unit,
        e.fed(unit, data).depth,
        crate::clock::moment(micros_to_millis(data.microtimestamp), now),
        a.exchange,
        a.max_level,
        a.max_level_pct,
    );
}

/// The channels are named after the instrument, by its letters and digits in
/// lower case. That of the book is subscribed to exactly where the book is asked
/// for, that of trades exactly where trades are, each once and the book first.
pub proof fn channels_are_those_asked_for(a: AdapterView)
    ensures
        ({
            let lob = a.data_kind == DataKind::LOB || a.data_kind == DataKind::BOTH;
            let trade = a.data_kind == DataKind::TRADE || a.data_kind == DataKind::BOTH;
            let name = letters_lower(a.instrument);
            let s = a.subscriptions();
            &&& s.len() == (if lob {
                1int
            } else {
                0
            }) + (if trade {
                1int
            } else {
                0
            })
            &&& lob ==> s[0].0 == "diff_order_book_"@ + name
            &&& trade ==> s.last().0 == "live_trades_"@ + name
            &&& forall|i: int|
                0 <= i < s.len() ==> (#[trigger] s[i]).1 == subscribe_request(s[i].0)
        }),
{
}

/// No message changes what the adapter was set up with.
pub proof fn settings_stay<A: Fn(FloatOp, Num, Num) -> Num>(
    a: AdapterView,
    unit: A,
    msg: BitstampView,
    now: u64,
)
    ensures
        ({
            let after = a.handled(unit, msg, now);
            &&& after.instrument == a.instrument
            &&& after.exchange == a.exchange
            &&& after.region == a.region
            &&& after.cli_instrument == a.cli_instrument
            &&& after.max_level_pct == a.max_level_pct
            &&& after.max_level == a.max_level
            &&& after.data_kind == a.data_kind
            &&& after.checksum_log == a.checksum_log
        }),
        ({
            let after = a.wiped();
            &&& after.instrument == a.instrument
            &&& after.exchange == a.exchange
            &&& after.region == a.region
            &&& after.cli_instrument == a.cli_instrument
            &&& after.max_level_pct == a.max_level_pct
            &&& after.max_level == a.max_level
            &&& after.data_kind == a.data_kind
            &&& after.checksum_log == a.checksum_log
            &&& after.trade_seq == a.trade_seq
        }),
{
}

/// Each kind of message has a tag of its own.
pub proof fn kind_is_shown(a: MessageType, b: MessageType)
    ensures
        a.tag() == b.tag() ==> a == b,
{
    reveal_strlit("LOB2 SNAPSHOT");
    reveal_strlit("LOB2 UPDATE");
    reveal_strlit("TRADE");
    reveal_strlit("EVENT");
    reveal_strlit("UNKNOWN");
    assert("LOB2 SNAPSHOT"@.len() == 13 && "LOB2 UPDATE"@.len() == 11 && "TRADE"@.len() == 5
        && "EVENT"@.len() == 5 && "UNKNOWN"@.len() == 7);
    assert("TRADE"@[0] == 'T' && "EVENT"@[0] == 'E');
}

/// A message about the book is shown by its event, its channel and, where it
/// is about an order, whether that is a bid or an ask, its amount and its
/// price; one about a trade by its channel, price, amount and side; an error by
/// what the exchange says of it; and any other event by its name.
pub proof fn summary_shows_the_message(m: BitstampView)
    ensures
        (m.message_type() == MessageType::L2Snapshot || m.message_type() == MessageType::L2Update)
            && m.channel is Some && m.data is Some ==> (entry_of(m.data->0) matches Some(e) ==> {
            &&& e.order_type == 0 ==> m.summary() == m.event->0 + " "@ + m.channel->0 + " bid "@
                + e.amount.text + "@"@ + e.price.text
            &&& e.order_type != 0 ==> m.summary() == m.event->0 + " "@ + m.channel->0 + " ask "@
                + e.amount.text + "@"@ + e.price.text
        }),
        (m.message_type() == MessageType::L2Snapshot || m.message_type() == MessageType::L2Update)
            && m.channel is Some && m.data is Some && entry_of(m.data->0) is None ==> m.summary()
            == m.event->0 + " "@ + m.channel->0 + " (raw)"@,
        (m.message_type() == MessageType::L2Snapshot || m.message_type() == MessageType::L2Update)
            && m.channel is Some && m.data is None ==> m.summary() == m.event->0 + " "@
            + m.channel->0 + " (empty)"@,
        m.message_type() == MessageType::Trade && m.channel is Some && m.data is Some ==> (trade_of(
            m.data->0,
        ) matches Some(t) ==> {
            &&& t.trade_type == 0 ==> m.summary() == m.channel->0 + " @ "@ + t.price.text + " sz="@
                + t.amount.text + " side=buy"@
            &&& t.trade_type != 0 ==> m.summary() == m.channel->0 + " @ "@ + t.price.text + " sz="@
                + t.amount.text + " side=sell"@
        }),
        m.message_type() == MessageType::Event && is_event(m, "error"@) && m.data is Some ==> (
        m.data->0.at("errorMessage"@) matches Some(Json::Str(t)) ==> m.summary() == "error: "@
            + t.text@),
        m.message_type() == MessageType::Event && !is_event(m, "error"@) ==> m.summary()
            == m.event->0,
        m.message_type() == MessageType::Unknown && m.channel is Some ==> m.summary()
            == m.channel->0,
        m.message_type() == MessageType::Unknown && m.channel is None ==> m.summary() == "?"@,
{
    reveal_strlit(" ");
    reveal_strlit("bid");
    reveal_strlit("ask");
    reveal_strlit(" bid ");
    reveal_strlit(" ask ");
    reveal_strlit(" side=");
    reveal_strlit("buy");
    reveal_strlit("sell");
    reveal_strlit(" side=buy");
    reveal_strlit(" side=sell");
    assert(" bid "@ =~= " "@ + "bid"@ + " "@);
    assert(" ask "@ =~= " "@ + "ask"@ + " "@);
    assert(" side=buy"@ =~= " side="@ + "buy"@);
    assert(" side=sell"@ =~= " side="@ + "sell"@);
    if m.data is Some {
        if (m.message_type() == MessageType::L2Snapshot || m.message_type()
            == MessageType::L2Update) && m.channel is Some && entry_of(m.data->0) is Some {
            let e = entry_of(m.data->0)->0;
            if e.order_type == 0 {
                assert(m.summary() =~= m.event->0 + " "@ + m.channel->0 + " bid "@ + e.amount.text
                    + "@"@ + e.price.text);
            } else {
                assert(m.summary() =~= m.event->0 + " "@ + m.channel->0 + " ask "@ + e.amount.text
                    + "@"@ + e.price.text);
            }
        }
        if m.message_type() == MessageType::Trade && m.channel is Some && trade_of(
            m.data->0,
        ) is Some {
            let t = trade_of(m.data->0)->0;
            if t.trade_type == 0 {
                assert(m.summary() =~= m.channel->0 + " @ "@ + t.price.text + " sz="@
                    + t.amount.text + " side=buy"@);
            } else {
                assert(m.summary() =~= m.channel->0 + " @ "@ + t.price.text + " sz="@
                    + t.amount.text + " side=sell"@);
            }
        }
    }
}

/// A message is shown by the time of day of its moment, its kind and its
/// summary.
pub proof fn line_shows_time_kind_and_summary(m: BitstampView, now: u64, ts: u64)
    requires
        is_moment_of(ts, m, now),
    ensures
        crate::bitstamp::types::message_line(m, now) == "["@ + crate::text::time_of_day(ts as int)
            + " "@ + m.message_type().tag() + "] "@ + m.summary(),
{
}

/// The moment in microseconds is that of the book that a message is about, or
/// else that of its trade.
pub proof fn microseconds_are_those_of_the_data(m: BitstampView)
    ensures
        m.data is None ==> m.microtimestamp_us() is None,
        m.data is Some ==> {
            let of_book = match book_data_of(m.data->0) {
                Some(b) => unsigned_value(b.microtimestamp),
                None => None,
            };
            let of_trade = match trade_of(m.data->0) {
                Some(t) => unsigned_value(t.microtimestamp),
                None => None,
            };
            &&& of_book is Some ==> m.microtimestamp_us() == of_book
            &&& of_book is None ==> m.microtimestamp_us() == of_trade
        },
{
}

/// A snapshot is fetched from the address of the exchange, under the
/// instrument, as deep as the limit on levels or else four hundred.
pub proof fn snapshot_is_fetched_for_the_instrument(a: AdapterView)
    ensures
        a.max_level is Some ==> a.snapshot_address() == rest_endpoint(a.region, a.exchange)
            + "/order_book/"@ + a.cli_instrument + "?group="@ + decimal(a.max_level->0 as nat),
        a.max_level is None ==> a.snapshot_address() == rest_endpoint(a.region, a.exchange)
            + "/order_book/"@ + a.cli_instrument + "?group="@ + "400"@,
{
    reveal_strlit("400");
    assert(decimal(400) =~= "400"@) by {
        reveal_with_fuel(decimal, 4);
    }
}

/// Any other event, on a channel that is none of orders, is just an event.
pub proof fn other_events_are_events(m: BitstampView)
    requires
        m.event is Some,
        !is_on(m, "live_orders_"@),
        !is_event(m, "order_created"@) && !is_event(m, "order_deleted"@) && !is_event(
            m,
            "order_changed"@,
        ),
        !is_event(m, "snapshot"@) && !is_event(m, "data"@) && !is_event(m, "trade"@) && !is_event(
            m,
            "live_trades"@,
        ),
    ensures
        m.message_type() == MessageType::Event,
{
    if m.channel is Some {
        lemma_begins(m.channel->0, "live_orders_"@);
    }
}

/// Microseconds are cut to whole milliseconds.
pub proof fn microseconds_are_cut(s: Seq<char>)
    ensures
        unsigned_value(s) is None ==> micros_to_millis(s) is None,
        unsigned_value(s) matches Some(us) ==> (micros_to_millis(s) matches Some(ms) && ms * 1000
            <= us < (ms + 1) * 1000),
{
}

} // verus!

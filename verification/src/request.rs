//! The requests that are sent, as JSON.
//!
//! A request is put together as text. What it says is stated here by the JSON
//! value of which it is the text.

use crate::bitvavo::ws::hmac_sha256;
use crate::json::elements_text;
use crate::json::is_superseded;
use crate::json::json_text;
use crate::json::listed;
use crate::json::members_text;
use crate::json::Json;
use crate::text::decimal;
use crate::text::hex;
use crate::text::json_contents;
use crate::text::json_string;
use vstd::prelude::*;
use vstd::utf8::encode_utf8;

verus! {

/// Whether a value is that text.
pub open spec fn is_text(v: Json, s: Seq<char>) -> bool {
    v is Str && v->Str_0.text@ == s
}

/// Whether a value is an object with just these members, in this order.
pub open spec fn is_object(v: Json, names: Seq<Seq<char>>) -> bool {
    &&& v is Obj
    &&& v->Obj_0@.len() == names.len()
    &&& forall|i: int| 0 <= i < names.len() ==> (#[trigger] v->Obj_0@[i]).0@ == names[i]
}

/// The value of the member at a place.
pub open spec fn member(v: Json, i: int) -> Json {
    v->Obj_0@[i].1
}

/// Whether a value is an array of one element.
pub open spec fn is_single(v: Json) -> bool {
    v is Arr && v->Arr_0@.len() == 1
}

/// The one element of such an array.
pub open spec fn single(v: Json) -> Json {
    v->Arr_0@[0]
}

/// Whether a character stands for itself in a string.
pub open spec fn is_bare(c: char) -> bool {
    c as int >= 32 && c != '"' && c != '\\'
}

proof fn lemma_bare(s: Seq<char>)
    requires
        forall|i: int| 0 <= i < s.len() ==> is_bare(#[trigger] s[i]),
    ensures
        json_contents(s) == s,
        json_string(s) == seq!['"'] + s + seq!['"'],
    decreases s.len(),
{
    if s.len() > 0 {
        let t = s.drop_last();
        assert forall|i: int| 0 <= i < t.len() implies is_bare(#[trigger] t[i]) by {
            assert(t[i] == s[i]);
        }
        lemma_bare(t);
        assert(is_bare(s[s.len() - 1]));
        assert(json_contents(s) =~= s);
    } else {
        assert(json_contents(s) =~= s);
    }
}

/// How a member is written.
pub open spec fn member_text(name: Seq<char>, v: Json) -> Seq<char> {
    json_string(name) + ":"@ + json_text(v)
}

proof fn lemma_one_member(v: Json, a: Seq<char>)
    requires
        is_object(v, seq![a]),
    ensures
        json_text(v) == "{"@ + member_text(a, member(v, 0)) + "}"@,
{
    let o = v->Obj_0@;
    assert(seq![a][0] == a);
    assert(o[0].0@ == a);
    assert(!is_superseded(o, 0));
    assert(members_text(o, 0) =~= Seq::<char>::empty());
    assert(members_text(o, 1) == member_text(a, member(v, 0)));
}

proof fn lemma_two_members(v: Json, a: Seq<char>, b: Seq<char>)
    requires
        is_object(v, seq![a, b]),
        a != b,
    ensures
        json_text(v) == "{"@ + (member_text(a, member(v, 0)) + ","@ + member_text(b, member(v, 1)))
            + "}"@,
{
    let o = v->Obj_0@;
    assert(seq![a, b][0] == a && seq![a, b][1] == b);
    assert(o[0].0@ == a && o[1].0@ == b);
    assert(!is_superseded(o, 0));
    assert(!is_superseded(o, 1));
    assert(members_text(o, 0) =~= Seq::<char>::empty());
    assert(members_text(o, 1) == member_text(a, member(v, 0)));
    assert(members_text(o, 2) == listed(members_text(o, 1), member_text(b, member(v, 1))));
}

proof fn lemma_four_members(
    v: Json,
    a: Seq<char>,
    b: Seq<char>,
    c: Seq<char>,
    d: Seq<char>,
)
    requires
        is_object(v, seq![a, b, c, d]),
        a != b && a != c && a != d && b != c && b != d && c != d,
    ensures
        json_text(v) == "{"@ + (member_text(a, member(v, 0)) + ","@ + member_text(b, member(v, 1))
            + ","@ + member_text(c, member(v, 2)) + ","@ + member_text(d, member(v, 3))) + "}"@,
{
    let o = v->Obj_0@;
    let names = seq![a, b, c, d];
    assert(names[0] == a && names[1] == b && names[2] == c && names[3] == d);
    assert(o[0].0@ == a && o[1].0@ == b && o[2].0@ == c && o[3].0@ == d);
    assert(!is_superseded(o, 0));
    assert(!is_superseded(o, 1));
    assert(!is_superseded(o, 2));
    assert(!is_superseded(o, 3));
    assert(members_text(o, 0) =~= Seq::<char>::empty());
    assert(members_text(o, 1) == member_text(a, member(v, 0)));
    assert(members_text(o, 2) == listed(members_text(o, 1), member_text(b, member(v, 1))));
    assert(members_text(o, 3) == listed(members_text(o, 2), member_text(c, member(v, 2))));
    assert(members_text(o, 4) == listed(members_text(o, 3), member_text(d, member(v, 3))));
}

proof fn lemma_single(v: Json)
    requires
        is_single(v),
    ensures
        json_text(v) == "["@ + json_text(single(v)) + "]"@,
{
    let a = v->Arr_0@;
    assert(elements_text(a, 0) =~= Seq::<char>::empty());
    assert(elements_text(a, 1) == listed(elements_text(a, 0), json_text(a[0])));
}

/// The subscription of OKX is an object of the arguments, one object of the
/// channel and the instrument, and of the operation.
pub proof fn okx_subscription_says_what_is_asked(
    v: Json,
    channel: Seq<char>,
    instrument: Seq<char>,
)
    requires
        is_object(v, seq!["args"@, "op"@]),
        is_single(member(v, 0)),
        is_object(single(member(v, 0)), seq!["channel"@, "instId"@]),
        is_text(member(single(member(v, 0)), 0), channel),
        is_text(member(single(member(v, 0)), 1), instrument),
        is_text(member(v, 1), "subscribe"@),
    ensures
        crate::okx::ws::subscribe_request(channel, instrument) == json_text(v),
{
    reveal_strlit("args");
    reveal_strlit("op");
    reveal_strlit("channel");
    reveal_strlit("instId");
    reveal_strlit("subscribe");
    reveal_strlit("{");
    reveal_strlit("}");
    reveal_strlit("[");
    reveal_strlit("]");
    reveal_strlit(":");
    reveal_strlit(",");
    reveal_strlit("{\"args\":[{\"channel\":");
    reveal_strlit(",\"instId\":");
    reveal_strlit("}],\"op\":\"subscribe\"}");
    assert("args"@.len() != "op"@.len() && "channel"@.len() != "instId"@.len());
    let p = single(member(v, 0));
    lemma_two_members(v, "args"@, "op"@);
    lemma_single(member(v, 0));
    lemma_two_members(p, "channel"@, "instId"@);
    lemma_bare("args"@);
    lemma_bare("op"@);
    lemma_bare("channel"@);
    lemma_bare("instId"@);
    lemma_bare("subscribe"@);
    assert("{\"args\":[{\"channel\":"@ =~= "{"@ + json_string("args"@) + ":"@ + "["@ + "{"@
        + json_string("channel"@) + ":"@);
    assert(",\"instId\":"@ =~= ","@ + json_string("instId"@) + ":"@);
    assert("}],\"op\":\"subscribe\"}"@ =~= "}"@ + "]"@ + ","@ + json_string("op"@) + ":"@
        + json_string("subscribe"@) + "}"@);
    assert(crate::okx::ws::subscribe_request(channel, instrument) =~= json_text(v));
}

/// The answer of OKX to a ping is an object of the event and, where the ping
/// gives one, its moment.
pub proof fn okx_pong_says_what_was_asked(v: Json, ts: Option<Seq<char>>)
    requires
        ts is Some ==> is_object(v, seq!["event"@, "ts"@]) && is_text(member(v, 0), "pong"@)
            && is_text(member(v, 1), ts->0),
        ts is None ==> is_object(v, seq!["event"@]) && is_text(member(v, 0), "pong"@),
    ensures
        crate::okx::ws::pong_answer(ts) == json_text(v),
{
    reveal_strlit("{");
    reveal_strlit("}");
    reveal_strlit("[");
    reveal_strlit("]");
    reveal_strlit(":");
    reveal_strlit(",");
    reveal_strlit("event");
    reveal_strlit("ts");
    reveal_strlit("pong");
    reveal_strlit("{\"event\":\"pong\",\"ts\":");
    reveal_strlit("{\"event\":\"pong\"}");
    lemma_bare("event"@);
    lemma_bare("ts"@);
    lemma_bare("pong"@);
    assert("event"@.len() != "ts"@.len());
    if ts is Some {
        lemma_two_members(v, "event"@, "ts"@);
        assert("{\"event\":\"pong\",\"ts\":"@ =~= "{"@ + json_string("event"@) + ":"@ + json_string(
            "pong"@,
        ) + ","@ + json_string("ts"@) + ":"@);
    } else {
        lemma_one_member(v, "event"@);
    }
    assert(crate::okx::ws::pong_answer(ts) =~= json_text(v));
}

/// The subscription of Kraken is an object of the method and of the
/// parameters, the channel and the one symbol.
pub proof fn kraken_subscription_says_what_is_asked(
    v: Json,
    channel: Seq<char>,
    instrument: Seq<char>,
)
    requires
        is_object(v, seq!["method"@, "params"@]),
        is_text(member(v, 0), "subscribe"@),
        is_object(member(v, 1), seq!["channel"@, "symbol"@]),
        is_text(member(member(v, 1), 0), channel),
        is_single(member(member(v, 1), 1)),
        is_text(single(member(member(v, 1), 1)), instrument),
    ensures
        crate::kraken::ws::subscribe_request(channel, instrument) == json_text(v),
{
    reveal_strlit("{");
    reveal_strlit("}");
    reveal_strlit("[");
    reveal_strlit("]");
    reveal_strlit(":");
    reveal_strlit(",");
    reveal_strlit("method");
    reveal_strlit("params");
    reveal_strlit("channel");
    reveal_strlit("symbol");
    reveal_strlit("subscribe");
    reveal_strlit("{\"method\":\"subscribe\",\"params\":{\"channel\":");
    reveal_strlit(",\"symbol\":[");
    reveal_strlit("]}}");
    assert("method"@[0] == 'm' && "params"@[0] == 'p');
    assert("channel"@.len() != "symbol"@.len());
    lemma_two_members(v, "method"@, "params"@);
    lemma_two_members(member(v, 1), "channel"@, "symbol"@);
    lemma_single(member(member(v, 1), 1));
    lemma_bare("method"@);
    lemma_bare("params"@);
    lemma_bare("channel"@);
    lemma_bare("symbol"@);
    lemma_bare("subscribe"@);
    assert("{\"method\":\"subscribe\",\"params\":{\"channel\":"@ =~= "{"@ + json_string("method"@)
        + ":"@ + json_string("subscribe"@) + ","@ + json_string("params"@) + ":"@ + "{"@
        + json_string("channel"@) + ":"@);
    assert(",\"symbol\":["@ =~= ","@ + json_string("symbol"@) + ":"@ + "["@);
    assert("]}}"@ =~= "]"@ + "}"@ + "}"@);
    assert(crate::kraken::ws::subscribe_request(channel, instrument) =~= json_text(v));
}

/// The subscription of Bitstamp is an object of the data, the channel, and of
/// the event.
pub proof fn bitstamp_subscription_says_what_is_asked(v: Json, channel: Seq<char>)
    requires
        is_object(v, seq!["data"@, "event"@]),
        is_object(member(v, 0), seq!["channel"@]),
        is_text(member(member(v, 0), 0), channel),
        is_text(member(v, 1), "bts:subscribe"@),
    ensures
        crate::bitstamp::ws::subscribe_request(channel) == json_text(v),
{
    reveal_strlit("{");
    reveal_strlit("}");
    reveal_strlit("[");
    reveal_strlit("]");
    reveal_strlit(":");
    reveal_strlit(",");
    reveal_strlit("data");
    reveal_strlit("event");
    reveal_strlit("channel");
    reveal_strlit("bts:subscribe");
    reveal_strlit("{\"data\":{\"channel\":");
    reveal_strlit("},\"event\":\"bts:subscribe\"}");
    assert("data"@.len() != "event"@.len());
    lemma_two_members(v, "data"@, "event"@);
    lemma_one_member(member(v, 0), "channel"@);
    lemma_bare("data"@);
    lemma_bare("event"@);
    lemma_bare("channel"@);
    lemma_bare("bts:subscribe"@);
    assert("{\"data\":{\"channel\":"@ =~= "{"@ + json_string("data"@) + ":"@ + "{"@ + json_string(
        "channel"@,
    ) + ":"@);
    assert("},\"event\":\"bts:subscribe\"}"@ =~= "}"@ + ","@ + json_string("event"@) + ":"@
        + json_string("bts:subscribe"@) + "}"@);
    assert(crate::bitstamp::ws::subscribe_request(channel) =~= json_text(v));
}

/// The subscription of Bitvavo is an object of the action and of the channels,
/// one object of the one market and the name.
pub proof fn bitvavo_subscription_says_what_is_asked(
    v: Json,
    channel: Seq<char>,
    market: Seq<char>,
)
    requires
        is_object(v, seq!["action"@, "channels"@]),
        is_text(member(v, 0), "subscribe"@),
        is_single(member(v, 1)),
        is_object(single(member(v, 1)), seq!["markets"@, "name"@]),
        is_single(member(single(member(v, 1)), 0)),
        is_text(single(member(single(member(v, 1)), 0)), market),
        is_text(member(single(member(v, 1)), 1), channel),
    ensures
        crate::bitvavo::ws::subscribe_request(channel, market) == json_text(v),
{
    reveal_strlit("{");
    reveal_strlit("}");
    reveal_strlit("[");
    reveal_strlit("]");
    reveal_strlit(":");
    reveal_strlit(",");
    reveal_strlit("action");
    reveal_strlit("channels");
    reveal_strlit("markets");
    reveal_strlit("name");
    reveal_strlit("subscribe");
    reveal_strlit("{\"action\":\"subscribe\",\"channels\":[{\"markets\":[");
    reveal_strlit("],\"name\":");
    reveal_strlit("}]}");
    assert("action"@.len() != "channels"@.len() && "markets"@.len() != "name"@.len());
    let p = single(member(v, 1));
    lemma_two_members(v, "action"@, "channels"@);
    lemma_single(member(v, 1));
    lemma_two_members(p, "markets"@, "name"@);
    lemma_single(member(p, 0));
    lemma_bare("action"@);
    lemma_bare("channels"@);
    lemma_bare("markets"@);
    lemma_bare("name"@);
    lemma_bare("subscribe"@);
    assert("{\"action\":\"subscribe\",\"channels\":[{\"markets\":["@ =~= "{"@ + json_string(
        "action"@,
    ) + ":"@ + json_string("subscribe"@) + ","@ + json_string("channels"@) + ":"@ + "["@ + "{"@
        + json_string("markets"@) + ":"@ + "["@);
    assert("],\"name\":"@ =~= "]"@ + ","@ + json_string("name"@) + ":"@);
    assert("}]}"@ =~= "}"@ + "]"@ + "}"@);
    assert(crate::bitvavo::ws::subscribe_request(channel, market) =~= json_text(v));
}

/// Whether a value is that integer.
pub open spec fn is_integer(v: Json, n: u64) -> bool {
    v is Number && v->Number_0 is PosInt && v->Number_0->PosInt_0 == n
}

/// The request for a book of Bitvavo is an object of the action, the depth, the
/// market and the number of the request.
pub proof fn bitvavo_book_request_says_what_is_asked(v: Json, market: Seq<char>, depth: u64)
    requires
        is_object(v, seq!["action"@, "depth"@, "market"@, "requestId"@]),
        is_text(member(v, 0), "getBook"@),
        is_integer(member(v, 1), depth),
        is_text(member(v, 2), market),
        is_integer(member(v, 3), 1),
    ensures
        crate::bitvavo::ws::getbook_request(market, depth) == json_text(v),
{
    reveal_strlit("{");
    reveal_strlit("}");
    reveal_strlit("[");
    reveal_strlit("]");
    reveal_strlit(":");
    reveal_strlit(",");
    reveal_strlit("action");
    reveal_strlit("depth");
    reveal_strlit("market");
    reveal_strlit("requestId");
    reveal_strlit("getBook");
    reveal_strlit("{\"action\":\"getBook\",\"depth\":");
    reveal_strlit(",\"market\":");
    reveal_strlit(",\"requestId\":1}");
    assert("action"@[0] == 'a' && "depth"@[0] == 'd' && "market"@[0] == 'm' && "requestId"@[0]
        == 'r');
    lemma_four_members(v, "action"@, "depth"@, "market"@, "requestId"@);
    lemma_bare("action"@);
    lemma_bare("depth"@);
    lemma_bare("market"@);
    lemma_bare("requestId"@);
    lemma_bare("getBook"@);
    assert(decimal(1) =~= seq!['1']);
    assert("{\"action\":\"getBook\",\"depth\":"@ =~= "{"@ + json_string("action"@) + ":"@
        + json_string("getBook"@) + ","@ + json_string("depth"@) + ":"@);
    assert(",\"market\":"@ =~= ","@ + json_string("market"@) + ":"@);
    assert(",\"requestId\":1}"@ =~= ","@ + json_string("requestId"@) + ":"@ + decimal(1) + "}"@);
    assert(crate::bitvavo::ws::getbook_request(market, depth) =~= json_text(v));
}

/// The request that authenticates with Bitvavo is an object of the action, the
/// key, the signature and the moment. The signature is the code, in hexadecimal,
/// that the secret makes of the moment and the request that opens a connection.
pub proof fn bitvavo_authentication_says_who_asks(
    v: Json,
    key: Seq<char>,
    secret: Seq<char>,
    timestamp: u64,
)
    requires
        is_object(v, seq!["action"@, "key"@, "signature"@, "timestamp"@]),
        is_text(member(v, 0), "authenticate"@),
        is_text(member(v, 1), key),
        is_text(
            member(v, 2),
            hex(
                hmac_sha256(
                    encode_utf8(secret),
                    encode_utf8(decimal(timestamp as nat) + "GET/v2/websocket"@),
                ),
            ),
        ),
        is_integer(member(v, 3), timestamp),
    ensures
        crate::bitvavo::ws::auth_request(key, secret, timestamp) == json_text(v),
{
    reveal_strlit("{");
    reveal_strlit("}");
    reveal_strlit("[");
    reveal_strlit("]");
    reveal_strlit(":");
    reveal_strlit(",");
    reveal_strlit("action");
    reveal_strlit("key");
    reveal_strlit("signature");
    reveal_strlit("timestamp");
    reveal_strlit("authenticate");
    reveal_strlit("{\"action\":\"authenticate\",\"key\":");
    reveal_strlit(",\"signature\":");
    reveal_strlit(",\"timestamp\":");
    assert("action"@[0] == 'a' && "key"@[0] == 'k' && "signature"@[0] == 's' && "timestamp"@[0]
        == 't');
    lemma_four_members(v, "action"@, "key"@, "signature"@, "timestamp"@);
    lemma_bare("action"@);
    lemma_bare("key"@);
    lemma_bare("signature"@);
    lemma_bare("timestamp"@);
    lemma_bare("authenticate"@);
    assert("{\"action\":\"authenticate\",\"key\":"@ =~= "{"@ + json_string("action"@) + ":"@
        + json_string("authenticate"@) + ","@ + json_string("key"@) + ":"@);
    assert(",\"signature\":"@ =~= ","@ + json_string("signature"@) + ":"@);
    assert(",\"timestamp\":"@ =~= ","@ + json_string("timestamp"@) + ":"@);
    assert(crate::bitvavo::ws::auth_request(key, secret, timestamp) =~= json_text(v));
}

} // verus!

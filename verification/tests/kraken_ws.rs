//! The Kraken side of a connection.

use cryptomeria_ingest::config::DataKind;
use cryptomeria_ingest::items::MarketDataItem;
use cryptomeria_ingest::json::Json;
use cryptomeria_ingest::json::JsonNumber;
use cryptomeria_ingest::json::JsonText;
use cryptomeria_ingest::json::Reading;
use cryptomeria_ingest::kraken::types::KrakenWsMessage;
use cryptomeria_ingest::kraken::ws::build_instrument_subscribe_msg;
use cryptomeria_ingest::kraken::ws::build_subscribe_msg;
use cryptomeria_ingest::kraken::ws::KrakenAdapter;
use cryptomeria_ingest::num::FloatOp;
use cryptomeria_ingest::num::Num;
use serde_json::Value;

fn num(x: f64) -> Num {
    Num::new(x.to_bits(), x.to_string())
}

fn unit(op: FloatOp, a: Num, b: Num) -> Num {
    let (x, y) = (f64::from_bits(a.bits), f64::from_bits(b.bits));
    num(match op {
        FloatOp::Sum => x + y,
        FloatOp::Difference => x - y,
        FloatOp::PercentBelow => x * (1.0 - y / 100.0),
        FloatOp::PercentAbove => x * (1.0 + y / 100.0),
    })
}

trait AsFloat {
    type Float;
    fn f(&self) -> Self::Float;
}

impl AsFloat for Num {
    type Float = f64;
    fn f(&self) -> f64 {
        f64::from_bits(self.bits)
    }
}

impl AsFloat for Option<Num> {
    type Float = Option<f64>;
    fn f(&self) -> Option<f64> {
        self.as_ref().map(|n| n.f())
    }
}

fn reading(x: f64) -> Reading {
    Reading {
        num: num(x),
        millis: (x * 1000.0) as u64,
        whole: x as i64,
        rounded: num(format!("{x:.8}").parse::<f64>().unwrap()),
    }
}

fn text(s: &str) -> JsonText {
    JsonText { text: s.to_string(), reading: s.parse::<f64>().ok().map(reading) }
}

fn json(v: &Value) -> Json {
    match v {
        Value::Null => Json::Null,
        Value::Bool(b) => Json::Bool(*b),
        Value::Number(n) => Json::Number(match (n.as_u64(), n.as_i64()) {
            (Some(u), _) => JsonNumber::PosInt(u, reading(n.as_f64().unwrap())),
            (None, Some(i)) => JsonNumber::NegInt(i, reading(n.as_f64().unwrap())),
            _ => JsonNumber::Float(reading(n.as_f64().unwrap()), n.to_string()),
        }),
        Value::String(s) => Json::Str(text(s)),
        Value::Array(a) => Json::Arr(a.iter().map(json).collect()),
        Value::Object(o) => Json::Obj(o.iter().map(|(k, v)| (k.clone(), json(v))).collect()),
    }
}

fn document(s: &str) -> Json {
    json(&serde_json::from_str(s).unwrap())
}

fn message(d: &Json) -> KrakenWsMessage<'_> {
    KrakenWsMessage::from_value(d).unwrap()
}

fn adapter() -> KrakenAdapter {
    KrakenAdapter::new(
        "XBT/USD".into(),
        "global".into(),
        num(0.0),
        None,
        DataKind::LOB | DataKind::TRADE,
        false,
        false,
    )
}

fn adapter_with_kind(data_kind: DataKind) -> KrakenAdapter {
    KrakenAdapter::new(
        "XBT/USD".into(),
        "global".into(),
        num(0.0),
        None,
        data_kind,
        false,
        false,
    )
}

fn adapter_with_filter(max_level: Option<usize>, max_level_pct: f64) -> KrakenAdapter {
    KrakenAdapter::new(
        "XBT/USD".into(),
        "global".into(),
        num(max_level_pct),
        max_level,
        DataKind::LOB,
        false,
        false,
    )
}

#[test]
fn kraken_ws_test_build_subscribe_msg() {
    let msg = build_subscribe_msg("book", "BTC/USD");
    let v: serde_json::Value = serde_json::from_str(&msg).unwrap();
    assert_eq!(v["method"], "subscribe");
    assert_eq!(v["params"]["channel"], "book");
    assert_eq!(v["params"]["symbol"][0], "BTC/USD");
}

#[test]
fn test_build_instrument_subscribe_msg() {
    let msg = build_instrument_subscribe_msg();
    let v: serde_json::Value = serde_json::from_str(&msg).unwrap();
    assert_eq!(v["method"], "subscribe");
    assert_eq!(v["params"]["channel"], "instrument");
    assert!(
        v["params"].get("symbol").is_none(),
        "instrument channel must not filter by symbol"
    );
}

#[test]
fn kraken_ws_test_subscribe_msgs() {
    let a = adapter();
    let msgs = a.subscribe_msgs();
    assert_eq!(msgs.len(), 2);
    let names: Vec<String> = msgs.iter().map(|(c, _)| c.clone()).collect();
    assert!(names.contains(&"book".to_string()));
    assert!(names.contains(&"trade".to_string()));
    for (_, m) in &msgs {
        let v: serde_json::Value = serde_json::from_str(m).unwrap();
        assert_eq!(v["method"], "subscribe");
    }
}

#[test]
fn kraken_ws_test_subscribe_msgs_lob_only() {
    let a = adapter_with_kind(DataKind::LOB);
    let msgs = a.subscribe_msgs();
    assert_eq!(msgs.len(), 1);
    assert_eq!(msgs[0].0, "book");
    assert!(msgs[0].1.contains("\"book\""));
}

#[test]
fn kraken_ws_test_subscribe_msgs_trade_only() {
    let a = adapter_with_kind(DataKind::TRADE);
    let msgs = a.subscribe_msgs();
    assert_eq!(msgs.len(), 1);
    assert_eq!(msgs[0].0, "trade");
    assert!(msgs[0].1.contains("\"trade\""));
}

#[test]
fn ws_test_adapter_threads_checksum_log() {
    // The opt-in flag must reach the adapter so process_msg/verify_checksum
    // can log mismatches at warn level under either opt-in or DEBUG.
    let on = KrakenAdapter::new(
        "XBT/USD".into(),
        "global".into(),
        num(0.0),
        None,
        DataKind::LOB,
        true,
        false,
    );
    assert!(
        on.checksum_log,
        "checksum_log=true must be retained on the adapter"
    );

    let off = KrakenAdapter::new(
        "XBT/USD".into(),
        "global".into(),
        num(0.0),
        None,
        DataKind::LOB,
        false,
        false,
    );
    assert!(!off.checksum_log, "checksum_log=false by default");
}

#[test]
fn test_handle_heartbeat() {
    let a = adapter();
    let msg_doc = document(r#"{"channel":"heartbeat"}"#);
    let msg = message(&msg_doc);
    assert!(a.handle_heartbeat(&msg));
}

#[test]
fn test_handle_heartbeat_event() {
    let a = adapter();
    let msg_doc = document(r#"{"method":"ping"}"#);
    let msg = message(&msg_doc);
    assert!(a.handle_heartbeat(&msg));
}

#[test]
fn kraken_ws_test_handle_heartbeat_trade_false() {
    let a = adapter();
    let msg_doc = document(r#"{"channel":"trade","data":[{"symbol":"BTC/USD","price":100.0,"qty":1.0,"side":"buy","trade_id":1,"timestamp":0}]}"#);
    let msg = message(&msg_doc);
    assert!(!a.handle_heartbeat(&msg));
}

#[test]
fn kraken_ws_test_handle_message_trade() {
    let mut a = adapter();
    let msg_doc = document(r#"{"channel":"trade","data":[{"symbol":"BTC/USD","price":99.5,"qty":3.0,"side":"sell","trade_id":42,"timestamp":"0"}]}"#);
    let msg = message(&msg_doc);
    let item = a.handle_message(&msg, &unit).expect("expected trade item");
    match item {
        MarketDataItem::Trade(t) => {
            assert_eq!(t.price.f(), 99.5);
            assert_eq!(t.size.f(), 3.0);
            assert_eq!(t.side, "sell");
            assert_eq!(t.exchange, "kraken");
            assert_eq!(t.trade_id.as_deref(), Some("42"));
            assert_eq!(t.seq_id, Some(42));
        }
        _ => panic!("expected Trade item"),
    }
}

#[test]
fn kraken_ws_test_handle_message_trade_parse_failure_returns_none() {
    let mut a = adapter();
    let msg_doc = document(r#"{"channel":"trade","data":[]}"#);
    let msg = message(&msg_doc);
    assert!(a.handle_message(&msg, &unit).is_none());
}

#[test]
fn kraken_ws_test_handle_message_trade_filtered_when_lob_only() {
    let mut a = adapter_with_kind(DataKind::LOB);
    let msg_doc = document(r#"{"channel":"trade","data":[{"symbol":"BTC/USD","price":99.5,"qty":3.0,"side":"sell","trade_id":42,"timestamp":"0"}]}"#);
    let msg = message(&msg_doc);
    assert!(a.handle_message(&msg, &unit).is_none());
}

#[test]
fn kraken_ws_test_handle_message_lob_filtered_when_trade_only() {
    let mut a = adapter_with_kind(DataKind::TRADE);
    let msg_doc = document(r#"{"channel":"book","type":"snapshot","data":[{"symbol":"XBT/USD","bids":[{"price":50000.0,"qty":1.0}],"asks":[{"price":50100.0,"qty":1.0}],"timestamp":"2024-01-15T10:30:00.000000Z"}]}"#);
    let msg = message(&msg_doc);
    assert!(a.handle_message(&msg, &unit).is_none());
}

#[test]
fn test_handle_message_heartbeat_status_event_unknown_return_none() {
    let mut a = adapter();
    let hb_doc = document(r#"{"channel":"heartbeat"}"#);
    let hb = message(&hb_doc);
    let st_doc = document(r#"{"channel":"status"}"#);
    let st = message(&st_doc);
    let ev_doc = document(r#"{"method":"ping"}"#);
    let ev = message(&ev_doc);
    let un_doc = document(r#"{"channel":"nonsense"}"#);
    let un = message(&un_doc);
    assert!(a.handle_message(&hb, &unit).is_none());
    assert!(a.handle_message(&st, &unit).is_none());
    assert!(a.handle_message(&ev, &unit).is_none());
    assert!(a.handle_message(&un, &unit).is_none());
}

#[test]
fn ws_test_snapshot_memory_full_emitted_filtered() {
    let mut a = adapter_with_filter(Some(2), 0.0); // filter to top 2
    let msg_doc = document(r#"{
            "channel": "book",
            "type": "snapshot",
            "data": [{
                "symbol": "XBT/USD",
                "bids": [
                    {"price": 50000.0, "qty": 1.0},
                    {"price": 49900.0, "qty": 2.0},
                    {"price": 49800.0, "qty": 3.0},
                    {"price": 49700.0, "qty": 4.0},
                    {"price": 49600.0, "qty": 5.0}
                ],
                "asks": [
                    {"price": 50100.0, "qty": 1.0},
                    {"price": 50200.0, "qty": 2.0},
                    {"price": 50300.0, "qty": 3.0},
                    {"price": 50400.0, "qty": 4.0},
                    {"price": 50500.0, "qty": 5.0}
                ],
                "checksum": 0,
                "timestamp": "2024-01-15T10:30:00.000000Z"
            }]
        }"#);
    let msg = message(&msg_doc);

    let item = a.handle_message(&msg, &unit).expect("snapshot should emit a lob");
    match &item {
        MarketDataItem::Lob(lob) => {
            assert_eq!(lob.bids.len(), 2, "emitted lob is filtered to 2 bids");
            assert_eq!(lob.asks.len(), 2, "emitted lob is filtered to 2 asks");
            assert_eq!(lob.exchange, "kraken");
        }
        _ => panic!("expected Lob item"),
    }

    // In-memory book must retain ALL 5 levels — filtering did NOT touch the book.
    assert_eq!(a.book.num_bids(), 5, "memory book must have all 5 bids");
    assert_eq!(a.book.num_asks(), 5, "memory book must have all 5 asks");

    // full_lob_item returns all levels.
    let full = a.book.full_lob_item(0, "kraken", &unit).unwrap();
    assert_eq!(full.bids.len(), 5);
    assert_eq!(full.asks.len(), 5);
}

#[test]
fn ws_test_update_memory_full_after_filtered_emit() {
    let mut a = adapter_with_filter(Some(2), 0.0);
    let snap_doc = document(r#"{
            "channel": "book",
            "type": "snapshot",
            "data": [{
                "symbol": "XBT/USD",
                "bids": [
                    {"price": 50000.0, "qty": 1.0},
                    {"price": 49900.0, "qty": 2.0},
                    {"price": 49800.0, "qty": 3.0},
                    {"price": 49700.0, "qty": 4.0},
                    {"price": 49600.0, "qty": 5.0}
                ],
                "asks": [
                    {"price": 50100.0, "qty": 1.0},
                    {"price": 50200.0, "qty": 2.0},
                    {"price": 50300.0, "qty": 3.0},
                    {"price": 50400.0, "qty": 4.0},
                    {"price": 50500.0, "qty": 5.0}
                ],
                "checksum": 0,
                "timestamp": "2024-01-15T10:30:00.000000Z"
            }]
        }"#);
    let snap = message(&snap_doc);
    a.handle_message(&snap, &unit);
    assert_eq!(a.book.num_bids(), 5);
    assert_eq!(a.book.num_asks(), 5);

    // Update: remove best bid (50000 → qty 0), add new ask (50600).
    let upd_doc = document(r#"{
            "channel": "book",
            "type": "update",
            "data": [{
                "symbol": "XBT/USD",
                "bids": [{"price": 50000.0, "qty": 0}],
                "asks": [{"price": 50600.0, "qty": 6.0}],
                "checksum": 0,
                "timestamp": "2024-01-15T10:30:01.000000Z"
            }]
        }"#);
    let upd = message(&upd_doc);
    a.handle_message(&upd, &unit);

    // Memory reflects the update: 4 bids (50000 removed), 6 asks (50600 added).
    assert_eq!(a.book.num_bids(), 4, "50000 bid removed → 4 bids");
    assert_eq!(a.book.num_asks(), 6, "50600 ask added → 6 asks");
}

#[test]
fn test_on_reconnect_resets_book_and_prev_lob() {
    let mut a = adapter();
    let snap_doc = document(r#"{
            "channel": "book",
            "type": "snapshot",
            "data": [{
                "symbol": "XBT/USD",
                "bids": [{"price": 50000.0, "qty": 1.0}],
                "asks": [{"price": 50100.0, "qty": 1.0}],
                "checksum": 0,
                "timestamp": "2024-01-15T10:30:00.000000Z"
            }]
        }"#);
    let snap = message(&snap_doc);
    a.handle_message(&snap, &unit);
    assert_eq!(a.book.num_bids(), 1, "snapshot must populate the book");
    assert!(a.prev_lob.is_some(), "an emit must have populated prev_lob");

    // Reconnect must wipe the book so the next snapshot re-seeds cleanly.
    let items = a.on_reconnect();
    assert!(items.is_empty(), "kraken has no REST snapshot to fetch");
    assert_eq!(a.book.num_bids(), 0, "book must be reset on reconnect");
    assert_eq!(a.book.num_asks(), 0, "book must be reset on reconnect");
    assert!(
        a.prev_lob.is_none(),
        "prev_lob must be cleared on reconnect"
    );
}

#[test]
fn test_handle_message_resets_book_on_sequence_gap() {
    let mut a = adapter();
    let snap_doc = document(r#"{
            "channel": "book",
            "type": "snapshot",
            "sequence": 1,
            "data": [{
                "symbol": "XBT/USD",
                "bids": [{"price": 50000.0, "qty": 1.0}],
                "asks": [{"price": 50100.0, "qty": 1.0}],
                "checksum": 0,
                "timestamp": "2024-01-15T10:30:00.000000Z"
            }]
        }"#);
    let snap = message(&snap_doc);
    a.handle_message(&snap, &unit);
    assert_eq!(a.book.num_bids(), 1, "snapshot seeds the book");

    // A gap (1 -> 5) means updates 2..4 were lost: the book is untrustworthy.
    let upd_doc = document(r#"{
            "channel": "book",
            "type": "update",
            "sequence": 5,
            "data": [{
                "symbol": "XBT/USD",
                "bids": [{"price": 49950.0, "qty": 1.0}],
                "checksum": 0,
                "timestamp": "2024-01-15T10:30:01.000000Z"
            }]
        }"#);
    let upd = message(&upd_doc);
    let item = a.handle_message(&upd, &unit);
    assert!(
        item.is_none(),
        "resync path must not emit from a corrupt book"
    );
    assert_eq!(
        a.book.num_bids(),
        0,
        "gap must trigger a book reset (snapshot wiped)"
    );
    assert!(!a.book.needs_resync(), "reset must clear the resync flag");
}

#[test]
fn test_handle_message_checksum_mismatch_is_warn_only() {
    // Isolate the checksum path: a continuous sequence (no gap) but a
    // checksum that disagrees with the locally-computed CRC32. Because the
    // exact Kraken string format cannot be reconstructed from parsed f64's,
    // a checksum mismatch is observable-only (warn + flag) and does NOT
    // wipe the book — the authoritative reset signal is a sequence gap.
    let mut a = adapter();
    let snap_doc = document(r#"{
            "channel": "book",
            "type": "snapshot",
            "sequence": 1,
            "data": [{
                "symbol": "XBT/USD",
                "bids": [{"price": 50000.0, "qty": 1.0}],
                "asks": [{"price": 50100.0, "qty": 1.0}],
                "checksum": 0,
                "timestamp": "2024-01-15T10:30:00.000000Z"
            }]
        }"#);
    let snap = message(&snap_doc);
    a.handle_message(&snap, &unit);
    assert_eq!(a.book.num_bids(), 1, "snapshot seeds the book");
    assert!(!a.book.checksum_failed());

    let real_checksum = a.book.compute_checksum(10);
    let wrong = real_checksum.wrapping_add(1) as i64; // deliberate mismatch
    let upd_doc = document(&format!(
        r#"{{
            "channel": "book",
            "type": "update",
            "sequence": 2,
            "data": [{{
                "symbol": "XBT/USD",
                "bids": [{{"price": 49950.0, "qty": 1.0}}],
                "checksum": {},
                "timestamp": "2024-01-15T10:30:01.000000Z"
            }}]
        }}"#,
        wrong
    ));
    let upd = message(&upd_doc);

    // Continuous sequence: no reset, but the mismatch is flagged.
    assert!(!a.book.needs_resync(), "no sequence gap -> no resync");
    let item = a.handle_message(&upd, &unit);
    assert!(
        a.book.checksum_failed(),
        "checksum mismatch must be flagged"
    );
    // The (possibly corrupt) but non-crossed book is still emitted; the
    // crossing guard guarantees no crossed data ever leaves the adapter.
    assert!(
        item.is_some(),
        "warn-only path still emits a non-crossed lob"
    );
    assert_eq!(
        a.book.num_bids(),
        2,
        "book is retained (not wiped by checksum)"
    );
}

#[test]
fn test_handle_message_resets_book_on_out_of_order_sequence() {
    let mut a = adapter();
    let snap_doc = document(r#"{
            "channel": "book",
            "type": "snapshot",
            "sequence": 10,
            "data": [{
                "symbol": "XBT/USD",
                "bids": [{"price": 50000.0, "qty": 1.0}],
                "asks": [{"price": 50100.0, "qty": 1.0}],
                "checksum": 0,
                "timestamp": "2024-01-15T10:30:00.000000Z"
            }]
        }"#);
    let snap = message(&snap_doc);
    a.handle_message(&snap, &unit);
    assert_eq!(a.book.num_bids(), 1);

    // A backwards sequence (10 -> 4) is a corrupted/reordered stream.
    let upd_doc = document(r#"{
            "channel": "book",
            "type": "update",
            "sequence": 4,
            "data": [{
                "symbol": "XBT/USD",
                "bids": [{"price": 49900.0, "qty": 1.0}],
                "checksum": 0,
                "timestamp": "2024-01-15T10:30:01.000000Z"
            }]
        }"#);
    let upd = message(&upd_doc);
    assert!(a.handle_message(&upd, &unit).is_none());
    assert_eq!(
        a.book.num_bids(),
        0,
        "out-of-order sequence must reset the book"
    );
}

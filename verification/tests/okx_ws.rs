//! The OKX side of a connection.

use cryptomeria_ingest::config::DataKind;
use cryptomeria_ingest::items::MarketDataItem;
use cryptomeria_ingest::json::Json;
use cryptomeria_ingest::json::JsonNumber;
use cryptomeria_ingest::json::JsonText;
use cryptomeria_ingest::json::Reading;
use cryptomeria_ingest::num::FloatOp;
use cryptomeria_ingest::num::Num;
use cryptomeria_ingest::okx::types::OkxWsMessage;
use cryptomeria_ingest::okx::ws::build_subscribe_msg;
use cryptomeria_ingest::okx::ws::OkxAdapter;
use serde_json::Value;

fn num(x: f64) -> Num {
    Num::new(x.to_bits(), x.to_string())
}

fn unit(op: FloatOp, a: Num, b: Num) -> Num {
    let (x, y) = (f64::from_bits(a.bits), f64::from_bits(b.bits));
    num(match op {
        FloatOp::Sum => x + y,
        FloatOp::Difference => x - y,
        FloatOp::PercentBelow => x * (1.0 - y / 100.0),
        FloatOp::PercentAbove => x * (1.0 + y / 100.0),
    })
}

trait AsFloat {
    type Float;
    fn f(&self) -> Self::Float;
}

impl AsFloat for Num {
    type Float = f64;
    fn f(&self) -> f64 {
        f64::from_bits(self.bits)
    }
}

impl AsFloat for Option<Num> {
    type Float = Option<f64>;
    fn f(&self) -> Option<f64> {
        self.as_ref().map(|n| n.f())
    }
}

fn reading(x: f64) -> Reading {
    Reading {
        num: num(x),
        millis: (x * 1000.0) as u64,
        whole: x as i64,
        rounded: num(format!("{x:.8}").parse::<f64>().unwrap()),
    }
}

fn text(s: &str) -> JsonText {
    JsonText { text: s.to_string(), reading: s.parse::<f64>().ok().map(reading) }
}

fn json(v: &Value) -> Json {
    match v {
        Value::Null => Json::Null,
        Value::Bool(b) => Json::Bool(*b),
        Value::Number(n) => Json::Number(match (n.as_u64(), n.as_i64()) {
            (Some(u), _) => JsonNumber::PosInt(u, reading(n.as_f64().unwrap())),
            (None, Some(i)) => JsonNumber::NegInt(i, reading(n.as_f64().unwrap())),
            _ => JsonNumber::Float(reading(n.as_f64().unwrap()), n.to_string()),
        }),
        Value::String(s) => Json::Str(text(s)),
        Value::Array(a) => Json::Arr(a.iter().map(json).collect()),
        Value::Object(o) => Json::Obj(o.iter().map(|(k, v)| (k.clone(), json(v))).collect()),
    }
}

fn document(s: &str) -> Json {
    json(&serde_json::from_str(s).unwrap())
}

fn message(d: &Json) -> OkxWsMessage<'_> {
    OkxWsMessage::from_value(d).unwrap()
}

fn adapter() -> OkxAdapter {
    OkxAdapter::new(
        "BTC-USDT".into(),
        "global".into(),
        num(0.0),
        None,
        DataKind::LOB | DataKind::TRADE,
        false,
    )
}

fn adapter_with_kind(data_kind: DataKind) -> OkxAdapter {
    OkxAdapter::new(
        "BTC-USDT".into(),
        "global".into(),
        num(0.0),
        None,
        data_kind,
        false,
    )
}

fn adapter_with_filter(max_level: Option<usize>, max_level_pct: f64) -> OkxAdapter {
    OkxAdapter::new(
        "BTC-USDT".into(),
        "global".into(),
        num(max_level_pct),
        max_level,
        DataKind::LOB,
        false,
    )
}

#[test]
fn okx_ws_test_build_subscribe_msg() {
    let msg = build_subscribe_msg("books", "BTC-USDT");
    let v: serde_json::Value = serde_json::from_str(&msg).unwrap();
    assert_eq!(v["op"], "subscribe");
    assert_eq!(v["args"][0]["channel"], "books");
    assert_eq!(v["args"][0]["instId"], "BTC-USDT");
}

#[test]
fn okx_ws_test_subscribe_msgs() {
    let a = adapter();
    let msgs = a.subscribe_msgs();
    assert_eq!(msgs.len(), 2);
    let names: Vec<String> = msgs.iter().map(|(c, _)| c.clone()).collect();
    assert!(names.contains(&"books".to_string()));
    assert!(names.contains(&"trades".to_string()));
    for (_, m) in &msgs {
        let v: serde_json::Value = serde_json::from_str(m).unwrap();
        assert_eq!(v["op"], "subscribe");
    }
}

#[test]
fn okx_ws_test_subscribe_msgs_lob_only() {
    let a = adapter_with_kind(DataKind::LOB);
    let msgs = a.subscribe_msgs();
    assert_eq!(msgs.len(), 1);
    assert_eq!(msgs[0].0, "books");
    assert!(msgs[0].1.contains("\"books\""));
}

#[test]
fn okx_ws_test_subscribe_msgs_trade_only() {
    let a = adapter_with_kind(DataKind::TRADE);
    let msgs = a.subscribe_msgs();
    assert_eq!(msgs.len(), 1);
    assert_eq!(msgs[0].0, "trades");
    assert!(msgs[0].1.contains("\"trades\""));
}

#[test]
fn okx_ws_test_handle_message_trade_filtered_when_lob_only() {
    let mut a = adapter_with_kind(DataKind::LOB);
    let msg_doc = document(r#"{"arg":{"channel":"trades","instId":"BTC-USDT"},"data":[{"px":"100.5","sz":"2.5","side":"buy","tradeId":"t1","ts":"1700000000000"}]}"#);
    let msg = message(&msg_doc);
    assert!(a.handle_message(&msg, &unit).is_none());
}

#[test]
fn okx_ws_test_handle_message_lob_filtered_when_trade_only() {
    let mut a = adapter_with_kind(DataKind::TRADE);
    let msg_doc = document(r#"{"arg":{"channel":"books","instId":"BTC-USDT"},"data":[{"ts":"1700000000000","bids":[["100.0","1.5"]],"asks":[["100.5","2.0"]]}]}"#);
    let msg = message(&msg_doc);
    assert!(a.handle_message(&msg, &unit).is_none());
}

#[test]
fn okx_ws_test_instrument_and_url() {
    let a = adapter();
    assert_eq!(a.instrument(), "BTC-USDT");
    assert!(!a.url().is_empty());
}

#[test]
fn okx_ws_test_handle_heartbeat_event_true() {
    let a = adapter();
    let msg_doc = document(r#"{"event":"subscribe","arg":{"channel":"books","instId":"BTC-USDT"}}"#);
    let msg = message(&msg_doc);
    assert!(a.handle_heartbeat(&msg));
}

#[test]
fn okx_ws_test_handle_heartbeat_trade_false() {
    let a = adapter();
    let msg_doc = document(r#"{"arg":{"channel":"trades","instId":"BTC-USDT"},"data":[{"px":"100","sz":"1","side":"buy","tradeId":"1","ts":"1700000000000"}]}"#);
    let msg = message(&msg_doc);
    assert!(!a.handle_heartbeat(&msg));
}

#[test]
fn okx_ws_test_keepalive_interval_ms() {
    let a = adapter();
    assert_eq!(a.keepalive_interval_ms(), 18000);
}

#[test]
fn okx_ws_test_ping_msg_none() {
    // OKX's V5 WebSocket API now uses server-initiated ping/pong.
    // Sending {"event":"ping"} as a client is rejected with error 60012
    // ("Illegal request"), so we fall back to WebSocket-level ping frames
    // and handle server-initiated application-level pings via
    // `server_ping_response`.
    let a = adapter();
    assert!(
        a.ping_msg().is_none(),
        "OKX must not send client-initiated {{\"event\":\"ping\"}} (rejected with 60012)"
    );
}

#[test]
fn test_is_pong_true_for_pong_event() {
    let a = adapter();
    let msg_doc = document(r#"{"event":"pong"}"#);
    let msg = message(&msg_doc);
    assert!(a.is_pong(&msg));
}

#[test]
fn test_is_pong_false_for_subscribe_event() {
    let a = adapter();
    let msg_doc = document(r#"{"event":"subscribe","arg":{"channel":"books","instId":"BTC-USDT"}}"#);
    let msg = message(&msg_doc);
    assert!(!a.is_pong(&msg));
}

#[test]
fn test_server_ping_response_with_ts() {
    let a = adapter();
    // Server sends {"event":"ping","ts":"<timestamp_ms>"}
    let msg_doc = document(r#"{"event":"ping","ts":"1621571640"}"#);
    let msg = message(&msg_doc);
    let resp = a
        .server_ping_response(&msg)
        .expect("server ping must produce a pong response");
    let v: serde_json::Value = serde_json::from_str(&resp).unwrap();
    assert_eq!(v["event"], "pong");
    assert_eq!(v["ts"], "1621571640");
}

#[test]
fn test_server_ping_response_without_ts() {
    let a = adapter();
    let msg_doc = document(r#"{"event":"ping"}"#);
    let msg = message(&msg_doc);
    let resp = a
        .server_ping_response(&msg)
        .expect("server ping must produce a pong response");
    let v: serde_json::Value = serde_json::from_str(&resp).unwrap();
    assert_eq!(v["event"], "pong");
    assert!(
        v.get("ts").is_none(),
        "pong should not include ts when ping had none"
    );
}

#[test]
fn test_server_ping_response_non_ping_returns_none() {
    let a = adapter();

    // A real pong from the server is not a server ping.
    let msg_doc = document(r#"{"event":"pong","ts":"1621571640"}"#);
    let msg = message(&msg_doc);
    assert!(!a.server_ping_response(&msg).is_some());

    // A subscribe confirmation is not a server ping.
    let msg_doc = document(r#"{"event":"subscribe","arg":{"channel":"books","instId":"BTC-USDT"}}"#);
    let msg = message(&msg_doc);
    assert!(a.server_ping_response(&msg).is_none());

    // A trade message is not a server ping.
    let msg_doc = document(r#"{"arg":{"channel":"trades","instId":"BTC-USDT"},"data":[]}"#);
    let msg = message(&msg_doc);
    assert!(a.server_ping_response(&msg).is_none());
}

#[test]
fn okx_ws_test_handle_message_trade() {
    let mut a = adapter();
    let msg_doc = document(r#"{"arg":{"channel":"trades","instId":"BTC-USDT"},"data":[{"px":"100.5","sz":"2.5","side":"buy","tradeId":"t1","ts":"1700000000000","seqId":99}]}"#);
    let msg = message(&msg_doc);
    let item = a.handle_message(&msg, &unit).expect("expected a trade item");
    match item {
        MarketDataItem::Trade(t) => {
            assert_eq!(t.price.f(), 100.5);
            assert_eq!(t.size.f(), 2.5);
            assert_eq!(t.side, "buy");
            assert_eq!(t.exchange, "okx");
            assert_eq!(t.trade_id.as_deref(), Some("t1"));
            assert_eq!(t.seq_id, Some(99));
        }
        _ => panic!("expected Trade item"),
    }
}

#[test]
fn okx_ws_test_handle_message_trade_parse_failure_returns_none() {
    let mut a = adapter();
    let msg_doc = document(r#"{"arg":{"channel":"trades","instId":"BTC-USDT"},"data":[]}"#);
    let msg = message(&msg_doc);
    assert!(a.handle_message(&msg, &unit).is_none());
}

#[test]
fn okx_ws_test_handle_message_event_returns_none() {
    let mut a = adapter();
    let msg_doc = document(r#"{"event":"subscribe"}"#);
    let msg = message(&msg_doc);
    assert!(a.handle_message(&msg, &unit).is_none());
}

#[test]
fn okx_ws_test_handle_message_unknown_returns_none() {
    let mut a = adapter();
    let msg_doc = document(r#"{"arg":{"channel":"nonsense","instId":"BTC-USDT"}}"#);
    let msg = message(&msg_doc);
    assert!(a.handle_message(&msg, &unit).is_none());
}

#[test]
fn okx_ws_test_snapshot_memory_full_emitted_filtered() {
    let mut a = adapter_with_filter(Some(2), 0.0); // filter to top 2
    let msg_doc = document(r#"{
            "arg": {"channel": "books", "instId": "BTC-USDT"},
            "action": "snapshot",
            "data": [{
                "asks": [["101.0","1.0"],["102.0","2.0"],["103.0","3.0"],["104.0","4.0"],["105.0","5.0"]],
                "bids": [["100.0","1.0"],["99.0","2.0"],["98.0","3.0"],["97.0","4.0"],["96.0","5.0"]],
                "ts": "1000",
                "checksum": 0
            }]
        }"#);
    let msg = message(&msg_doc);

    let item = a.handle_message(&msg, &unit).expect("snapshot should emit a lob");
    match &item {
        MarketDataItem::Lob(lob) => {
            assert_eq!(lob.bids.len(), 2, "emitted lob is filtered to 2 bids");
            assert_eq!(lob.asks.len(), 2, "emitted lob is filtered to 2 asks");
            assert_eq!(lob.exchange, "okx");
        }
        _ => panic!("expected Lob item"),
    }

    // In-memory book must retain ALL 5 levels — filtering did NOT touch the book.
    assert_eq!(a.book.num_bids(), 5, "memory book must have all 5 bids");
    assert_eq!(a.book.num_asks(), 5, "memory book must have all 5 asks");

    // full_lob_item returns all levels.
    let full = a.book.full_lob_item(0, "okx", &unit).unwrap();
    assert_eq!(full.bids.len(), 5);
    assert_eq!(full.asks.len(), 5);
}

#[test]
fn okx_ws_test_update_memory_full_after_filtered_emit() {
    let mut a = adapter_with_filter(Some(2), 0.0);
    // Snapshot with 5 levels each side.
    let snap_doc = document(r#"{
            "arg": {"channel": "books", "instId": "BTC-USDT"},
            "action": "snapshot",
            "data": [{
                "asks": [["101.0","1.0"],["102.0","2.0"],["103.0","3.0"],["104.0","4.0"],["105.0","5.0"]],
                "bids": [["100.0","1.0"],["99.0","2.0"],["98.0","3.0"],["97.0","4.0"],["96.0","5.0"]],
                "ts": "1000",
                "checksum": 0
            }]
        }"#);
    let snap = message(&snap_doc);
    a.handle_message(&snap, &unit);
    assert_eq!(a.book.num_bids(), 5);
    assert_eq!(a.book.num_asks(), 5);

    // Update: remove best bid (100.0 → size 0), add new ask (106.0).
    let upd_doc = document(r#"{
            "arg": {"channel": "books", "instId": "BTC-USDT"},
            "action": "update",
            "data": [{
                "asks": [["106.0","6.0"]],
                "bids": [["100.0","0.0","0","0"]],
                "ts": "2000",
                "checksum": 0
            }]
        }"#);
    let upd = message(&upd_doc);
    a.handle_message(&upd, &unit);

    // Memory reflects the update: 4 bids (100.0 removed), 6 asks (106.0 added).
    assert_eq!(a.book.num_bids(), 4, "96.0 bid removed → 4 bids");
    assert_eq!(a.book.num_asks(), 6, "106.0 ask added → 6 asks");
}

#[test]
fn test_on_reconnect_resets_book() {
    let mut a = adapter();
    let snap_doc = document(r#"{
            "arg": {"channel": "books", "instId": "BTC-USDT"},
            "action": "snapshot",
            "data": [{
                "asks": [["101.0","1.0"],["102.0","2.0"]],
                "bids": [["100.0","1.0"],["99.0","2.0"]],
                "ts": "1000",
                "checksum": 0
            }]
        }"#);
    let snap = message(&snap_doc);
    a.handle_message(&snap, &unit);
    assert_eq!(a.book.num_bids(), 2, "snapshot must populate the book");
    assert!(a.prev_lob.is_some(), "an emit must have populated prev_lob");

    let items = a.on_reconnect();
    assert!(items.is_empty(), "okx has no REST snapshot to fetch");
    assert_eq!(a.book.num_bids(), 0, "book must be reset on reconnect");
    assert_eq!(a.book.num_asks(), 0, "book must be reset on reconnect");
    assert!(
        a.prev_lob.is_none(),
        "prev_lob must be cleared on reconnect"
    );
}

#[test]
fn test_handle_message_resets_on_needs_resync() {
    // A crossing update pushes a bid >= best ask; repair_crossing clears the
    // book and sets needs_resync. handle_message must detect this, reset, and
    // return None (do not emit a crossed/empty lob).
    let mut a = adapter_with_kind(DataKind::LOB);
    // Snapshot: bids 100, asks 101.
    let snap_doc = document(r#"{
            "arg": {"channel": "books", "instId": "BTC-USDT"},
            "action": "snapshot",
            "data": [{"bids":[["100.0","1.0"]],"asks":[["101.0","1.0"]],"ts":"0","checksum":0}]
        }"#);
    let snap = message(&snap_doc);
    a.handle_message(&snap, &unit);
    assert_eq!(a.book.num_bids(), 1);

    // Bad snapshot: asks below bids (bid 100 >= ask 99). bids are applied
    // first (no crossing yet since asks=101), then asks=99 are applied —
    // repair_crossing detects the cross on the ask side (after the flag
    // reset) and sets needs_resync.
    let bad_doc = document(r#"{
            "arg": {"channel": "books", "instId": "BTC-USDT"},
            "action": "snapshot",
            "data": [{"bids":[["100.0","1.0"]],"asks":[["99.0","1.0"]],"ts":"1","checksum":0}]
        }"#);
    let bad = message(&bad_doc);
    let item = a.handle_message(&bad, &unit);
    assert!(item.is_none(), "crossed book must not emit a lob");
    assert_eq!(a.book.num_bids(), 0, "book must be reset after resync");
    assert_eq!(a.book.num_asks(), 0);
    assert!(!a.book.needs_resync(), "reset must clear the resync flag");
}

#[test]
fn okx_ws_test_adapter_threads_checksum_log() {
    let on = OkxAdapter::new(
        "BTC-USDT".into(),
        "global".into(),
        num(0.0),
        None,
        DataKind::LOB,
        true,
    );
    assert!(
        on.checksum_log,
        "checksum_log=true must be retained on the adapter"
    );

    let off = OkxAdapter::new(
        "BTC-USDT".into(),
        "global".into(),
        num(0.0),
        None,
        DataKind::LOB,
        false,
    );
    assert!(!off.checksum_log, "checksum_log=false by default");
}

//! The Bitstamp side of a connection.

use cryptomeria_ingest::bitstamp::types::BitstampWsMessage;
use cryptomeria_ingest::bitstamp::ws::build_subscribe_msg;
use cryptomeria_ingest::bitstamp::ws::BitstampAdapter;
use cryptomeria_ingest::config::DataKind;
use cryptomeria_ingest::items::MarketDataItem;
use cryptomeria_ingest::json::Json;
use cryptomeria_ingest::json::JsonNumber;
use cryptomeria_ingest::json::JsonText;
use cryptomeria_ingest::json::Reading;
use cryptomeria_ingest::num::FloatOp;
use cryptomeria_ingest::num::Num;
use serde_json::Value;

fn num(x: f64) -> Num {
    Num::new(x.to_bits(), x.to_string())
}

fn unit(op: FloatOp, a: Num, b: Num) -> Num {
    let (x, y) = (f64::from_bits(a.bits), f64::from_bits(b.bits));
    num(match op {
        FloatOp::Sum => x + y,
        FloatOp::Difference => x - y,
        FloatOp::PercentBelow => x * (1.0 - y / 100.0),
        FloatOp::PercentAbove => x * (1.0 + y / 100.0),
    })
}

trait AsFloat {
    type Float;
    fn f(&self) -> Self::Float;
}

impl AsFloat for Num {
    type Float = f64;
    fn f(&self) -> f64 {
        f64::from_bits(self.bits)
    }
}

impl AsFloat for Option<Num> {
    type Float = Option<f64>;
    fn f(&self) -> Option<f64> {
        self.as_ref().map(|n| n.f())
    }
}

fn reading(x: f64) -> Reading {
    Reading {
        num: num(x),
        millis: (x * 1000.0) as u64,
        whole: x as i64,
        rounded: num(format!("{x:.8}").parse::<f64>().unwrap()),
    }
}

fn text(s: &str) -> JsonText {
    JsonText { text: s.to_string(), reading: s.parse::<f64>().ok().map(reading) }
}

fn json(v: &Value) -> Json {
    match v {
        Value::Null => Json::Null,
        Value::Bool(b) => Json::Bool(*b),
        Value::Number(n) => Json::Number(match (n.as_u64(), n.as_i64()) {
            (Some(u), _) => JsonNumber::PosInt(u, reading(n.as_f64().unwrap())),
            (None, Some(i)) => JsonNumber::NegInt(i, reading(n.as_f64().unwrap())),
            _ => JsonNumber::Float(reading(n.as_f64().unwrap()), n.to_string()),
        }),
        Value::String(s) => Json::Str(text(s)),
        Value::Array(a) => Json::Arr(a.iter().map(json).collect()),
        Value::Object(o) => Json::Obj(o.iter().map(|(k, v)| (k.clone(), json(v))).collect()),
    }
}

fn document(s: &str) -> Json {
    json(&serde_json::from_str(s).unwrap())
}

fn message(d: &Json) -> BitstampWsMessage<'_> {
    BitstampWsMessage::from_value(d).unwrap()
}

fn adapter() -> BitstampAdapter {
    BitstampAdapter::new(
        "BTC/USD".into(),
        "bitstamp".into(),
        "global".into(),
        "BTC/USD".into(),
        num(0.0),
        None,
        DataKind::LOB | DataKind::TRADE,
        false,
    )
}

fn adapter_with_kind(data_kind: DataKind) -> BitstampAdapter {
    BitstampAdapter::new(
        "BTC/USD".into(),
        "bitstamp".into(),
        "global".into(),
        "BTC/USD".into(),
        num(0.0),
        None,
        data_kind,
        false,
    )
}

fn adapter_with_filter(max_level: Option<usize>, max_level_pct: f64) -> BitstampAdapter {
    BitstampAdapter::new(
        "BTC/USD".into(),
        "bitstamp".into(),
        "global".into(),
        "BTC/USD".into(),
        num(max_level_pct),
        max_level,
        DataKind::LOB,
        false,
    )
}

#[test]
fn ws_test_build_subscribe_msg() {
    let msg = build_subscribe_msg("live_trades_btcusd");
    let v: serde_json::Value = serde_json::from_str(&msg).unwrap();
    assert_eq!(v["event"], "bts:subscribe");
    assert_eq!(v["data"]["channel"], "live_trades_btcusd");
}

#[test]
fn ws_test_subscribe_msgs() {
    let a = adapter();
    let msgs = a.subscribe_msgs();
    assert_eq!(msgs.len(), 2);
    let names: Vec<String> = msgs.iter().map(|(c, _)| c.clone()).collect();
    assert!(names.contains(&"diff_order_book_btcusd".to_string()));
    assert!(names.contains(&"live_trades_btcusd".to_string()));
    for (_, m) in &msgs {
        let v: serde_json::Value = serde_json::from_str(m).unwrap();
        assert_eq!(v["event"], "bts:subscribe");
    }
}

#[test]
fn ws_test_subscribe_msgs_lob_only() {
    let a = adapter_with_kind(DataKind::LOB);
    let msgs = a.subscribe_msgs();
    assert_eq!(msgs.len(), 1);
    assert_eq!(msgs[0].0, "diff_order_book_btcusd");
    assert!(msgs[0].1.contains("diff_order_book_btcusd"));
}

#[test]
fn ws_test_subscribe_msgs_trade_only() {
    let a = adapter_with_kind(DataKind::TRADE);
    let msgs = a.subscribe_msgs();
    assert_eq!(msgs.len(), 1);
    assert_eq!(msgs[0].0, "live_trades_btcusd");
    assert!(msgs[0].1.contains("live_trades_btcusd"));
}

#[test]
fn ws_test_handle_message_trade_filtered_when_lob_only() {
    let mut a = adapter_with_kind(DataKind::LOB);
    let msg_doc = document(r#"{"event":"live_trades","channel":"live_trades_btcusd","data":{"id":5,"price":"101.0","amount":"2.5","type":0,"timestamp":"1700000000","microtimestamp":"1700000000000000"}}"#);
    let msg = message(&msg_doc);
    assert!(a.handle_message(&msg, &unit).is_none());
}

#[test]
fn ws_test_handle_message_lob_filtered_when_trade_only() {
    let mut a = adapter_with_kind(DataKind::TRADE);
    let msg_doc = document(r#"{"channel":"diff_order_book_btcusd","data":{"timestamp":1700000000,"bids":[["100.0","1.5"]],"asks":[["100.5","2.0"]]},"event":"bts:subscription_succeeded"}"#);
    let msg = message(&msg_doc);
    assert!(a.handle_message(&msg, &unit).is_none());
}

#[test]
fn test_handle_heartbeat_false() {
    let a = adapter();
    let msg_doc = document(r#"{"event":"bts:subscription_succeeded","channel":"live_trades_btcusd"}"#);
    let msg = message(&msg_doc);
    assert!(!a.handle_heartbeat(&msg));
}

#[test]
fn ws_test_keepalive_interval_ms() {
    let a = adapter();
    assert_eq!(a.keepalive_interval_ms(), 5000);
}

#[test]
fn ws_test_ping_msg_none() {
    let a = adapter();
    assert!(a.ping_msg().is_none(), "Bitstamp uses raw ws-level ping");
}

#[test]
fn ws_test_handle_message_trade() {
    let mut a = adapter();
    let msg_doc = document(r#"{"event":"live_trades","channel":"live_trades_btcusd","data":{"id":5,"price":"101.0","amount":"2.5","type":0,"timestamp":"1700000000","microtimestamp":"1700000000000000"}}"#);
    let msg = message(&msg_doc);
    let item = a.handle_message(&msg, &unit).expect("expected trade item");
    match item {
        MarketDataItem::Trade(t) => {
            assert_eq!(t.price.f(), 101.0);
            assert_eq!(t.size.f(), 2.5);
            assert_eq!(t.side, "buy");
            assert_eq!(t.exchange, "bitstamp");
            assert_eq!(t.trade_id.as_deref(), Some("5"));
            assert_eq!(t.seq_id, Some(1));
        }
        _ => panic!("expected Trade item"),
    }
}

#[test]
fn test_handle_message_trade_seq_id_increments() {
    let mut a = adapter();
    let mk = |id: u64| {
        document(&format!(
            r#"{{"event":"trade","channel":"live_trades_btcusd","data":{{"id":{id},"price":"100.0","amount":"1.0","type":0,"timestamp":"0","microtimestamp":"0","buy_order_id":0,"sell_order_id":0}}}}"#,
        ))
    };
    let t1 = match a.handle_message(&message(&mk(10)), &unit).unwrap() {
        MarketDataItem::Trade(t) => t,
        _ => panic!("expected Trade item"),
    };
    let t2 = match a.handle_message(&message(&mk(11)), &unit).unwrap() {
        MarketDataItem::Trade(t) => t,
        _ => panic!("expected Trade item"),
    };
    assert_eq!(t1.seq_id, Some(1));
    assert_eq!(t2.seq_id, Some(2));
}

#[test]
fn test_handle_message_trade_sell() {
    let mut a = adapter();
    let msg_doc = document(r#"{"event":"trade","channel":"live_trades_btcusd","data":{"id":6,"price":"98.0","amount":"1.0","type":1,"timestamp":"1700000000","microtimestamp":"1700000000000000"}}"#);
    let msg = message(&msg_doc);
    let item = a.handle_message(&msg, &unit).expect("expected trade item");
    match item {
        MarketDataItem::Trade(t) => assert_eq!(t.side, "sell"),
        _ => panic!("expected Trade item"),
    }
}

#[test]
fn ws_test_handle_message_trade_parse_failure_returns_none() {
    let mut a = adapter();
    let msg_doc = document(r#"{"event":"trade","channel":"live_trades_btcusd","data":null}"#);
    let msg = message(&msg_doc);
    assert!(a.handle_message(&msg, &unit).is_none());
}

#[test]
fn ws_test_handle_message_event_returns_none() {
    let mut a = adapter();
    let msg_doc = document(r#"{"event":"bts:subscription_succeeded","channel":"live_trades_btcusd"}"#);
    let msg = message(&msg_doc);
    assert!(a.handle_message(&msg, &unit).is_none());
}

#[test]
fn ws_test_handle_message_unknown_returns_none() {
    let mut a = adapter();
    let msg_doc = document(r#"{"channel":"nonsense_btcusd","data":{"x":1}}"#);
    let msg = message(&msg_doc);
    assert!(a.handle_message(&msg, &unit).is_none());
}

#[test]
fn test_handle_message_lob_disabled_returns_empty_lob() {
    let mut a = adapter(); // data_kind = LOB | TRADE
    let msg_doc = document(r#"{"event":"snapshot","channel":"diff_order_book_btcusd","data":{"bids":[["100.0","1.5"]],"asks":[["101.0","2.0"]]}}"#);
    let msg = message(&msg_doc);
    let item = a
        .handle_message(&msg, &unit)
        .expect("disabled LOB should still emit an empty lob");
    match item {
        MarketDataItem::Lob(lob) => {
            assert_eq!(lob.exchange, "bitstamp");
            assert!(lob.bids.is_empty(), "disabled LOB must return empty bids");
            assert!(lob.asks.is_empty(), "disabled LOB must return empty asks");
        }
        _ => panic!("expected Lob item"),
    }
}

#[test]
fn test_handle_message_lob_disabled_dedup_suppresses_repeated_empty() {
    let mut a = adapter();
    let msg1_doc = document(r#"{"event":"snapshot","channel":"diff_order_book_btcusd","data":{"bids":[["100.0","1.5"]],"asks":[["101.0","2.0"]]}}"#);
    let msg1 = message(&msg1_doc);
    let msg2_doc = document(r#"{"event":"snapshot","channel":"diff_order_book_btcusd","data":{"bids":[["99.0","1.0"],["98.0","2.0"]],"asks":[["102.0","3.0"]]}}"#);
    let msg2 = message(&msg2_doc);
    // The first (snapshot) message emits the empty lob object.
    let first = a.handle_message(&msg1, &unit);
    assert!(first.is_some(), "first lob must be emitted");
    // A second, *different* real snapshot would normally produce a distinct lob
    // and be emitted; with LOB disabled it is always empty, so it is deduplicated.
    let second = a.handle_message(&msg2, &unit);
    assert!(second.is_none(), "repeated empty lob must be deduplicated");
}

#[test]
fn test_snapshot_memory_full_emitted_empty_lob_disabled() {
    let mut a = adapter_with_filter(Some(2), 0.0);
    let msg_doc = document(r#"{
            "event": "snapshot",
            "channel": "diff_order_book_btcusd",
            "data": {
                "bids": [["100.0","1.0"],["99.0","2.0"],["98.0","3.0"],["97.0","4.0"],["96.0","5.0"]],
                "asks": [["101.0","1.0"],["102.0","2.0"],["103.0","3.0"],["104.0","4.0"],["105.0","5.0"]]
            }
        }"#);
    let msg = message(&msg_doc);

    let item = a.handle_message(&msg, &unit).expect("snapshot should emit a lob");
    match &item {
        MarketDataItem::Lob(lob) => {
            // Bitstamp LOB is disabled — emitted lob is always empty.
            assert!(lob.bids.is_empty(), "disabled lob has empty bids");
            assert!(lob.asks.is_empty(), "disabled lob has empty asks");
            assert_eq!(lob.exchange, "bitstamp");
        }
        _ => panic!("expected Lob item"),
    }

    // In-memory book must still retain ALL 5 levels.
    assert_eq!(a.book.num_bids(), 5, "memory book must have all 5 bids");
    assert_eq!(a.book.num_asks(), 5, "memory book must have all 5 asks");

    // full_lob_item returns all levels from memory.
    let full = a.book.full_lob_item(0, "bitstamp", &unit).unwrap();
    assert_eq!(full.bids.len(), 5);
    assert_eq!(full.asks.len(), 5);
}

//! The Bitvavo side of a connection.

use cryptomeria_ingest::bitvavo::types::BitvavoWsMessage;
use cryptomeria_ingest::bitvavo::ws::build_auth_msg;
use cryptomeria_ingest::bitvavo::ws::build_getbook_msg;
use cryptomeria_ingest::bitvavo::ws::build_subscribe_msg;
use cryptomeria_ingest::bitvavo::ws::BitvavoAdapter;
use cryptomeria_ingest::config::DataKind;
use cryptomeria_ingest::items::MarketDataItem;
use cryptomeria_ingest::json::Json;
use cryptomeria_ingest::json::JsonNumber;
use cryptomeria_ingest::json::JsonText;
use cryptomeria_ingest::json::Reading;
use cryptomeria_ingest::num::FloatOp;
use cryptomeria_ingest::num::Num;
use serde_json::Value;
use std::time::Duration;

fn num(x: f64) -> Num {
    Num::new(x.to_bits(), x.to_string())
}

fn unit(op: FloatOp, a: Num, b: Num) -> Num {
    let (x, y) = (f64::from_bits(a.bits), f64::from_bits(b.bits));
    num(match op {
        FloatOp::Sum => x + y,
        FloatOp::Difference => x - y,
        FloatOp::PercentBelow => x * (1.0 - y / 100.0),
        FloatOp::PercentAbove => x * (1.0 + y / 100.0),
    })
}

trait AsFloat {
    type Float;
    fn f(&self) -> Self::Float;
}

impl AsFloat for Num {
    type Float = f64;
    fn f(&self) -> f64 {
        f64::from_bits(self.bits)
    }
}

impl AsFloat for Option<Num> {
    type Float = Option<f64>;
    fn f(&self) -> Option<f64> {
        self.as_ref().map(|n| n.f())
    }
}

fn reading(x: f64) -> Reading {
    Reading {
        num: num(x),
        millis: (x * 1000.0) as u64,
        whole: x as i64,
        rounded: num(format!("{x:.8}").parse::<f64>().unwrap()),
    }
}

fn text(s: &str) -> JsonText {
    JsonText { text: s.to_string(), reading: s.parse::<f64>().ok().map(reading) }
}

fn json(v: &Value) -> Json {
    match v {
        Value::Null => Json::Null,
        Value::Bool(b) => Json::Bool(*b),
        Value::Number(n) => Json::Number(match (n.as_u64(), n.as_i64()) {
            (Some(u), _) => JsonNumber::PosInt(u, reading(n.as_f64().unwrap())),
            (None, Some(i)) => JsonNumber::NegInt(i, reading(n.as_f64().unwrap())),
            _ => JsonNumber::Float(reading(n.as_f64().unwrap()), n.to_string()),
        }),
        Value::String(s) => Json::Str(text(s)),
        Value::Array(a) => Json::Arr(a.iter().map(json).collect()),
        Value::Object(o) => Json::Obj(o.iter().map(|(k, v)| (k.clone(), json(v))).collect()),
    }
}

fn document(s: &str) -> Json {
    json(&serde_json::from_str(s).unwrap())
}

fn message(d: &Json) -> BitvavoWsMessage<'_> {
    BitvavoWsMessage::from_value(d).unwrap()
}

fn adapter() -> BitvavoAdapter {
    BitvavoAdapter::new(
        "BTC-EUR".into(),
        "global".into(),
        Some("test_key".into()),
        Some("test_secret".into()),
        num(0.0),
        None,
        DataKind::LOB | DataKind::TRADE,
    )
}

fn adapter_with_kind(data_kind: DataKind) -> BitvavoAdapter {
    BitvavoAdapter::new(
        "BTC-EUR".into(),
        "global".into(),
        Some("test_key".into()),
        Some("test_secret".into()),
        num(0.0),
        None,
        data_kind,
    )
}

#[test]
fn test_build_auth_msg_structure() {
    let msg = build_auth_msg("my_key", "my_secret");
    let v: serde_json::Value = serde_json::from_str(&msg).unwrap();
    assert_eq!(v["action"], "authenticate");
    assert_eq!(v["key"], "my_key");
    assert!(v["signature"].is_string());
    assert!(v["signature"].as_str().unwrap().len() == 64);
    assert!(v["timestamp"].as_u64().is_some());
}

#[test]
fn test_build_auth_msg_signature_deterministic() {
    // Same inputs and the same timestamp produce the same signature.
    // We can't control the timestamp, but we can verify the signature
    // format is always 64 hex chars.
    let msg = build_auth_msg("key", "secret");
    let v: serde_json::Value = serde_json::from_str(&msg).unwrap();
    let sig = v["signature"].as_str().unwrap();
    assert_eq!(sig.len(), 64);
    assert!(sig.chars().all(|c| c.is_ascii_hexdigit()));
}

#[test]
fn bitvavo_ws_test_build_subscribe_msg() {
    let msg = build_subscribe_msg("book", "BTC-EUR");
    let v: serde_json::Value = serde_json::from_str(&msg).unwrap();
    assert_eq!(v["action"], "subscribe");
    assert_eq!(v["channels"][0]["name"], "book");
    assert_eq!(v["channels"][0]["markets"][0], "BTC-EUR");
}

#[test]
fn test_build_getbook_msg() {
    let msg = build_getbook_msg("BTC-EUR", 1000);
    let v: serde_json::Value = serde_json::from_str(&msg).unwrap();
    assert_eq!(v["action"], "getBook");
    assert_eq!(v["requestId"], 1);
    assert_eq!(v["market"], "BTC-EUR");
    assert_eq!(v["depth"], 1000);
}

#[test]
fn test_subscribe_msgs_lob_returns_book_and_getbook() {
    let a = adapter_with_kind(DataKind::LOB);
    let msgs = a.subscribe_msgs();
    assert_eq!(msgs.len(), 2);
    assert_eq!(msgs[0].0, "book");
    assert_eq!(msgs[1].0, "getbook");
    assert!(msgs[0].1.contains("\"book\""));
    assert!(msgs[1].1.contains("\"getBook\""));
}

#[test]
fn test_auth_msgs_lob_returns_auth() {
    let a = adapter_with_kind(DataKind::LOB);
    let auth = a.auth_msgs();
    assert!(auth.is_some());
    let msgs = auth.unwrap();
    assert_eq!(msgs.len(), 1);
    assert_eq!(msgs[0].0, "auth");
    assert!(msgs[0].1.contains("\"action\":\"authenticate\""));
}

#[test]
fn test_subscribe_msgs_trade_returns_trades_only() {
    let a = adapter_with_kind(DataKind::TRADE);
    let msgs = a.subscribe_msgs();
    assert_eq!(msgs.len(), 1);
    assert_eq!(msgs[0].0, "trades");
}

#[test]
fn test_auth_msgs_trade_returns_auth() {
    let a = adapter_with_kind(DataKind::TRADE);
    let auth = a.auth_msgs();
    assert!(auth.is_some());
    let msgs = auth.unwrap();
    assert_eq!(msgs.len(), 1);
    assert_eq!(msgs[0].0, "auth");
}

#[test]
fn test_subscribe_msgs_both_returns_book_getbook_trades() {
    let a = adapter();
    let msgs = a.subscribe_msgs();
    assert_eq!(msgs.len(), 3);
    let names: Vec<String> = msgs.iter().map(|(c, _)| c.clone()).collect();
    assert!(names.contains(&"book".to_string()));
    assert!(names.contains(&"getbook".to_string()));
    assert!(names.contains(&"trades".to_string()));
}

#[test]
fn test_auth_msgs_both_returns_auth() {
    let a = adapter();
    let auth = a.auth_msgs();
    assert!(auth.is_some());
    let msgs = auth.unwrap();
    assert_eq!(msgs.len(), 1);
    assert_eq!(msgs[0].0, "auth");
}

#[test]
fn test_auth_msgs_none_when_no_credentials() {
    let a = BitvavoAdapter::new(
        "BTC-EUR".into(),
        "global".into(),
        None,
        None,
        num(0.0),
        None,
        DataKind::LOB,
    );
    assert!(a.auth_msgs().is_none());
}

#[test]
fn test_is_auth_confirmed_true_for_success_message() {
    // Bitvavo server responds with `{"event":"authenticate","authenticated":true}`.
    let a = adapter();
    let msg_doc = document(r#"{"event":"authenticate","authenticated":true}"#);
    let msg = message(&msg_doc);
    assert!(a.is_auth_confirmed(&msg));
}

#[test]
fn test_is_auth_confirmed_true_for_action_field_with_success() {
    // Backward compat: `success` field also accepted.
    let a = adapter();
    let msg_doc = document(r#"{"action":"authenticate","success":true}"#);
    let msg = message(&msg_doc);
    assert!(a.is_auth_confirmed(&msg));
}

#[test]
fn test_is_auth_confirmed_false_for_success_false() {
    let a = adapter();
    let msg_doc = document(r#"{"event":"authenticate","authenticated":false}"#);
    let msg = message(&msg_doc);
    assert!(!a.is_auth_confirmed(&msg));
}

#[test]
fn test_is_auth_confirmed_false_for_non_auth_message() {
    let a = adapter();
    let msg_doc = document(r#"{"event":"trade","id":"t1","amount":"1.0","price":"100.0","timestamp":123,"market":"BTC-EUR","side":"buy"}"#);
    let msg = message(&msg_doc);
    assert!(!a.is_auth_confirmed(&msg));
}

#[test]
fn test_is_auth_confirmed_false_for_auth_request_without_success() {
    let a = adapter();
    let msg_doc = document(r#"{"action":"authenticate","key":"k","signature":"s","timestamp":1}"#);
    let msg = message(&msg_doc);
    assert!(!a.is_auth_confirmed(&msg));
}

#[test]
fn test_auth_confirmation_timeout() {
    let a = adapter();
    assert_eq!(a.auth_confirmation_timeout(), Some(Duration::from_secs(10)));
}

#[test]
fn ws_test_instrument_and_url() {
    let a = adapter();
    assert_eq!(a.instrument(), "BTC-EUR");
    assert_eq!(a.exchange(), "bitvavo");
    assert!(!a.url().is_empty());
}

#[test]
fn test_handle_heartbeat_auth_true() {
    let a = adapter();
    let msg_doc = document(r#"{"action":"authenticate","key":"k","signature":"s","timestamp":1}"#);
    let msg = message(&msg_doc);
    assert!(a.handle_heartbeat(&msg));
}

#[test]
fn ws_test_handle_heartbeat_event_true() {
    let a = adapter();
    let msg_doc = document(r#"{"event":"subscribed","subscriptions":{"book":["BTC-EUR"]}}"#);
    let msg = message(&msg_doc);
    assert!(a.handle_heartbeat(&msg));
}

#[test]
fn ws_test_handle_heartbeat_trade_false() {
    let a = adapter();
    let msg_doc = document(r#"{"event":"trade","id":"t1","amount":"1.0","price":"100.0","timestamp":123,"market":"BTC-EUR","side":"buy"}"#);
    let msg = message(&msg_doc);
    assert!(!a.handle_heartbeat(&msg));
}

#[test]
fn bitvavo_ws_test_handle_message_trade() {
    let mut a = adapter();
    let msg_doc = document(r#"{"event":"trade","id":"t1","amount":"2.5","price":"9311.2","timestamp":1566817150381,"market":"BTC-EUR","side":"sell"}"#);
    let msg = message(&msg_doc);
    let item = a.handle_message(&msg, &unit).expect("expected trade item");
    match item {
        MarketDataItem::Trade(t) => {
            assert_eq!(t.price.f(), 9311.2);
            assert_eq!(t.size.f(), 2.5);
            assert_eq!(t.side, "sell");
            assert_eq!(t.exchange, "bitvavo");
            assert_eq!(t.trade_id.as_deref(), Some("t1"));
            assert_eq!(t.seq_id, Some(1));
        }
        _ => panic!("expected Trade item"),
    }
}

#[test]
fn test_handle_message_trade_seq_increments() {
    let mut a = adapter();
    let mk = |id: &str| {
        document(&format!(
            r#"{{"event":"trade","id":"{id}","amount":"1.0","price":"100.0","timestamp":123,"market":"BTC-EUR","side":"buy"}}"#
        ))
    };
    let t1 = match a.handle_message(&message(&mk("a")), &unit).unwrap() {
        MarketDataItem::Trade(t) => t,
        _ => panic!("expected Trade"),
    };
    let t2 = match a.handle_message(&message(&mk("b")), &unit).unwrap() {
        MarketDataItem::Trade(t) => t,
        _ => panic!("expected Trade"),
    };
    assert_eq!(t1.seq_id, Some(1));
    assert_eq!(t2.seq_id, Some(2));
}

#[test]
fn bitvavo_ws_test_handle_message_trade_filtered_when_lob_only() {
    let mut a = adapter_with_kind(DataKind::LOB);
    let msg_doc = document(r#"{"event":"trade","id":"t1","amount":"1.0","price":"100.0","timestamp":123,"market":"BTC-EUR","side":"buy"}"#);
    let msg = message(&msg_doc);
    assert!(a.handle_message(&msg, &unit).is_none());
}

#[test]
fn bitvavo_ws_test_handle_message_lob_filtered_when_trade_only() {
    let mut a = adapter_with_kind(DataKind::TRADE);
    let msg_doc = document(r#"{"event":"book","market":"BTC-EUR","bids":[["100.0","1.0"]],"asks":[],"startMdSeqNo":1,"endMdSeqNo":1}"#);
    let msg = message(&msg_doc);
    assert!(a.handle_message(&msg, &unit).is_none());
}

#[test]
fn bitvavo_ws_test_handle_message_event_returns_none() {
    let mut a = adapter();
    let msg_doc = document(r#"{"event":"subscribed","subscriptions":{"book":["BTC-EUR"]}}"#);
    let msg = message(&msg_doc);
    assert!(a.handle_message(&msg, &unit).is_none());
}

#[test]
fn test_handle_message_auth_returns_none() {
    let mut a = adapter();
    let msg_doc = document(r#"{"action":"authenticate","key":"k","signature":"s","timestamp":1}"#);
    let msg = message(&msg_doc);
    assert!(a.handle_message(&msg, &unit).is_none());
}

#[test]
fn bitvavo_ws_test_handle_message_unknown_returns_none() {
    let mut a = adapter();
    let msg_doc = document(r#"{"ping": 12345}"#);
    let msg = message(&msg_doc);
    assert!(a.handle_message(&msg, &unit).is_none());
}

#[test]
fn test_handle_message_book_snapshot_emits_lob() {
    let mut a = adapter_with_kind(DataKind::LOB);
    let msg_doc = document(r#"{
            "action": "getBook",
            "requestId": 1,
            "response": {
                "market": "BTC-EUR",
                "nonce": 438525,
                "bids": [["4999.9", "0.015"]],
                "asks": [["5001.1", "0.015"]],
                "timestamp": 1752139200000000000,
                "mdSeqNo": 438525
            }
        }"#);
    let msg = message(&msg_doc);
    let item = a.handle_message(&msg, &unit);
    assert!(item.is_some(), "snapshot should emit a LobItem");
    match item.unwrap() {
        MarketDataItem::Lob(l) => {
            assert!(!l.bids.is_empty());
            assert!(!l.asks.is_empty());
            assert_eq!(l.exchange, "bitvavo");
        }
        _ => panic!("expected Lob item"),
    }
}

//! The messages of Kraken.

use cryptomeria_ingest::json::Json;
use cryptomeria_ingest::json::JsonNumber;
use cryptomeria_ingest::json::JsonText;
use cryptomeria_ingest::json::Reading;
use cryptomeria_ingest::kraken::types::parse_kraken_timestamp;
use cryptomeria_ingest::kraken::types::KrakenWsMessage;
use cryptomeria_ingest::kraken::types::TradeData;
use cryptomeria_ingest::line::Piece;
use cryptomeria_ingest::num::FloatOp;
use cryptomeria_ingest::num::Num;
use serde_json::Value;

fn num(x: f64) -> Num {
    Num::new(x.to_bits(), x.to_string())
}

fn unit(op: FloatOp, a: Num, b: Num) -> Num {
    let (x, y) = (f64::from_bits(a.bits), f64::from_bits(b.bits));
    num(match op {
        FloatOp::Sum => x + y,
        FloatOp::Difference => x - y,
        FloatOp::PercentBelow => x * (1.0 - y / 100.0),
        FloatOp::PercentAbove => x * (1.0 + y / 100.0),
    })
}

trait AsFloat {
    type Float;
    fn f(&self) -> Self::Float;
}

impl AsFloat for Num {
    type Float = f64;
    fn f(&self) -> f64 {
        f64::from_bits(self.bits)
    }
}

impl AsFloat for Option<Num> {
    type Float = Option<f64>;
    fn f(&self) -> Option<f64> {
        self.as_ref().map(|n| n.f())
    }
}

fn reading(x: f64) -> Reading {
    Reading {
        num: num(x),
        millis: (x * 1000.0) as u64,
        whole: x as i64,
        rounded: num(format!("{x:.8}").parse::<f64>().unwrap()),
    }
}

fn text(s: &str) -> JsonText {
    JsonText { text: s.to_string(), reading: s.parse::<f64>().ok().map(reading) }
}

fn json(v: &Value) -> Json {
    match v {
        Value::Null => Json::Null,
        Value::Bool(b) => Json::Bool(*b),
        Value::Number(n) => Json::Number(match (n.as_u64(), n.as_i64()) {
            (Some(u), _) => JsonNumber::PosInt(u, reading(n.as_f64().unwrap())),
            (None, Some(i)) => JsonNumber::NegInt(i, reading(n.as_f64().unwrap())),
            _ => JsonNumber::Float(reading(n.as_f64().unwrap()), n.to_string()),
        }),
        Value::String(s) => Json::Str(text(s)),
        Value::Array(a) => Json::Arr(a.iter().map(json).collect()),
        Value::Object(o) => Json::Obj(o.iter().map(|(k, v)| (k.clone(), json(v))).collect()),
    }
}

fn render(pieces: &[Piece]) -> String {
    pieces
        .iter()
        .map(|p| match p {
            Piece::Text(s) => s.clone(),
            Piece::Fixed { num, decimals } => {
                format!("{:.*}", *decimals as usize, num.f())
            }
        })
        .collect()
}

fn document(s: &str) -> Json {
    json(&serde_json::from_str(s).unwrap())
}

fn message(d: &Json) -> KrakenWsMessage<'_> {
    KrakenWsMessage::from_value(d).unwrap()
}

#[test]
fn test_parse_book_snapshot() {
    let json = r#"{
        "channel": "book",
        "type": "snapshot",
        "data": [{
            "symbol": "XBT/USD",
            "bids": [
                {"price": 50000.0, "qty": 1.5},
                {"price": 49900.0, "qty": 2.0}
            ],
            "asks": [
                {"price": 50100.0, "qty": 0.5}
            ],
            "checksum": 0,
            "timestamp": "2024-01-15T10:30:00.000000Z"
        }]
    }"#;
    let msg_doc = document(json);
    let msg = message(&msg_doc);
    assert_eq!(msg.channel, Some("book"));
    assert_eq!(msg.msg_type, Some("snapshot"));
    assert_eq!(msg.display_type(), "LOB2 SNAPSHOT");
}

#[test]
fn test_parse_book_update() {
    let json = r#"{
        "channel": "book",
        "type": "update",
        "data": [{
            "symbol": "XBT/USD",
            "bids": [
                {"price": 50000.0, "qty": 0}
            ],
            "asks": [
                {"price": 50100.0, "qty": 1.0}
            ],
            "checksum": 0,
            "timestamp": "2024-01-15T10:30:01.000000Z"
        }]
    }"#;
    let msg_doc = document(json);
    let msg = message(&msg_doc);
    assert_eq!(msg.display_type(), "LOB2 UPDATE");
}

#[test]
fn test_parse_trade() {
    let json = r#"{
        "channel": "trade",
        "type": "snapshot",
        "data": [{
            "symbol": "XBT/USD",
            "side": "buy",
            "price": 50000.0,
            "qty": 1.5,
            "trade_id": 12345,
            "timestamp": "2024-01-15T10:30:00.000000Z"
        }]
    }"#;
    let msg_doc = document(json);
    let msg = message(&msg_doc);
    assert_eq!(msg.display_type(), "TRADE");
    let t: TradeData = TradeData::from_value(&msg.data.unwrap()[0]).unwrap();
    assert!((t.price.f() - 50000.0).abs() < f64::EPSILON);
    assert_eq!(t.side, "buy");
}

#[test]
fn test_parse_heartbeat() {
    let json = r#"{
        "channel": "heartbeat",
        "type": "heartbeat",
        "data": []
    }"#;
    let msg_doc = document(json);
    let msg = message(&msg_doc);
    assert_eq!(msg.display_type(), "HEARTBEAT");
}

#[test]
fn test_parse_status() {
    let json = r#"{
        "channel": "status",
        "type": "update",
        "data": [{"status": "online"}]
    }"#;
    let msg_doc = document(json);
    let msg = message(&msg_doc);
    assert_eq!(msg.display_type(), "STATUS");
}

#[test]
fn test_parse_subscribe_event() {
    let json = r#"{
        "method": "subscribe",
        "result": {"channel": "book", "symbol": "XBT/USD"},
        "success": true,
        "req_id": 1
    }"#;
    let msg_doc = document(json);
    let msg = message(&msg_doc);
    assert_eq!(msg.display_type(), "EVENT");
    let s = render(&msg.summary());
    assert!(s.contains("subscribe success"));
}

#[test]
fn test_parse_subscribe_event_error() {
    let json = r#"{
        "method": "subscribe",
        "error": "Invalid symbol",
        "success": false
    }"#;
    let msg_doc = document(json);
    let msg = message(&msg_doc);
    let s = render(&msg.summary());
    assert!(s.contains("error"));
    assert!(s.contains("Invalid symbol"));
}

#[test]
fn kraken_types_test_parse_malformed_json() {
    let result = serde_json::from_str::<Value>("not valid json");
    assert!(result.is_err());
}

#[test]
fn test_parse_empty_data() {
    let json = r#"{
        "channel": "trade",
        "type": "snapshot",
        "data": []
    }"#;
    let msg_doc = document(json);
    let msg = message(&msg_doc);
    assert!(msg.first().is_none());
}

#[test]
fn kraken_types_test_display_type_unknown() {
    let json = r#"{
        "channel": "some-other",
        "type": "data",
        "data": []
    }"#;
    let msg_doc = document(json);
    let msg = message(&msg_doc);
    assert_eq!(msg.display_type(), "UNKNOWN");
}

#[test]
fn kraken_types_test_summary_contains_key_fields() {
    let json = r#"{
        "channel": "trade",
        "type": "snapshot",
        "data": [{
            "symbol": "XBT/USD",
            "side": "sell",
            "price": 50000.0,
            "qty": 0.5,
            "trade_id": 12345,
            "timestamp": "2024-01-15T10:30:00.000000Z"
        }]
    }"#;
    let msg_doc = document(json);
    let msg = message(&msg_doc);
    let s = render(&msg.summary());
    assert!(s.contains("XBT/USD"));
    assert!(s.contains("50000"));
    assert!(s.contains("sell"));
}

#[test]
fn test_lob_snapshot_parsing() {
    let json = r#"{
        "channel": "book",
        "type": "snapshot",
        "data": [{
            "symbol": "XBT/USD",
            "bids": [
                {"price": 50000.0, "qty": 1.0},
                {"price": 49900.0, "qty": 2.0}
            ],
            "asks": [
                {"price": 50100.0, "qty": 1.5}
            ],
            "checksum": 0,
            "timestamp": "2024-01-15T10:30:00.000000Z"
        }]
    }"#;
    let msg_doc = document(json);
    let msg = message(&msg_doc);
    let snapshot = msg.lob_snapshot().unwrap();
    assert_eq!(snapshot.bids.len(), 2);
    assert_eq!(snapshot.asks.len(), 1);
    assert!((snapshot.bids[0].price.f() - 50000.0).abs() < f64::EPSILON);
    assert!((snapshot.bids[0].qty.f() - 1.0).abs() < f64::EPSILON);
    assert!((snapshot.asks[0].price.f() - 50100.0).abs() < f64::EPSILON);
}

#[test]
fn test_lob_update_parsing() {
    let json = r#"{
        "channel": "book",
        "type": "update",
        "data": [{
            "symbol": "XBT/USD",
            "bids": [
                {"price": 50000.0, "qty": 0}
            ],
            "asks": [
                {"price": 50100.0, "qty": 2.0}
            ],
            "checksum": 0,
            "timestamp": "2024-01-15T10:30:01.000000Z"
        }]
    }"#;
    let msg_doc = document(json);
    let msg = message(&msg_doc);
    let update = msg.lob_update().unwrap();
    assert_eq!(update.bids.len(), 1);
    assert_eq!(update.asks.len(), 1);
    assert!((update.bids[0].qty.f() - 0.0).abs() < f64::EPSILON);
}

#[test]
fn test_parse_kraken_timestamp_rfc3339() {
    let ts = "2024-01-15T10:30:00.000000Z";
    let ms = parse_kraken_timestamp(&text(ts));
    assert_eq!(ms, Some(1705314600000));
}

#[test]
fn test_parse_kraken_timestamp_float() {
    let ts = "1705314600.000";
    let ms = parse_kraken_timestamp(&text(ts));
    assert_eq!(ms, Some(1705314600000));
}

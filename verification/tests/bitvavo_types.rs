//! The messages of Bitvavo.

use cryptomeria_ingest::bitvavo::types::BitvavoWsMessage;
use cryptomeria_ingest::bitvavo::types::MessageType;
use cryptomeria_ingest::json::Json;
use cryptomeria_ingest::json::JsonNumber;
use cryptomeria_ingest::json::JsonText;
use cryptomeria_ingest::json::Reading;
use cryptomeria_ingest::num::Num;
use serde_json::Value;

fn num(x: f64) -> Num {
    Num::new(x.to_bits(), x.to_string())
}

fn reading(x: f64) -> Reading {
    Reading {
        num: num(x),
        millis: (x * 1000.0) as u64,
        whole: x as i64,
        rounded: num(format!("{x:.8}").parse::<f64>().unwrap()),
    }
}

fn text(s: &str) -> JsonText {
    JsonText { text: s.to_string(), reading: s.parse::<f64>().ok().map(reading) }
}

fn json(v: &Value) -> Json {
    match v {
        Value::Null => Json::Null,
        Value::Bool(b) => Json::Bool(*b),
        Value::Number(n) => Json::Number(match (n.as_u64(), n.as_i64()) {
            (Some(u), _) => JsonNumber::PosInt(u, reading(n.as_f64().unwrap())),
            (None, Some(i)) => JsonNumber::NegInt(i, reading(n.as_f64().unwrap())),
            _ => JsonNumber::Float(reading(n.as_f64().unwrap()), n.to_string()),
        }),
        Value::String(s) => Json::Str(text(s)),
        Value::Array(a) => Json::Arr(a.iter().map(json).collect()),
        Value::Object(o) => Json::Obj(o.iter().map(|(k, v)| (k.clone(), json(v))).collect()),
    }
}

fn document(s: &str) -> Json {
    json(&serde_json::from_str(s).unwrap())
}

fn message(d: &Json) -> BitvavoWsMessage<'_> {
    BitvavoWsMessage::from_value(d).unwrap()
}

#[test]
fn test_parse_auth_message() {
    let json = r#"{
        "action": "authenticate",
        "key": "test_key",
        "signature": "abc123",
        "timestamp": 1609459200000
    }"#;
    let msg_doc = document(json);
    let msg = message(&msg_doc);
    assert_eq!(msg.message_type(), MessageType::Auth);
    assert_eq!(msg.key, Some("test_key"));
    assert_eq!(msg.signature, Some("abc123"));
    assert_eq!(msg.timestamp, Some(1609459200000));
}

#[test]
fn is_auth_confirmed_true_for_server_response_with_event_field() {
    // Bitvavo responds with `{"event":"authenticate","authenticated":true}`.
    let json = r#"{"event":"authenticate","authenticated":true}"#;
    let msg_doc = document(json);
    let msg = message(&msg_doc);
    assert_eq!(msg.message_type(), MessageType::Auth);
    assert!(msg.is_auth_confirmed());
}

#[test]
fn is_auth_confirmed_true_for_action_field_with_success() {
    // Backward compat: client-side echo uses `action` field with `success`.
    let json = r#"{"action":"authenticate","success":true}"#;
    let msg_doc = document(json);
    let msg = message(&msg_doc);
    assert_eq!(msg.message_type(), MessageType::Auth);
    assert!(msg.is_auth_confirmed());
}

#[test]
fn is_auth_confirmed_true_for_action_field_with_authenticated() {
    // Server echo could also use `action` field with `authenticated`.
    let json = r#"{"action":"authenticate","authenticated":true}"#;
    let msg_doc = document(json);
    let msg = message(&msg_doc);
    assert_eq!(msg.message_type(), MessageType::Auth);
    assert!(msg.is_auth_confirmed());
}

#[test]
fn is_auth_confirmed_false_for_auth_event_without_success() {
    let json = r#"{"event":"authenticate"}"#;
    let msg_doc = document(json);
    let msg = message(&msg_doc);
    assert_eq!(msg.message_type(), MessageType::Auth);
    assert!(!msg.is_auth_confirmed());
}

#[test]
fn is_auth_confirmed_false_for_server_failure_response() {
    let json = r#"{"event":"authenticate","authenticated":false}"#;
    let msg_doc = document(json);
    let msg = message(&msg_doc);
    assert_eq!(msg.message_type(), MessageType::Auth);
    assert!(!msg.is_auth_confirmed());
    assert_eq!(msg.authenticated, Some(false));
}

#[test]
fn test_parse_book_event() {
    let json = r#"{
        "event": "book",
        "market": "BTC-EUR",
        "nonce": 438524,
        "bids": [["9209.3", "0.015"]],
        "asks": [["9220.2", "0.015"]],
        "timestamp": 1752139200000000000,
        "startMdSeqNo": 438524,
        "endMdSeqNo": 438524,
        "type": "update"
    }"#;
    let msg_doc = document(json);
    let msg = message(&msg_doc);
    assert_eq!(msg.message_type(), MessageType::BookUpdate);
    assert_eq!(msg.market, Some("BTC-EUR"));
    assert_eq!(msg.start_md_seq_no, Some(438524));
    assert_eq!(msg.end_md_seq_no, Some(438524));
}

#[test]
fn test_parse_book_update_extracts_levels() {
    let json = r#"{
        "event": "book",
        "market": "BTC-EUR",
        "nonce": 438525,
        "bids": [["9209.3", "0.015"], ["9208.0", "1.0"]],
        "asks": [["9220.2", "0.015"]],
        "timestamp": 1752139200000000001,
        "startMdSeqNo": 438524,
        "endMdSeqNo": 438524,
        "type": "update"
    }"#;
    let msg_doc = document(json);
    let msg = message(&msg_doc);
    let update = msg.book_update().unwrap();
    assert_eq!(update.market, "BTC-EUR");
    assert_eq!(update.bids.len(), 2);
    assert_eq!(update.asks.len(), 1);
    assert_eq!(update.bids[0].len(), 2);
    assert_eq!(update.bids[0][0].text, "9209.3");
    assert_eq!(update.bids[0][1].text, "0.015");
    assert_eq!(update.start_md_seq_no, 438524);
    assert_eq!(update.end_md_seq_no, 438524);
}

#[test]
fn test_parse_book_event_empty_asks() {
    let json = r#"{
        "event": "book",
        "market": "BTC-EUR",
        "nonce": 438524,
        "bids": [["9209.3", "0.015"]],
        "asks": [],
        "timestamp": 1752139200000000000,
        "startMdSeqNo": 438524,
        "endMdSeqNo": 438524,
        "type": "update"
    }"#;
    let msg_doc = document(json);
    let msg = message(&msg_doc);
    assert_eq!(msg.asks.len(), 0);
    assert_eq!(msg.bids.len(), 1);
}

#[test]
fn test_parse_getbook_response() {
    let json = r#"{
        "action": "getBook",
        "requestId": 1,
        "response": {
            "market": "BTC-EUR",
            "nonce": 438525,
            "bids": [["4999.9", "0.015"]],
            "asks": [["5001.1", "0.015"]],
            "timestamp": 1752139200000000000,
            "mdSeqNo": 438525
        }
    }"#;
    let msg_doc = document(json);
    let msg = message(&msg_doc);
    assert_eq!(msg.message_type(), MessageType::BookSnapshot);
    assert_eq!(msg.request_id, Some(1));
    let snap = msg.book_snapshot().unwrap();
    assert_eq!(snap.market, "BTC-EUR");
    assert_eq!(snap.nonce, 438525);
    assert_eq!(snap.mdseqno, 438525);
    assert_eq!(snap.bids.len(), 1);
    assert_eq!(snap.asks.len(), 1);
    assert_eq!(snap.bids[0][0].text, "4999.9");
    assert_eq!(snap.bids[0][1].text, "0.015");
    assert_eq!(snap.asks[0][0].text, "5001.1");
    assert_eq!(snap.asks[0][1].text, "0.015");
}

#[test]
fn test_parse_trade_event() {
    let json = r#"{
        "event": "trade",
        "id": "391f4d94-485f-4fb0-b11f-39da1cfcfc2d",
        "amount": "0.00096361",
        "price": "9311.2",
        "timestamp": 1566817150381,
        "market": "BTC-EUR",
        "side": "sell",
        "timestampNs": 1752139200000000000
    }"#;
    let msg_doc = document(json);
    let msg = message(&msg_doc);
    assert_eq!(msg.message_type(), MessageType::Trade);
    let trade = msg.trade().unwrap();
    assert_eq!(trade.id, "391f4d94-485f-4fb0-b11f-39da1cfcfc2d");
    assert_eq!(trade.amount.text, "0.00096361");
    assert_eq!(trade.price.text, "9311.2");
    assert_eq!(trade.market, "BTC-EUR");
    assert_eq!(trade.side, "sell");
    assert_eq!(trade.timestamp_ms(), 1566817150381);
}

#[test]
fn test_parse_subscribed_event() {
    let json = r#"{
        "event": "subscribed",
        "subscriptions": {
            "book": ["BTC-EUR"]
        }
    }"#;
    let msg_doc = document(json);
    let msg = message(&msg_doc);
    assert_eq!(msg.message_type(), MessageType::Event);
    assert!(msg.subscriptions.is_some());
}

#[test]
fn test_parse_unsubscribed_event() {
    let json = r#"{
        "event": "unsubscribed",
        "subscriptions": {
            "trades": ["BTC-EUR"]
        }
    }"#;
    let msg_doc = document(json);
    let msg = message(&msg_doc);
    assert_eq!(msg.message_type(), MessageType::Event);
}

#[test]
fn test_parse_unknown_message_returns_unknown() {
    let json = r#"{"ping": 12345}"#;
    let msg_doc = document(json);
    let msg = message(&msg_doc);
    assert_eq!(msg.message_type(), MessageType::Unknown);
}

#[test]
fn bitvavo_types_test_parse_malformed_json() {
    let result = serde_json::from_str::<Value>("not valid json");
    assert!(result.is_err());
}

#[test]
fn test_book_snapshot_returns_none_for_non_getbook() {
    let json = r#"{"event": "book", "market": "BTC-EUR"}"#;
    let msg_doc = document(json);
    let msg = message(&msg_doc);
    assert!(msg.book_snapshot().is_none());
}

#[test]
fn test_book_update_returns_none_for_non_book_event() {
    let json = r#"{"event": "trade", "market": "BTC-EUR"}"#;
    let msg_doc = document(json);
    let msg = message(&msg_doc);
    assert!(msg.book_update().is_none());
}

#[test]
fn test_trade_returns_none_for_non_trade_event() {
    let json = r#"{"event": "book", "market": "BTC-EUR"}"#;
    let msg_doc = document(json);
    let msg = message(&msg_doc);
    assert!(msg.trade().is_none());
}

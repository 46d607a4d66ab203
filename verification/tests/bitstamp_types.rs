//! The messages of Bitstamp.

use cryptomeria_ingest::bitstamp::types::display_message;
use cryptomeria_ingest::bitstamp::types::BitstampWsMessage;
use cryptomeria_ingest::bitstamp::types::MessageType;
use cryptomeria_ingest::bitstamp::types::OrderBookData;
use cryptomeria_ingest::bitstamp::types::OrderEntry;
use cryptomeria_ingest::bitstamp::types::TradeData;
use cryptomeria_ingest::json::Json;
use cryptomeria_ingest::json::JsonNumber;
use cryptomeria_ingest::json::JsonText;
use cryptomeria_ingest::json::Reading;
use cryptomeria_ingest::num::Num;
use serde_json::Value;

fn num(x: f64) -> Num {
    Num::new(x.to_bits(), x.to_string())
}

fn reading(x: f64) -> Reading {
    Reading {
        num: num(x),
        millis: (x * 1000.0) as u64,
        whole: x as i64,
        rounded: num(format!("{x:.8}").parse::<f64>().unwrap()),
    }
}

fn text(s: &str) -> JsonText {
    JsonText { text: s.to_string(), reading: s.parse::<f64>().ok().map(reading) }
}

fn json(v: &Value) -> Json {
    match v {
        Value::Null => Json::Null,
        Value::Bool(b) => Json::Bool(*b),
        Value::Number(n) => Json::Number(match (n.as_u64(), n.as_i64()) {
            (Some(u), _) => JsonNumber::PosInt(u, reading(n.as_f64().unwrap())),
            (None, Some(i)) => JsonNumber::NegInt(i, reading(n.as_f64().unwrap())),
            _ => JsonNumber::Float(reading(n.as_f64().unwrap()), n.to_string()),
        }),
        Value::String(s) => Json::Str(text(s)),
        Value::Array(a) => Json::Arr(a.iter().map(json).collect()),
        Value::Object(o) => Json::Obj(o.iter().map(|(k, v)| (k.clone(), json(v))).collect()),
    }
}

fn document(s: &str) -> Json {
    json(&serde_json::from_str(s).unwrap())
}

fn message(d: &Json) -> BitstampWsMessage<'_> {
    BitstampWsMessage::from_value(d).unwrap()
}

#[test]
fn test_parse_order_created() {
    let json = r#"{
        "event": "order_created",
        "channel": "live_orders_btcusd",
        "data": {
            "id": 12345,
            "id_str": "12345",
            "price": "10000.0",
            "amount": "1.5",
            "type": 0,
            "timestamp": "1705314600"
        }
    }"#;
    let msg_doc = document(json);
    let msg = message(&msg_doc);
    assert_eq!(msg.message_type(), MessageType::L2Update);
    let s = msg.summary();
    assert!(s.contains("order_created"));
    assert!(s.contains("bid"));
}

#[test]
fn test_parse_order_deleted() {
    let json = r#"{
        "event": "order_deleted",
        "channel": "live_orders_btcusd",
        "data": {
            "id": 12345,
            "id_str": "12345",
            "price": "10000.0",
            "amount": "0",
            "type": 0,
            "timestamp": "1705314600"
        }
    }"#;
    let msg_doc = document(json);
    let msg = message(&msg_doc);
    assert_eq!(msg.message_type(), MessageType::L2Update);
}

#[test]
fn test_parse_order_changed() {
    let json = r#"{
        "event": "order_changed",
        "channel": "live_orders_btcusd",
        "data": {
            "id": 12345,
            "id_str": "12345",
            "price": "10000.0",
            "amount": "2.0",
            "type": 0,
            "timestamp": "1705314600"
        }
    }"#;
    let msg_doc = document(json);
    let msg = message(&msg_doc);
    assert_eq!(msg.message_type(), MessageType::L2Update);
}

#[test]
fn test_parse_order_data() {
    let json = r#"{
        "event": "data",
        "channel": "live_orders_btcusd",
        "data": {
            "id": 12345,
            "id_str": "12345",
            "price": "10000.0",
            "amount": "1.5",
            "type": 0,
            "timestamp": "1705314600"
        }
    }"#;
    let msg_doc = document(json);
    let msg = message(&msg_doc);
    assert_eq!(msg.event, Some("data"));
    assert_eq!(msg.channel, Some("live_orders_btcusd"));
    assert_eq!(msg.message_type(), MessageType::L2Update);
}

#[test]
fn test_parse_trade_data() {
    let json = r#"{
        "event": "trade",
        "channel": "live_trades_btcusd",
        "data": {
            "price": "10000.0",
            "amount": "0.5",
            "type": 1,
            "timestamp": "1705314600.123456",
            "microtimestamp": "1705314600123456",
            "id": 67890,
            "buy_order_id": 123,
            "sell_order_id": 456
        }
    }"#;
    let msg_doc = document(json);
    let msg = message(&msg_doc);
    assert_eq!(msg.message_type(), MessageType::Trade);
}

#[test]
fn test_parse_subscription_succeeded() {
    let json = r#"{
        "event": "bts:subscription_succeeded",
        "channel": "live_orders_btcusd",
        "data": {}
    }"#;
    let msg_doc = document(json);
    let msg = message(&msg_doc);
    assert_eq!(msg.message_type(), MessageType::Event);
}

#[test]
fn types_test_parse_malformed_json() {
    let result = serde_json::from_str::<Value>("not valid json");
    assert!(result.is_err());
}

#[test]
fn test_display_type_lob_update() {
    let json = r#"{
        "event": "data",
        "channel": "live_orders_btcusd",
        "data": {"price": "10000.0", "amount": "1.0", "type": 0, "id": 1, "id_str": "1", "timestamp": "0"}
    }"#;
    let msg_doc = document(json);
    let msg = message(&msg_doc);
    assert_eq!(msg.display_type(), "LOB2 UPDATE");
}

#[test]
fn test_display_type_trade() {
    let json = r#"{
        "event": "trade",
        "channel": "live_trades_btcusd",
        "data": {"price": "10000.0", "amount": "0.5", "type": 1, "timestamp": "0", "microtimestamp": "0", "id": 1, "buy_order_id": 0, "sell_order_id": 0}
    }"#;
    let msg_doc = document(json);
    let msg = message(&msg_doc);
    assert_eq!(msg.display_type(), "TRADE");
}

#[test]
fn test_display_type_event() {
    let json = r#"{
        "event": "bts:subscription_succeeded",
        "channel": "live_orders_btcusd",
        "data": {}
    }"#;
    let msg_doc = document(json);
    let msg = message(&msg_doc);
    assert_eq!(msg.display_type(), "EVENT");
}

#[test]
fn types_test_display_type_unknown() {
    let json = r#"{
        "event": "some-other",
        "channel": "unknown_channel",
        "data": {}
    }"#;
    let msg_doc = document(json);
    let msg = message(&msg_doc);
    assert_eq!(msg.display_type(), "EVENT");
}

#[test]
fn types_test_summary_contains_key_fields() {
    let json = r#"{
        "event": "trade",
        "channel": "live_trades_btcusd",
        "data": {"price": "50000.0", "amount": "0.5", "type": 0, "timestamp": "0", "microtimestamp": "0", "id": 1, "buy_order_id": 0, "sell_order_id": 0}
    }"#;
    let msg_doc = document(json);
    let msg = message(&msg_doc);
    let s = msg.summary();
    assert!(s.contains("50000.0"));
    assert!(s.contains("buy"));
}

#[test]
fn test_timestamp_ms_order_entry() {
    let json = r#"{
        "event": "data",
        "channel": "live_orders_btcusd",
        "data": {"price": "10000.0", "amount": "1.0", "type": 0, "id": 1, "id_str": "1", "timestamp": "1705314600"}
    }"#;
    let msg_doc = document(json);
    let msg = message(&msg_doc);
    assert_eq!(msg.timestamp_ms(), Some(1705314600000));
}

#[test]
fn test_microtimestamp_diff_order_book() {
    let json = r#"{
        "event": "data",
        "channel": "diff_order_book_btcusd",
        "data": {
            "timestamp": "1705314600",
            "microtimestamp": "1705314600123456",
            "bids": [["10000.0", "1.0"]],
            "asks": [["10100.0", "2.0"]]
        }
    }"#;
    let msg_doc = document(json);
    let msg = message(&msg_doc);
    assert_eq!(msg.microtimestamp_us(), Some(1705314600123456));
}

#[test]
fn test_microtimestamp_falls_back_to_none() {
    let json = r#"{
        "event": "data",
        "channel": "live_orders_btcusd",
        "data": {"price": "10000.0", "amount": "1.0", "type": 0, "id": 1, "id_str": "1", "timestamp": "0"}
    }"#;
    let msg_doc = document(json);
    let msg = message(&msg_doc);
    assert_eq!(msg.microtimestamp_us(), None);
}

#[test]
fn test_microtimestamp_no_data_returns_none() {
    let json = r#"{"event": "data", "channel": "diff_order_book_btcusd", "data": {}}"#;
    let msg_doc = document(json);
    let msg = message(&msg_doc);
    assert_eq!(msg.microtimestamp_us(), None);
}

#[test]
fn test_l2_snapshot_message_type() {
    let data = document(r#"{"bids": [["100.0", "1.0"]], "asks": [["101.0", "2.0"]]}"#);
    let msg = BitstampWsMessage {
        event: Some("snapshot"),
        channel: Some("diff_order_book_btcusd"),
        data: Some(&data),
    };
    assert_eq!(msg.message_type(), MessageType::L2Snapshot);
    assert_eq!(msg.display_type(), "LOB2 SNAPSHOT");
}

#[test]
fn test_lob_levels_extraction() {
    let json = r#"{
        "event": "data",
        "channel": "live_orders_btcusd",
        "data": {"id": 1, "id_str": "1", "price": "10000.0", "amount": "1.5", "type": 0, "timestamp": "0"}
    }"#;
    let msg_doc = document(json);
    let msg = message(&msg_doc);
    let entry = OrderEntry::from_value(msg.data.unwrap()).unwrap();
    assert_eq!(entry.price.text, "10000.0");
    assert_eq!(entry.amount.text, "1.5");
    assert!(entry.is_bid());
}

#[test]
fn test_display_message_trade() {
    let json = r#"{
        "event": "trade",
        "channel": "live_trades_btcusd",
        "data": {"price": "10000.0", "amount": "0.5", "type": 1, "timestamp": "0", "microtimestamp": "0", "id": 1, "buy_order_id": 0, "sell_order_id": 0}
    }"#;
    let msg_doc = document(json);
    let msg = message(&msg_doc);
    let out = display_message(&msg);
    assert!(out.contains("TRADE"));
}

#[test]
fn test_display_message_event() {
    let json = r#"{
        "event": "bts:subscription_succeeded",
        "channel": "live_orders_btcusd",
        "data": {}
    }"#;
    let msg_doc = document(json);
    let msg = message(&msg_doc);
    let out = display_message(&msg);
    assert!(out.contains("EVENT"));
}

#[test]
fn test_summary_unknown_type() {
    let json = r#"{"event": "some_random_event", "data": {}}"#;
    let msg_doc = document(json);
    let msg = message(&msg_doc);
    let s = msg.summary();
    assert!(!s.is_empty());
}

#[test]
fn test_trade_data_timestamp_ms() {
    let td = TradeData {
        id: 1,
        price: text("100.0"),
        amount: text("0.5"),
        trade_type: 0,
        timestamp: text(""),
        microtimestamp: "1705314600123456".into(),
        buy_order_id: 0,
        sell_order_id: 0,
    };
    assert_eq!(td.timestamp_ms(), Some(1705314600123));
}

#[test]
fn test_parse_error_event() {
    let json = r#"{
        "event": "error",
        "channel": "live_trades_btcusd",
        "data": {"errorMessage": "Channel not found"}
    }"#;
    let msg_doc = document(json);
    let msg = message(&msg_doc);
    assert_eq!(msg.event, Some("error"));
    let summary = msg.summary();
    assert!(summary.contains("error"));
    assert!(summary.contains("Channel not found"));
}

#[test]
fn test_parse_error_event_without_message() {
    let json = r#"{"event": "error", "channel": "live_trades_btcusd", "data": {}}"#;
    let msg_doc = document(json);
    let msg = message(&msg_doc);
    assert_eq!(msg.event, Some("error"));
    let summary = msg.summary();
    assert_eq!(summary, "error");
}

#[test]
fn test_orderbook_data_deserializes_3_element_arrays() {
    // Bitstamp WebSocket diff_order_book returns levels as 3-element arrays
    // [price, amount, order_id], unlike REST order_book which returns 2-element.
    let json = r#"{
        "bids": [["100.0", "1.5", "12345"]],
        "asks": [["101.0", "0.5", "67890"]],
        "timestamp": "1705314600",
        "microtimestamp": "1705314600123456"
    }"#;
    let ob = OrderBookData::from_value(&document(json)).unwrap();
    assert_eq!(ob.bids.len(), 1);
    assert_eq!(ob.asks.len(), 1);
    assert_eq!(ob.bids[0].len(), 3);
    assert_eq!(ob.asks[0].len(), 3);
    assert_eq!(ob.bids[0][0].text, "100.0");
    assert_eq!(ob.bids[0][2].text, "12345");
    assert_eq!(ob.asks[0][0].text, "101.0");
    assert_eq!(ob.asks[0][2].text, "67890");
}

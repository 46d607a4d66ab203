//! The order book of OKX.

use cryptomeria_ingest::checksum::format_number;
use cryptomeria_ingest::json::Json;
use cryptomeria_ingest::json::JsonNumber;
use cryptomeria_ingest::json::JsonText;
use cryptomeria_ingest::json::Reading;
use cryptomeria_ingest::line::Piece;
use cryptomeria_ingest::num::FloatOp;
use cryptomeria_ingest::num::Num;
use cryptomeria_ingest::okx::lob::OrderBook;
use cryptomeria_ingest::okx::lob::Side;
use cryptomeria_ingest::okx::types::parse_price_level;
use cryptomeria_ingest::okx::types::OkxWsMessage;
use cryptomeria_ingest::okx::types::PriceLevel;
use serde_json::Value;

fn num(x: f64) -> Num {
    Num::new(x.to_bits(), x.to_string())
}

fn unit(op: FloatOp, a: Num, b: Num) -> Num {
    let (x, y) = (f64::from_bits(a.bits), f64::from_bits(b.bits));
    num(match op {
        FloatOp::Sum => x + y,
        FloatOp::Difference => x - y,
        FloatOp::PercentBelow => x * (1.0 - y / 100.0),
        FloatOp::PercentAbove => x * (1.0 + y / 100.0),
    })
}

trait AsFloat {
    type Float;
    fn f(&self) -> Self::Float;
}

impl AsFloat for Num {
    type Float = f64;
    fn f(&self) -> f64 {
        f64::from_bits(self.bits)
    }
}

impl AsFloat for Option<Num> {
    type Float = Option<f64>;
    fn f(&self) -> Option<f64> {
        self.as_ref().map(|n| n.f())
    }
}

fn reading(x: f64) -> Reading {
    Reading {
        num: num(x),
        millis: (x * 1000.0) as u64,
        whole: x as i64,
        rounded: num(format!("{x:.8}").parse::<f64>().unwrap()),
    }
}

fn text(s: &str) -> JsonText {
    JsonText { text: s.to_string(), reading: s.parse::<f64>().ok().map(reading) }
}

fn json(v: &Value) -> Json {
    match v {
        Value::Null => Json::Null,
        Value::Bool(b) => Json::Bool(*b),
        Value::Number(n) => Json::Number(match (n.as_u64(), n.as_i64()) {
            (Some(u), _) => JsonNumber::PosInt(u, reading(n.as_f64().unwrap())),
            (None, Some(i)) => JsonNumber::NegInt(i, reading(n.as_f64().unwrap())),
            _ => JsonNumber::Float(reading(n.as_f64().unwrap()), n.to_string()),
        }),
        Value::String(s) => Json::Str(text(s)),
        Value::Array(a) => Json::Arr(a.iter().map(json).collect()),
        Value::Object(o) => Json::Obj(o.iter().map(|(k, v)| (k.clone(), json(v))).collect()),
    }
}

fn render(pieces: &[Piece]) -> String {
    pieces
        .iter()
        .map(|p| match p {
            Piece::Text(s) => s.clone(),
            Piece::Fixed { num, decimals } => {
                format!("{:.*}", *decimals as usize, num.f())
            }
        })
        .collect()
}

fn document(s: &str) -> Json {
    json(&serde_json::from_str(s).unwrap())
}

fn message(d: &Json) -> OkxWsMessage<'_> {
    OkxWsMessage::from_value(d).unwrap()
}

fn price_level(price: &str, size: &str) -> PriceLevel {
    vec![text(price), text(size)]
}

#[test]
fn okx_lob_test_new_book_empty() {
    let book = OrderBook::new();
    assert_eq!(book.num_bids(), 0);
    assert_eq!(book.num_asks(), 0);
    assert_eq!(book.best_bid().f(), None);
    assert_eq!(book.best_ask().f(), None);
    assert_eq!(book.spread(&unit).f(), None);
}

#[test]
fn okx_lob_test_apply_snapshot_replaces_levels() {
    let mut book = OrderBook::new();
    book.apply_snapshot(&vec![price_level("100.0", "1.0"), price_level("99.0", "2.0")], Side::Bid);
    assert_eq!(book.num_bids(), 2);
    assert!((book.best_bid().f().unwrap() - 100.0).abs() < f64::EPSILON);

    // Second snapshot replaces
    book.apply_snapshot(&vec![price_level("98.0", "3.0")], Side::Bid);
    assert_eq!(book.num_bids(), 1);
    assert!((book.best_bid().f().unwrap() - 98.0).abs() < f64::EPSILON);
}

#[test]
fn okx_lob_test_apply_update_upserts() {
    let mut book = OrderBook::new();
    book.apply_snapshot(&vec![price_level("100.0", "1.0")], Side::Bid);
    book.apply_update(&vec![price_level("100.0", "5.0")], Side::Bid);
    assert_eq!(book.top_bids(1)[0].size.f(), 5.0);
}

#[test]
fn okx_lob_test_apply_update_removes() {
    let mut book = OrderBook::new();
    book.apply_snapshot(&vec![price_level("100.0", "1.0"), price_level("99.0", "2.0")], Side::Bid);
    book.apply_update(&vec![price_level("100.0", "0.0")], Side::Bid);
    assert_eq!(book.num_bids(), 1);
    assert!(book.best_bid().f() != Some(100.0));
}

#[test]
fn test_apply_update_unknown_level() {
    let mut book = OrderBook::new();
    book.apply_update(&vec![price_level("999.0", "0.0")], Side::Bid);
    assert_eq!(book.num_bids(), 0);
}

#[test]
fn test_snapshot_then_updates() {
    let mut book = OrderBook::new();
    book.apply_snapshot(&vec![
            price_level("100.0", "10.0"),
            price_level("99.0", "20.0"),
            price_level("98.0", "30.0"),
        ], Side::Bid);
    book.apply_snapshot(&vec![price_level("101.0", "15.0"), price_level("102.0", "25.0")], Side::Ask);

    assert!((book.best_bid().f().unwrap() - 100.0).abs() < f64::EPSILON);
    assert!((book.best_ask().f().unwrap() - 101.0).abs() < f64::EPSILON);

    // Update: remove best bid, reduce ask
    book.apply_update(&vec![price_level("100.0", "0.0")], Side::Bid);
    book.apply_update(&vec![price_level("101.0", "10.0")], Side::Ask);

    assert!((book.best_bid().f().unwrap() - 99.0).abs() < f64::EPSILON);
    assert_eq!(book.top_asks(1)[0].size.f(), 10.0);
}

#[test]
fn okx_lob_test_spread_calculation() {
    let mut book = OrderBook::new();
    book.apply_snapshot(&vec![price_level("100.0", "1.0")], Side::Bid);
    book.apply_snapshot(&vec![price_level("101.0", "1.0")], Side::Ask);
    let s = book.spread(&unit).f();
    assert!(s.is_some());
    assert!((s.unwrap() - 1.0).abs() < f64::EPSILON);
}

#[test]
fn test_spread_empty() {
    let book = OrderBook::new();
    assert_eq!(book.spread(&unit).f(), None);
}

#[test]
fn okx_lob_test_display_contains_counts() {
    let mut book = OrderBook::new();
    book.apply_snapshot(&vec![price_level("100.0", "1.0"), price_level("99.0", "2.0")], Side::Bid);
    book.apply_snapshot(&vec![price_level("101.0", "3.0")], Side::Ask);
    let out = render(&book.display("BTC-USDT", &num(100.0), &unit));
    assert!(out.contains("bids=2"));
    assert!(out.contains("asks=1"));
    assert!(out.contains("bids: ["));
    assert!(out.contains("] | asks: ["));
}

#[test]
fn test_display_empty_book() {
    let book = OrderBook::new();
    let out = render(&book.display("BTC-USDT", &num(0.1), &unit));
    assert!(out.contains("bids=0"));
    assert!(out.contains("asks=0"));
    assert!(out.contains("bids: ["));
    assert!(out.contains("] | asks: ["));
}

#[test]
fn test_display_shows_all_levels() {
    let mut book = OrderBook::new();
    book.apply_snapshot(&vec![
            price_level("100.0", "1.0"),
            price_level("99.5", "2.0"),
            price_level("99.0", "3.0"),
            price_level("98.0", "4.0"),
        ], Side::Bid);
    let out = render(&book.display("X", &num(0.5), &unit));
    assert!(out.contains("100.00"), "out = {}", out);
    assert!(out.contains("99.50"), "out = {}", out);
    assert!(out.contains("99.00"), "out = {}", out);
    assert!(out.contains("98.00"), "out = {}", out);
}

#[test]
fn test_display_format_brackets() {
    let mut book = OrderBook::new();
    book.apply_snapshot(&vec![price_level("100.0", "1.0")], Side::Bid);
    book.apply_snapshot(&vec![price_level("101.0", "2.0")], Side::Ask);
    let out = render(&book.display("T", &num(100.0), &unit));
    assert!(
        out.starts_with("T  bids=1  asks=1  spread=1.00  bids: [ "),
        "out = {}",
        out
    );
    assert!(out.contains("] | asks: [ "), "out = {}", out);
}

#[test]
fn okx_lob_test_process_msg_snapshot() {
    let json = r#"{
        "arg": {"channel": "books", "instId": "BTC-USDT"},
        "action": "snapshot",
        "data": [{
            "asks": [["101.0","1.5","0","1"],["102.0","2.0","0","1"]],
            "bids": [["100.0","3.0","0","2"],["99.0","0.5","0","1"]],
            "ts": "1000",
            "checksum": 0
        }]
    }"#;
    let msg_doc = document(json);
    let msg = message(&msg_doc);
    let mut book = OrderBook::new();
    book.process_msg(&msg);
    assert_eq!(book.num_bids(), 2);
    assert_eq!(book.num_asks(), 2);
    assert!((book.best_bid().f().unwrap() - 100.0).abs() < f64::EPSILON);
    assert!((book.best_ask().f().unwrap() - 101.0).abs() < f64::EPSILON);
}

#[test]
fn test_process_msg_update() {
    let json_snap = r#"{
        "arg": {"channel": "books", "instId": "BTC-USDT"},
        "action": "snapshot",
        "data": [{"asks":[["101.0","1.0","0","0"]],"bids":[["100.0","1.0","0","0"]],"ts":"0","checksum":0}]
    }"#;
    let json_upd = r#"{
        "arg": {"channel": "books", "instId": "BTC-USDT"},
        "action": "update",
        "data": [{"asks":[["101.0","0","0","0"]],"bids":[["100.0","5.0","0","0"]],"ts":"1","checksum":0}]
    }"#;
    let mut book = OrderBook::new();
    book.process_msg(&message(&document(json_snap)));
    assert_eq!(book.num_bids(), 1);
    assert_eq!(book.num_asks(), 1);

    book.process_msg(&message(&document(json_upd)));
    assert_eq!(book.num_asks(), 0); // removed
    assert_eq!(book.top_bids(1)[0].size.f(), 5.0); // upserted
}

#[test]
fn okx_lob_test_levels_within_pct_filters_bids() {
    let mut book = OrderBook::new();
    book.apply_snapshot(&vec![
            price_level("100.0", "1.0"),
            price_level("99.5", "2.0"),
            price_level("99.0", "3.0"),
            price_level("98.0", "4.0"),
        ], Side::Bid);
    // top_pct=0.5 → only bids >= 100.0 * (1 - 0.5/100) = 99.5
    let (bids, asks) = book.levels_within_pct(&num(0.5), &unit);
    assert_eq!(asks.len(), 0);
    assert_eq!(bids.len(), 2);
    assert!((bids[0].price.f() - 100.0).abs() < f64::EPSILON);
    assert!((bids[1].price.f() - 99.5).abs() < f64::EPSILON);
    assert!((bids[0].size.f() - 1.0).abs() < f64::EPSILON);
    assert!((bids[1].size.f() - 2.0).abs() < f64::EPSILON);
}

#[test]
fn test_levels_within_pct_filters_asks() {
    let mut book = OrderBook::new();
    book.apply_snapshot(&vec![
            price_level("101.0", "1.0"),
            price_level("101.5", "2.0"),
            price_level("102.0", "3.0"),
        ], Side::Ask);
    // top_pct=0.5 → only asks <= 101.0 * (1 + 0.5/100) = 101.505
    let (bids, asks) = book.levels_within_pct(&num(0.5), &unit);
    assert_eq!(bids.len(), 0);
    assert_eq!(asks.len(), 2);
    assert!((asks[0].price.f() - 101.0).abs() < f64::EPSILON);
    assert!((asks[1].price.f() - 101.5).abs() < f64::EPSILON);
}

#[test]
fn test_levels_within_pct_empty_handling() {
    let book = OrderBook::new();
    let (bids, asks) = book.levels_within_pct(&num(0.1), &unit);
    assert!(bids.is_empty());
    assert!(asks.is_empty());
}

#[test]
fn test_levels_within_pct_shows_all_at_100() {
    let mut book = OrderBook::new();
    book.apply_snapshot(&vec![price_level("100.0", "1.0"), price_level("50.0", "2.0")], Side::Bid);
    let (bids, _) = book.levels_within_pct(&num(100.0), &unit);
    assert_eq!(bids.len(), 2);
}

#[test]
fn test_full_lob_flow_snapshot_update_depth() {
    let mut book = OrderBook::new();

    // 1. Apply a snapshot with multiple levels on both sides
    book.apply_snapshot(&vec![
            price_level("100.0", "1.0"),
            price_level("99.5", "2.0"),
            price_level("99.0", "3.0"),
            price_level("98.0", "4.0"),
        ], Side::Bid);
    book.apply_snapshot(&vec![
            price_level("101.0", "1.5"),
            price_level("101.5", "2.5"),
            price_level("102.0", "3.5"),
        ], Side::Ask);

    assert_eq!(book.num_bids(), 4);
    assert_eq!(book.num_asks(), 3);

    // 2. Apply an update that removes a bid level (zero volume) and adds a new ask level
    book.apply_update(&vec![price_level("99.5", "0.0")], // remove bid at 99.5
        Side::Bid);
    book.apply_update(&vec![price_level("103.0", "5.0")], // new ask at 103.0
        Side::Ask);
    assert_eq!(book.num_bids(), 3);
    assert!((book.best_bid().f().unwrap() - 100.0).abs() < f64::EPSILON);
    assert_eq!(book.num_asks(), 4);

    // 3. Verify levels_within_pct with narrow filter (0.1%)
    let (bids, asks) = book.levels_within_pct(&num(0.1), &unit);
    // top_pct=0.1: bid_threshold=100*0.999=99.9, ask_threshold=101*1.001=101.101
    // Bids >= 99.9: only 100.0 (1 level)
    // Asks <= 101.101: only 101.0 (1 level)
    assert_eq!(bids.len(), 1, "narrow filter: only best bid");
    assert_eq!(asks.len(), 1, "narrow filter: only best ask");

    // 4. Verify levels_within_pct with wider filter (1.0%)
    let (bids, asks) = book.levels_within_pct(&num(1.0), &unit);
    // top_pct=1.0: bid_threshold=100*0.99=99.0, ask_threshold=101*1.01=102.01
    // Bids >= 99.0: 100.0, 99.0 (2 levels — 99.5 was removed)
    // Asks <= 102.01: 101.0, 101.5, 102.0 (3 levels)
    assert_eq!(bids.len(), 2, "1% filter shows 2 bids");
    assert_eq!(asks.len(), 3, "1% filter shows 3 asks");

    // 5. Verify that removed level (99.5) does not appear even with 100% filter
    let (bids, _) = book.levels_within_pct(&num(100.0), &unit);
    assert_eq!(bids.len(), 3, "after removal, only 3 bids remain");
    assert!(
        !bids.iter().any(|l| (l.price.f() - 99.5).abs() < f64::EPSILON),
        "removed bid at 99.5 should not appear"
    );
}

#[test]
fn test_zero_amount_passes_parse_level() {
    let level = price_level("100.0", "0.0");
    let result = parse_price_level(&level);
    assert!(result.is_some(), "zero amount should parse");
    let (price, amount) = result.unwrap();
    assert!((price.f() - 100.0).abs() < f64::EPSILON);
    assert!((amount.f() - 0.0).abs() < f64::EPSILON);
}

#[test]
fn okx_lob_test_to_lob_item_returns_none_when_empty() {
    let book = OrderBook::new();
    let result = book.to_lob_item(0, "test", None, &num(0.0), &unit);
    assert!(
        result.is_none(),
        "Should return None when bids or asks are empty"
    );
}

#[test]
fn okx_lob_test_to_lob_item_filters_by_max_level() {
    let mut book = OrderBook::new();
    book.apply_snapshot(&vec![
            price_level("100.0", "1.0"),
            price_level("99.0", "2.0"),
            price_level("98.0", "3.0"),
        ], Side::Bid);
    book.apply_snapshot(&vec![
            price_level("101.0", "1.0"),
            price_level("102.0", "2.0"),
            price_level("103.0", "3.0"),
        ], Side::Ask);
    let lob = book.to_lob_item(0, "test", Some(2), &num(0.0), &unit).unwrap();
    assert_eq!(lob.bids.len(), 2);
    assert_eq!(lob.asks.len(), 2);
}

#[test]
fn okx_lob_test_to_lob_item_sorts_bids_with_best_bid_last() {
    let mut book = OrderBook::new();
    book.apply_snapshot(&vec![price_level("100.0", "1.0")], Side::Bid);
    book.apply_snapshot(&vec![price_level("101.0", "1.0")], Side::Ask);
    book.apply_update(&vec![price_level("99.0", "2.0")], Side::Bid);
    book.apply_update(&vec![price_level("98.0", "3.0")], Side::Bid);
    let lob = book.to_lob_item(0, "test", Some(10), &num(0.0), &unit).unwrap();
    assert_eq!(lob.bids.len(), 3);
    assert!(
        (lob.bids[2].price.f() - 100.0).abs() < f64::EPSILON,
        "Best bid (100.0) should be last element"
    );
}

#[test]
fn okx_lob_test_to_lob_item_sorts_asks_with_best_ask_first() {
    let mut book = OrderBook::new();
    book.apply_snapshot(&vec![price_level("101.0", "1.0")], Side::Ask);
    book.apply_snapshot(&vec![price_level("100.0", "1.0")], Side::Bid);
    book.apply_update(&vec![price_level("102.0", "2.0")], Side::Ask);
    book.apply_update(&vec![price_level("103.0", "3.0")], Side::Ask);
    let lob = book.to_lob_item(0, "test", Some(10), &num(0.0), &unit).unwrap();
    assert_eq!(lob.asks.len(), 3);
    assert!(
        (lob.asks[0].price.f() - 101.0).abs() < f64::EPSILON,
        "Best ask (101.0) should be first element"
    );
}

#[test]
fn okx_lob_test_to_lob_item_pct_zero_keeps_all_levels() {
    let mut book = OrderBook::new();
    book.apply_snapshot(&vec![
            price_level("100.0", "1.0"),
            price_level("99.0", "2.0"),
            price_level("98.0", "3.0"),
        ], Side::Bid);
    book.apply_snapshot(&vec![
            price_level("101.0", "1.0"),
            price_level("102.0", "2.0"),
            price_level("103.0", "3.0"),
        ], Side::Ask);
    // max_level_pct = 0.0 should be normalized to 100.0 → no filtering
    let lob = book.to_lob_item(0, "test", None, &num(0.0), &unit).unwrap();
    assert_eq!(lob.bids.len(), 3, "pct=0.0 should keep all bids");
    assert_eq!(lob.asks.len(), 3, "pct=0.0 should keep all asks");
}

#[test]
fn okx_lob_test_to_lob_item_pct_100_keeps_all_levels() {
    let mut book = OrderBook::new();
    book.apply_snapshot(&vec![price_level("100.0", "1.0")], Side::Bid);
    book.apply_snapshot(&vec![price_level("101.0", "1.0")], Side::Ask);
    let lob = book.to_lob_item(0, "test", None, &num(100.0), &unit).unwrap();
    assert_eq!(lob.bids.len(), 1);
    assert_eq!(lob.asks.len(), 1);
}

#[test]
fn okx_lob_test_to_lob_item_pct_above_100_keeps_all_levels() {
    let mut book = OrderBook::new();
    book.apply_snapshot(&vec![price_level("100.0", "1.0"), price_level("50.0", "2.0")], Side::Bid);
    book.apply_snapshot(&vec![price_level("101.0", "1.0")], Side::Ask);
    // max_level_pct = 150.0 should be normalized to 100.0 → no filtering
    let lob = book.to_lob_item(0, "test", None, &num(150.0), &unit).unwrap();
    assert_eq!(lob.bids.len(), 2, "pct=150.0 should keep all bids");
    assert_eq!(lob.asks.len(), 1);
}

#[test]
fn okx_lob_test_full_lob_item_returns_all_levels() {
    let mut book = OrderBook::new();
    book.apply_snapshot(&vec![
            price_level("100.0", "1.0"),
            price_level("99.0", "2.0"),
            price_level("98.0", "3.0"),
            price_level("97.0", "4.0"),
        ], Side::Bid);
    book.apply_snapshot(&vec![
            price_level("101.0", "1.0"),
            price_level("102.0", "2.0"),
            price_level("103.0", "3.0"),
            price_level("104.0", "4.0"),
        ], Side::Ask);
    let lob = book.full_lob_item(0, "okx", &unit).unwrap();
    assert_eq!(
        lob.bids.len(),
        4,
        "full_lob_item must return ALL 4 bid levels (no filtering)"
    );
    assert_eq!(
        lob.asks.len(),
        4,
        "full_lob_item must return ALL 4 ask levels (no filtering)"
    );
}

#[test]
fn okx_lob_test_memory_retains_all_levels_after_filtered_lob_item() {
    let mut book = OrderBook::new();
    book.apply_snapshot(&vec![
            price_level("100.0", "1.0"),
            price_level("99.0", "2.0"),
            price_level("98.0", "3.0"),
            price_level("97.0", "4.0"),
        ], Side::Bid);
    book.apply_snapshot(&vec![
            price_level("101.0", "1.0"),
            price_level("102.0", "2.0"),
            price_level("103.0", "3.0"),
            price_level("104.0", "4.0"),
        ], Side::Ask);
    // to_lob_item with max_level=1 must produce a 1-level lob...
    let lob = book.to_lob_item(0, "okx", Some(1), &num(0.0), &unit).unwrap();
    assert_eq!(lob.bids.len(), 1, "filtered lob should have 1 bid");
    assert_eq!(lob.asks.len(), 1, "filtered lob should have 1 ask");
    // ...but the in-memory book must STILL contain all 4 levels.
    assert_eq!(
        book.num_bids(),
        4,
        "memory book must retain all 4 bids after filtered emit"
    );
    assert_eq!(
        book.num_asks(),
        4,
        "memory book must retain all 4 asks after filtered emit"
    );
}

#[test]
fn okx_lob_test_full_lob_item_equals_unfiltered_to_lob_item() {
    let mut book = OrderBook::new();
    book.apply_snapshot(&vec![
            price_level("100.0", "1.0"),
            price_level("99.0", "2.0"),
            price_level("98.0", "3.0"),
        ], Side::Bid);
    book.apply_snapshot(&vec![
            price_level("101.0", "1.0"),
            price_level("102.0", "2.0"),
            price_level("103.0", "3.0"),
        ], Side::Ask);
    let full = book.full_lob_item(0, "okx", &unit).unwrap();
    let unfiltered = book.to_lob_item(0, "okx", None, &num(0.0), &unit).unwrap();
    assert_eq!(full.bids.len(), unfiltered.bids.len());
    assert_eq!(full.asks.len(), unfiltered.asks.len());
    for (a, b) in full.bids.iter().zip(unfiltered.bids.iter()) {
        assert_eq!(a.price.f(), b.price.f());
        assert_eq!(a.size.f(), b.size.f());
    }
    for (a, b) in full.asks.iter().zip(unfiltered.asks.iter()) {
        assert_eq!(a.price.f(), b.price.f());
        assert_eq!(a.size.f(), b.size.f());
    }
}

#[test]
fn okx_lob_test_to_lob_item_with_filter_returns_fewer_levels_than_full() {
    let mut book = OrderBook::new();
    book.apply_snapshot(&vec![
            price_level("100.0", "1.0"),
            price_level("99.0", "2.0"),
            price_level("98.0", "3.0"),
            price_level("97.0", "4.0"),
            price_level("96.0", "5.0"),
        ], Side::Bid);
    book.apply_snapshot(&vec![
            price_level("101.0", "1.0"),
            price_level("102.0", "2.0"),
            price_level("103.0", "3.0"),
            price_level("104.0", "4.0"),
            price_level("105.0", "5.0"),
        ], Side::Ask);
    let full = book.full_lob_item(0, "okx", &unit).unwrap();
    let filtered = book.to_lob_item(0, "okx", Some(2), &num(0.0), &unit).unwrap();
    assert_eq!(full.bids.len(), 5, "memory has 5 bids");
    assert_eq!(filtered.bids.len(), 2, "filtered lob has 2 bids");
    assert_eq!(full.asks.len(), 5, "memory has 5 asks");
    assert_eq!(filtered.asks.len(), 2, "filtered lob has 2 asks");
}

#[test]
fn test_apply_update_cannot_cross_book_as_bid() {
    let mut book = OrderBook::new();
    book.apply_snapshot(&vec![price_level("100.0", "1.0")], Side::Bid);
    book.apply_snapshot(&vec![price_level("101.0", "1.0")], Side::Ask);
    assert!(book.best_bid().f() < Some(101.0));

    // An update that would push a bid above the best ask must be guarded.
    book.apply_update(&vec![price_level("102.0", "5.0")], Side::Bid);
    assert!(
        book.best_bid().f().map(|b| b <= 101.0).unwrap_or(true),
        "best bid must not exceed best ask after update, but best_bid={:?} best_ask={:?}",
        book.best_bid().f(),
        book.best_ask().f()
    );
}

#[test]
fn test_apply_update_cannot_cross_book_as_ask() {
    let mut book = OrderBook::new();
    book.apply_snapshot(&vec![price_level("100.0", "1.0")], Side::Bid);
    book.apply_snapshot(&vec![price_level("101.0", "1.0")], Side::Ask);

    // An update that would push an ask below the best bid must be guarded.
    book.apply_update(&vec![price_level("99.0", "5.0")], Side::Ask);
    assert!(
        book.best_ask().f().map(|a| a >= 100.0).unwrap_or(true),
        "best ask must not fall below best bid after update, but best_bid={:?} best_ask={:?}",
        book.best_bid().f(),
        book.best_ask().f()
    );
}

#[test]
fn test_repair_crossing_clears_okx_book() {
    // Construct the crossed state directly: apply_snapshot would itself call
    // repair_crossing and clear it before we can observe the pre-repair state.
    let mut book = OrderBook::new();
    book.depth.set_level(Side::Bid, &num(102.0), &num(1.0));
    book.depth.set_level(Side::Ask, &num(100.0), &num(1.0));
    // book is now crossed: best bid 102 >= best ask 100
    assert_eq!(book.best_bid().f(), Some(102.0));
    assert_eq!(book.best_ask().f(), Some(100.0));
    book.repair_crossing();
    assert!(
        book.num_bids() == 0 && book.num_asks() == 0,
        "repair_crossing must clear a crossed book"
    );
    assert!(book.needs_resync(), "repair_crossing must set needs_resync");
}

#[test]
fn okx_lob_test_checksum_mismatch_flags_without_resetting_book() {
    let mut book = OrderBook::new();
    book.apply_snapshot(&vec![price_level("100.0", "1.0")], Side::Bid);
    book.apply_snapshot(&vec![price_level("101.0", "1.0")], Side::Ask);
    // Deliberately wrong checksum: must flag checksum_failed but NOT clear
    // the book (it only warns).
    let computed = book.compute_checksum(10);
    let wrong = (computed as i64).wrapping_add(1);
    assert!(!book.verify_checksum(wrong), "mismatch must return false");
    assert!(book.checksum_failed(), "mismatch must flag checksum_failed");
    assert!(!book.needs_resync(), "mismatch must NOT flag needs_resync");
    assert_eq!(book.num_bids(), 1, "book levels must be retained");
    assert_eq!(book.num_asks(), 1);
}

#[test]
fn okx_lob_test_checksum_match_does_not_trigger_resync() {
    let mut book = OrderBook::new();
    book.apply_snapshot(&vec![price_level("100.0", "1.0")], Side::Bid);
    book.apply_snapshot(&vec![price_level("101.0", "1.0")], Side::Ask);
    let computed = book.compute_checksum(10);
    assert!(
        book.verify_checksum(computed as i64),
        "match must return true"
    );
    assert!(!book.needs_resync());
    assert!(!book.checksum_failed());
}

#[test]
fn okx_lob_test_checksum_zero_skips_validation() {
    let mut book = OrderBook::new();
    book.apply_snapshot(&vec![price_level("100.0", "1.0")], Side::Bid);
    book.apply_snapshot(&vec![price_level("101.0", "1.0")], Side::Ask);
    assert!(book.verify_checksum(0));
    assert!(!book.needs_resync());
}

#[test]
fn test_reset_clears_okx_book_and_flags() {
    let mut book = OrderBook::new();
    book.apply_snapshot(&vec![price_level("100.0", "1.0")], Side::Bid);
    book.apply_snapshot(&vec![price_level("101.0", "1.0")], Side::Ask);
    // Corrupt via checksum mismatch, then reset.
    let computed = book.compute_checksum(10);
    book.verify_checksum((computed as i64).wrapping_add(1));
    assert!(book.checksum_failed());
    assert_eq!(book.num_bids(), 1);
    book.reset();
    assert_eq!(book.num_bids(), 0);
    assert_eq!(book.num_asks(), 0);
    assert!(book.best_bid().f().is_none());
    assert!(!book.needs_resync());
    assert!(!book.checksum_failed(), "reset must clear checksum_failed");
}

#[test]
fn test_should_log_mismatch_gating() {
    assert!(
        !OrderBook::should_log_mismatch(false, false),
        "default (no opt-in, no debug) must stay silent"
    );
    assert!(
        OrderBook::should_log_mismatch(true, false),
        "checksum_log opt-in must surface the mismatch"
    );
    assert!(
        OrderBook::should_log_mismatch(false, true),
        "DEBUG log level must surface the mismatch"
    );
    assert!(
        OrderBook::should_log_mismatch(true, true),
        "checksum_log + DEBUG must surface the mismatch"
    );
}

#[test]
fn test_checksum_mismatch_flags_regardless_of_logging() {
    // The checksum_failed flag must be set on a mismatch even when logging
    // is suppressed (no opt-in, no DEBUG).
    let mut book = OrderBook::new();
    book.apply_snapshot(&vec![price_level("100.0", "1.0")], Side::Bid);
    book.apply_snapshot(&vec![price_level("101.0", "1.0")], Side::Ask);
    let computed = book.compute_checksum(10);
    assert!(!book.verify_checksum((computed as i64).wrapping_add(1)));
    assert!(
        book.checksum_failed(),
        "mismatch must flag checksum_failed even when not logging"
    );
}

#[test]
fn test_checksum_log_setter_and_getter() {
    let mut book = OrderBook::new();
    assert!(!book.checksum_log(), "defaults to false");
    book.set_checksum_log(true);
    assert!(book.checksum_log());
    book.set_checksum_log(false);
    assert!(!book.checksum_log());
}

#[test]
fn test_compute_checksum_is_deterministic() {
    let mut book = OrderBook::new();
    book.apply_snapshot(&vec![price_level("100.0", "1.0"), price_level("99.0", "2.0")], Side::Bid);
    book.apply_snapshot(&vec![price_level("101.0", "1.5"), price_level("102.0", "0.5")], Side::Ask);
    let c1 = book.compute_checksum(10);
    let c2 = book.compute_checksum(10);
    assert_eq!(c1, c2, "compute_checksum must be deterministic");
}

#[test]
fn okx_lob_test_format_number_strips_decimal_and_leading_zeros() {
    assert_eq!(format_number(&num(50001.5)), "500015");
    assert_eq!(format_number(&num(0.5)), "5");
    assert_eq!(format_number(&num(100.0)), "100");
    assert_eq!(format_number(&num(1.0)), "1");
}

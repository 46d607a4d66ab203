//! The order book of Kraken.

use cryptomeria_ingest::checksum::format_number;
use cryptomeria_ingest::items::LobLevel;
use cryptomeria_ingest::json::Json;
use cryptomeria_ingest::json::JsonNumber;
use cryptomeria_ingest::json::JsonText;
use cryptomeria_ingest::json::Reading;
use cryptomeria_ingest::kraken::lob::OrderBook;
use cryptomeria_ingest::kraken::lob::Side;
use cryptomeria_ingest::kraken::types::KrakenWsMessage;
use cryptomeria_ingest::line::Piece;
use cryptomeria_ingest::num::FloatOp;
use cryptomeria_ingest::num::Num;
use serde_json::Value;

fn num(x: f64) -> Num {
    Num::new(x.to_bits(), x.to_string())
}

fn unit(op: FloatOp, a: Num, b: Num) -> Num {
    let (x, y) = (f64::from_bits(a.bits), f64::from_bits(b.bits));
    num(match op {
        FloatOp::Sum => x + y,
        FloatOp::Difference => x - y,
        FloatOp::PercentBelow => x * (1.0 - y / 100.0),
        FloatOp::PercentAbove => x * (1.0 + y / 100.0),
    })
}

trait AsFloat {
    type Float;
    fn f(&self) -> Self::Float;
}

impl AsFloat for Num {
    type Float = f64;
    fn f(&self) -> f64 {
        f64::from_bits(self.bits)
    }
}

impl AsFloat for Option<Num> {
    type Float = Option<f64>;
    fn f(&self) -> Option<f64> {
        self.as_ref().map(|n| n.f())
    }
}

fn levels(pairs: &[(f64, f64)]) -> Vec<LobLevel> {
    pairs.iter().map(|(price, size)| LobLevel { price: num(*price), size: num(*size) }).collect()
}

fn reading(x: f64) -> Reading {
    Reading {
        num: num(x),
        millis: (x * 1000.0) as u64,
        whole: x as i64,
        rounded: num(format!("{x:.8}").parse::<f64>().unwrap()),
    }
}

fn text(s: &str) -> JsonText {
    JsonText { text: s.to_string(), reading: s.parse::<f64>().ok().map(reading) }
}

fn json(v: &Value) -> Json {
    match v {
        Value::Null => Json::Null,
        Value::Bool(b) => Json::Bool(*b),
        Value::Number(n) => Json::Number(match (n.as_u64(), n.as_i64()) {
            (Some(u), _) => JsonNumber::PosInt(u, reading(n.as_f64().unwrap())),
            (None, Some(i)) => JsonNumber::NegInt(i, reading(n.as_f64().unwrap())),
            _ => JsonNumber::Float(reading(n.as_f64().unwrap()), n.to_string()),
        }),
        Value::String(s) => Json::Str(text(s)),
        Value::Array(a) => Json::Arr(a.iter().map(json).collect()),
        Value::Object(o) => Json::Obj(o.iter().map(|(k, v)| (k.clone(), json(v))).collect()),
    }
}

fn render(pieces: &[Piece]) -> String {
    pieces
        .iter()
        .map(|p| match p {
            Piece::Text(s) => s.clone(),
            Piece::Fixed { num, decimals } => {
                format!("{:.*}", *decimals as usize, num.f())
            }
        })
        .collect()
}

fn document(s: &str) -> Json {
    json(&serde_json::from_str(s).unwrap())
}

fn message(d: &Json) -> KrakenWsMessage<'_> {
    KrakenWsMessage::from_value(d).unwrap()
}

#[test]
fn kraken_lob_test_new_book_empty() {
    let book = OrderBook::new();
    assert_eq!(book.num_bids(), 0);
    assert_eq!(book.num_asks(), 0);
}

#[test]
fn lob_test_apply_snapshot_replaces_levels() {
    let mut book = OrderBook::new();
    book.apply_snapshot(&levels(&[(50000.0, 1.0), (49900.0, 2.0)]), Side::Bid);
    assert_eq!(book.num_bids(), 2);
    assert!((book.best_bid().f().unwrap() - 50000.0).abs() < f64::EPSILON);

    book.apply_snapshot(&levels(&[(49800.0, 3.0)]), Side::Bid);
    assert_eq!(book.num_bids(), 1);
}

#[test]
fn lob_test_apply_update_upserts() {
    let mut book = OrderBook::new();
    book.apply_snapshot(&levels(&[(50000.0, 1.0)]), Side::Bid);
    book.apply_update(&levels(&[(50000.0, 5.0)]), Side::Bid);
    assert_eq!(
        book.top_bids(1)[0].size.f(),
        5.0
    );
}

#[test]
fn lob_test_apply_update_removes() {
    let mut book = OrderBook::new();
    book.apply_snapshot(&levels(&[(50000.0, 1.0), (49900.0, 2.0)]), Side::Bid);
    book.apply_update(&levels(&[(50000.0, 0.0)]), Side::Bid);
    assert_eq!(book.num_bids(), 1);
}

#[test]
fn kraken_lob_test_spread_calculation() {
    let mut book = OrderBook::new();
    book.apply_snapshot(&levels(&[(50000.0, 1.0)]), Side::Bid);
    book.apply_snapshot(&levels(&[(50100.0, 1.0)]), Side::Ask);
    let s = book.spread(&unit).f();
    assert!(s.is_some());
    assert!((s.unwrap() - 100.0).abs() < f64::EPSILON);
}

#[test]
fn kraken_lob_test_display_contains_counts() {
    let mut book = OrderBook::new();
    book.apply_snapshot(&levels(&[(50000.0, 1.0), (49900.0, 2.0)]), Side::Bid);
    book.apply_snapshot(&levels(&[(50100.0, 3.0)]), Side::Ask);
    let out = render(&book.display("XBT/USD", &num(100.0), &unit));
    assert!(out.contains("bids=2"));
    assert!(out.contains("asks=1"));
}

#[test]
fn lob_test_process_msg_snapshot() {
    let json = r#"{
        "channel": "book",
        "type": "snapshot",
        "data": [{
            "symbol": "XBT/USD",
            "bids": [
                {"price": 50000.0, "qty": 1.0},
                {"price": 49900.0, "qty": 2.0}
            ],
            "asks": [
                {"price": 50100.0, "qty": 1.5}
            ],
            "checksum": 0,
            "timestamp": "2024-01-15T10:30:00.000000Z"
        }]
    }"#;
    let msg_doc = document(json);
    let msg = message(&msg_doc);
    let mut book = OrderBook::new();
    book.process_msg(&msg);
    assert_eq!(book.num_bids(), 2);
    assert_eq!(book.num_asks(), 1);
}

#[test]
fn kraken_lob_test_to_lob_item_returns_none_when_empty() {
    let book = OrderBook::new();
    let result = book.to_lob_item(0, "test", None, &num(0.0), &unit);
    assert!(
        result.is_none(),
        "Should return None when bids or asks are empty"
    );
}

#[test]
fn kraken_lob_test_to_lob_item_filters_by_max_level() {
    let mut book = OrderBook::new();
    book.apply_snapshot(&levels(&[(50000.0, 1.0), (49900.0, 2.0), (49800.0, 3.0)]), Side::Bid);
    book.apply_snapshot(&levels(&[(50100.0, 1.0), (50200.0, 2.0), (50300.0, 3.0)]), Side::Ask);
    let lob = book.to_lob_item(0, "test", Some(2), &num(0.0), &unit).unwrap();
    assert_eq!(lob.bids.len(), 2);
    assert_eq!(lob.asks.len(), 2);
}

#[test]
fn kraken_lob_test_to_lob_item_sorts_bids_with_best_bid_last() {
    let mut book = OrderBook::new();
    book.apply_snapshot(&levels(&[(50000.0, 1.0)]), Side::Bid);
    book.apply_snapshot(&levels(&[(50100.0, 1.0)]), Side::Ask);
    book.apply_update(&levels(&[(49900.0, 2.0)]), Side::Bid);
    book.apply_update(&levels(&[(49800.0, 3.0)]), Side::Bid);
    let lob = book.to_lob_item(0, "test", Some(10), &num(0.0), &unit).unwrap();
    assert_eq!(lob.bids.len(), 3);
    assert!(
        (lob.bids[2].price.f() - 50000.0).abs() < f64::EPSILON,
        "Best bid (50000.0) should be last element"
    );
}

#[test]
fn kraken_lob_test_to_lob_item_sorts_asks_with_best_ask_first() {
    let mut book = OrderBook::new();
    book.apply_snapshot(&levels(&[(50100.0, 1.0)]), Side::Ask);
    book.apply_snapshot(&levels(&[(50000.0, 1.0)]), Side::Bid);
    book.apply_update(&levels(&[(50200.0, 2.0)]), Side::Ask);
    book.apply_update(&levels(&[(50300.0, 3.0)]), Side::Ask);
    let lob = book.to_lob_item(0, "test", Some(10), &num(0.0), &unit).unwrap();
    assert_eq!(lob.asks.len(), 3);
    assert!(
        (lob.asks[0].price.f() - 50100.0).abs() < f64::EPSILON,
        "Best ask (50100.0) should be first element"
    );
}

#[test]
fn kraken_lob_test_to_lob_item_pct_zero_keeps_all_levels() {
    let mut book = OrderBook::new();
    book.apply_snapshot(&levels(&[(50000.0, 1.0), (49900.0, 2.0), (49800.0, 3.0)]), Side::Bid);
    book.apply_snapshot(&levels(&[(50100.0, 1.0), (50200.0, 2.0), (50300.0, 3.0)]), Side::Ask);
    // max_level_pct = 0.0 should be normalized to 100.0 → no filtering
    let lob = book.to_lob_item(0, "test", None, &num(0.0), &unit).unwrap();
    assert_eq!(lob.bids.len(), 3, "pct=0.0 should keep all bids");
    assert_eq!(lob.asks.len(), 3, "pct=0.0 should keep all asks");
}

#[test]
fn kraken_lob_test_to_lob_item_pct_100_keeps_all_levels() {
    let mut book = OrderBook::new();
    book.apply_snapshot(&levels(&[(50000.0, 1.0)]), Side::Bid);
    book.apply_snapshot(&levels(&[(50100.0, 1.0)]), Side::Ask);
    let lob = book.to_lob_item(0, "test", None, &num(100.0), &unit).unwrap();
    assert_eq!(lob.bids.len(), 1);
    assert_eq!(lob.asks.len(), 1);
}

#[test]
fn kraken_lob_test_to_lob_item_pct_above_100_keeps_all_levels() {
    let mut book = OrderBook::new();
    book.apply_snapshot(&levels(&[(50000.0, 1.0), (40000.0, 2.0)]), Side::Bid);
    book.apply_snapshot(&levels(&[(50100.0, 1.0)]), Side::Ask);
    // max_level_pct = 150.0 should be normalized to 100.0 → no filtering
    let lob = book.to_lob_item(0, "test", None, &num(150.0), &unit).unwrap();
    assert_eq!(lob.bids.len(), 2, "pct=150.0 should keep all bids");
    assert_eq!(lob.asks.len(), 1);
}

#[test]
fn kraken_lob_test_full_lob_item_returns_all_levels() {
    let mut book = OrderBook::new();
    book.apply_snapshot(&levels(&[
            (50000.0, 1.0),
            (49900.0, 2.0),
            (49800.0, 3.0),
            (49700.0, 4.0),
        ]), Side::Bid);
    book.apply_snapshot(&levels(&[
            (50100.0, 1.0),
            (50200.0, 2.0),
            (50300.0, 3.0),
            (50400.0, 4.0),
        ]), Side::Ask);
    let lob = book.full_lob_item(0, "kraken", &unit).unwrap();
    assert_eq!(
        lob.bids.len(),
        4,
        "full_lob_item must return ALL 4 bid levels (no filtering)"
    );
    assert_eq!(
        lob.asks.len(),
        4,
        "full_lob_item must return ALL 4 ask levels (no filtering)"
    );
}

#[test]
fn kraken_lob_test_memory_retains_all_levels_after_filtered_lob_item() {
    let mut book = OrderBook::new();
    book.apply_snapshot(&levels(&[
            (50000.0, 1.0),
            (49900.0, 2.0),
            (49800.0, 3.0),
            (49700.0, 4.0),
        ]), Side::Bid);
    book.apply_snapshot(&levels(&[
            (50100.0, 1.0),
            (50200.0, 2.0),
            (50300.0, 3.0),
            (50400.0, 4.0),
        ]), Side::Ask);
    // to_lob_item with max_level=1 must produce a 1-level lob...
    let lob = book.to_lob_item(0, "kraken", Some(1), &num(0.0), &unit).unwrap();
    assert_eq!(lob.bids.len(), 1, "filtered lob should have 1 bid");
    assert_eq!(lob.asks.len(), 1, "filtered lob should have 1 ask");
    // ...but the in-memory book must STILL contain all 4 levels.
    assert_eq!(book.num_bids(), 4, "memory book must retain all 4 bids");
    assert_eq!(book.num_asks(), 4, "memory book must retain all 4 asks");
}

#[test]
fn kraken_lob_test_full_lob_item_equals_unfiltered_to_lob_item() {
    let mut book = OrderBook::new();
    book.apply_snapshot(&levels(&[(50000.0, 1.0), (49900.0, 2.0), (49800.0, 3.0)]), Side::Bid);
    book.apply_snapshot(&levels(&[(50100.0, 1.0), (50200.0, 2.0), (50300.0, 3.0)]), Side::Ask);
    let full = book.full_lob_item(0, "kraken", &unit).unwrap();
    let unfiltered = book.to_lob_item(0, "kraken", None, &num(0.0), &unit).unwrap();
    assert_eq!(full.bids.len(), unfiltered.bids.len());
    assert_eq!(full.asks.len(), unfiltered.asks.len());
    for (a, b) in full.bids.iter().zip(unfiltered.bids.iter()) {
        assert_eq!(a.price.f(), b.price.f());
        assert_eq!(a.size.f(), b.size.f());
    }
    for (a, b) in full.asks.iter().zip(unfiltered.asks.iter()) {
        assert_eq!(a.price.f(), b.price.f());
        assert_eq!(a.size.f(), b.size.f());
    }
}

#[test]
fn test_update_cannot_cross_book_as_bid() {
    let mut book = OrderBook::new();
    book.apply_snapshot(&levels(&[(49900.0, 1.0)]), Side::Bid);
    book.apply_snapshot(&levels(&[(50100.0, 1.0)]), Side::Ask);
    assert!(book.best_bid().f() < Some(50100.0));

    // An update that would push a bid above the best ask must be guarded.
    book.apply_update(&levels(&[(50200.0, 5.0)]), Side::Bid);
    assert!(
        book.best_bid().f().map(|b| b <= 50100.0).unwrap_or(true),
        "best bid must not exceed best ask after update, but best_bid={:?} best_ask={:?}",
        book.best_bid().f(),
        book.best_ask().f()
    );
}

#[test]
fn test_update_cannot_cross_book_as_ask() {
    let mut book = OrderBook::new();
    book.apply_snapshot(&levels(&[(50000.0, 1.0)]), Side::Bid);
    book.apply_snapshot(&levels(&[(50100.0, 1.0)]), Side::Ask);

    // An update that would push an ask below the best bid must be guarded.
    book.apply_update(&levels(&[(49950.0, 5.0)]), Side::Ask);
    assert!(
        book.best_ask().f().map(|a| a >= 50000.0).unwrap_or(true),
        "best ask must not fall below best bid after update, but best_bid={:?} best_ask={:?}",
        book.best_bid().f(),
        book.best_ask().f()
    );
}

#[test]
fn kraken_lob_test_to_lob_item_with_filter_returns_fewer_levels_than_full() {
    let mut book = OrderBook::new();
    book.apply_snapshot(&levels(&[
            (50000.0, 1.0),
            (49900.0, 2.0),
            (49800.0, 3.0),
            (49700.0, 4.0),
            (49600.0, 5.0),
        ]), Side::Bid);
    book.apply_snapshot(&levels(&[
            (50100.0, 1.0),
            (50200.0, 2.0),
            (50300.0, 3.0),
            (50400.0, 4.0),
            (50500.0, 5.0),
        ]), Side::Ask);
    let full = book.full_lob_item(0, "kraken", &unit).unwrap();
    let filtered = book.to_lob_item(0, "kraken", Some(2), &num(0.0), &unit).unwrap();
    assert_eq!(full.bids.len(), 5, "memory has 5 bids");
    assert_eq!(filtered.bids.len(), 2, "filtered lob has 2 bids");
    assert_eq!(full.asks.len(), 5, "memory has 5 asks");
    assert_eq!(filtered.asks.len(), 2, "filtered lob has 2 asks");
}

#[test]
fn lob_test_format_number_strips_decimal_and_leading_zeros() {
    assert_eq!(format_number(&num(50001.5)), "500015");
    assert_eq!(format_number(&num(0.5)), "5");
    assert_eq!(format_number(&num(50000.0)), "50000");
    assert_eq!(format_number(&num(1.0)), "1");
    assert_eq!(format_number(&num(0.5666)), "5666");
}

#[test]
fn test_compute_checksum_is_deterministic_and_differs_by_state() {
    let mut book = OrderBook::new();
    book.apply_snapshot(&levels(&[(50000.0, 1.0), (49900.0, 2.0)]), Side::Bid);
    book.apply_snapshot(&levels(&[(50100.0, 1.5), (50200.0, 0.5)]), Side::Ask);

    let c1 = book.compute_checksum(10);
    let c2 = book.compute_checksum(10);
    assert_eq!(c1, c2, "compute_checksum must be deterministic");

    // A different book state must yield a different checksum.
    let mut other = OrderBook::new();
    other.apply_snapshot(&levels(&[(50100.0, 1.5), (50200.0, 0.5)]), Side::Ask);
    other.apply_snapshot(&levels(&[(50000.0, 99.0)]), Side::Bid);
    let c3 = other.compute_checksum(10);
    assert_ne!(c1, c3, "different book state must change the checksum");
}

#[test]
fn test_sequence_gap_triggers_resync() {
    let mut book = OrderBook::new();
    book.apply_snapshot(&levels(&[(50000.0, 1.0)]), Side::Bid);
    book.apply_snapshot(&levels(&[(50100.0, 1.0)]), Side::Ask);
    book.track_sequence(Some(1));
    assert!(!book.needs_resync());
    // Jump from seq 1 to seq 5: a gap (messages 2..4 were lost).
    book.track_sequence(Some(5));
    assert!(book.needs_resync(), "a sequence gap must flag resync");
}

#[test]
fn test_sequence_out_of_order_triggers_resync() {
    let mut book = OrderBook::new();
    book.apply_snapshot(&levels(&[(50000.0, 1.0)]), Side::Bid);
    book.apply_snapshot(&levels(&[(50100.0, 1.0)]), Side::Ask);
    book.track_sequence(Some(10));
    assert!(!book.needs_resync());
    // A sequence that goes backwards is a corrupt/reordered stream.
    book.track_sequence(Some(4));
    assert!(
        book.needs_resync(),
        "out-of-order sequence must flag resync"
    );
}

#[test]
fn test_sequence_duplicate_is_a_gap() {
    let mut book = OrderBook::new();
    book.apply_snapshot(&levels(&[(50000.0, 1.0)]), Side::Bid);
    book.apply_snapshot(&levels(&[(50100.0, 1.0)]), Side::Ask);
    book.track_sequence(Some(3));
    // Duplicate sequence number (3 again) is not a +1 progression.
    book.track_sequence(Some(3));
    assert!(book.needs_resync(), "duplicate sequence must flag resync");
}

#[test]
fn test_sequence_monotonic_keeps_book_healthy() {
    let mut book = OrderBook::new();
    book.apply_snapshot(&levels(&[(50000.0, 1.0)]), Side::Bid);
    book.apply_snapshot(&levels(&[(50100.0, 1.0)]), Side::Ask);
    book.track_sequence(Some(1));
    book.track_sequence(Some(2));
    book.track_sequence(Some(3));
    assert!(
        !book.needs_resync(),
        "contiguous sequence must not flag resync"
    );
}

#[test]
fn test_sequence_none_is_noop() {
    let mut book = OrderBook::new();
    book.apply_snapshot(&levels(&[(50000.0, 1.0)]), Side::Bid);
    book.apply_snapshot(&levels(&[(50100.0, 1.0)]), Side::Ask);
    book.track_sequence(None);
    book.track_sequence(None);
    assert!(!book.needs_resync());
}

#[test]
fn lob_test_checksum_mismatch_flags_without_resetting_book() {
    let mut book = OrderBook::new();
    book.apply_snapshot(&levels(&[(50000.0, 1.0)]), Side::Bid);
    book.apply_snapshot(&levels(&[(50100.0, 1.0)]), Side::Ask);
    // Deliberately wrong checksum: must warn + set the observability flag,
    // but must NOT drop the book (warn-only best-effort; sequence gaps are
    // the authoritative reset signal).
    let computed = book.compute_checksum(10);
    let wrong = (computed as i64).wrapping_add(1);
    assert!(!book.verify_checksum(wrong), "mismatch must return false");
    assert!(book.checksum_failed(), "mismatch must flag checksum_failed");
    assert!(!book.needs_resync(), "mismatch must NOT flag needs_resync");
    // Book levels are retained (not cleared by a checksum mismatch).
    assert_eq!(book.num_bids(), 1);
    assert_eq!(book.num_asks(), 1);
}

#[test]
fn lob_test_checksum_match_does_not_trigger_resync() {
    let mut book = OrderBook::new();
    book.apply_snapshot(&levels(&[(50000.0, 1.0)]), Side::Bid);
    book.apply_snapshot(&levels(&[(50100.0, 1.0)]), Side::Ask);
    let computed = book.compute_checksum(10);
    assert!(
        book.verify_checksum(computed as i64),
        "match must return true"
    );
    assert!(!book.needs_resync());
}

#[test]
fn lob_test_checksum_zero_skips_validation() {
    let mut book = OrderBook::new();
    book.apply_snapshot(&levels(&[(50000.0, 1.0)]), Side::Bid);
    book.apply_snapshot(&levels(&[(50100.0, 1.0)]), Side::Ask);
    // checksum == 0 means "no checksum sent" (e.g. test fixtures): skip.
    assert!(book.verify_checksum(0));
    assert!(!book.needs_resync());
}

#[test]
fn test_reset_clears_book_and_sync_state() {
    let mut book = OrderBook::new();
    book.apply_snapshot(&levels(&[(50000.0, 1.0)]), Side::Bid);
    book.apply_snapshot(&levels(&[(50100.0, 1.0)]), Side::Ask);
    book.track_sequence(Some(7));
    // Corrupt the book via a deliberate checksum mismatch, then reset.
    let computed = book.compute_checksum(10);
    book.verify_checksum((computed as i64).wrapping_add(1));
    assert!(book.checksum_failed());
    assert_eq!(book.num_bids(), 1);
    book.reset();
    assert_eq!(book.num_bids(), 0);
    assert_eq!(book.num_asks(), 0);
    assert!(book.best_bid().f().is_none());
    assert!(!book.needs_resync());
    assert!(!book.checksum_failed(), "reset must clear checksum_failed");
}

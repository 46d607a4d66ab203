//! The order book of Bitvavo.

use cryptomeria_ingest::bitvavo::lob::OrderBook;
use cryptomeria_ingest::bitvavo::types::BookSnapshot;
use cryptomeria_ingest::bitvavo::types::BookUpdate;
use cryptomeria_ingest::bitvavo::types::PriceLevel;
use cryptomeria_ingest::json::JsonText;
use cryptomeria_ingest::json::Reading;
use cryptomeria_ingest::line::Piece;
use cryptomeria_ingest::num::FloatOp;
use cryptomeria_ingest::num::Num;

fn num(x: f64) -> Num {
    Num::new(x.to_bits(), x.to_string())
}

fn unit(op: FloatOp, a: Num, b: Num) -> Num {
    let (x, y) = (f64::from_bits(a.bits), f64::from_bits(b.bits));
    num(match op {
        FloatOp::Sum => x + y,
        FloatOp::Difference => x - y,
        FloatOp::PercentBelow => x * (1.0 - y / 100.0),
        FloatOp::PercentAbove => x * (1.0 + y / 100.0),
    })
}

trait AsFloat {
    type Float;
    fn f(&self) -> Self::Float;
}

impl AsFloat for Num {
    type Float = f64;
    fn f(&self) -> f64 {
        f64::from_bits(self.bits)
    }
}

impl AsFloat for Option<Num> {
    type Float = Option<f64>;
    fn f(&self) -> Option<f64> {
        self.as_ref().map(|n| n.f())
    }
}

fn reading(x: f64) -> Reading {
    Reading {
        num: num(x),
        millis: (x * 1000.0) as u64,
        whole: x as i64,
        rounded: num(format!("{x:.8}").parse::<f64>().unwrap()),
    }
}

fn text(s: &str) -> JsonText {
    JsonText { text: s.to_string(), reading: s.parse::<f64>().ok().map(reading) }
}

fn render(pieces: &[Piece]) -> String {
    pieces
        .iter()
        .map(|p| match p {
            Piece::Text(s) => s.clone(),
            Piece::Fixed { num, decimals } => {
                format!("{:.*}", *decimals as usize, num.f())
            }
        })
        .collect()
}

fn lv(price: &str, size: &str) -> PriceLevel {
    vec![text(price), text(size)]
}

fn snapshot(
    market: &str,
    mdseqno: u64,
    bids: Vec<PriceLevel>,
    asks: Vec<PriceLevel>,
) -> BookSnapshot {
    BookSnapshot {
        market: market.to_string(),
        nonce: mdseqno,
        bids,
        asks,
        timestamp: Some(1752139200000000000),
        mdseqno,
    }
}

fn update(
    market: &str,
    bids: Vec<PriceLevel>,
    asks: Vec<PriceLevel>,
    start: u64,
    end: u64,
) -> BookUpdate {
    BookUpdate {
        market: market.to_string(),
        bids,
        asks,
        start_md_seq_no: start,
        end_md_seq_no: end,
        timestamp: Some(1752139200000000001),
    }
}

#[test]
fn bitvavo_lob_test_new_book_empty() {
    let book = OrderBook::new();
    assert_eq!(book.num_bids(), 0);
    assert_eq!(book.num_asks(), 0);
    assert!(book.last_mdseq.is_none());
}

#[test]
fn test_apply_snapshot_sets_levels_and_mdseq() {
    let mut book = OrderBook::new();
    book.apply_snapshot(&snapshot(
        "BTC-EUR",
        438525,
        vec![lv("4999.9", "0.015"), lv("4999.0", "1.0")],
        vec![lv("5001.1", "0.015")],
    ));
    assert_eq!(book.num_bids(), 2);
    assert_eq!(book.num_asks(), 1);
    assert_eq!(book.last_mdseq, Some(438525));
}

#[test]
fn test_apply_snapshot_zero_size_not_inserted() {
    let mut book = OrderBook::new();
    book.apply_snapshot(&snapshot(
        "BTC-EUR",
        1,
        vec![lv("100.0", "0.0"), lv("101.0", "1.0")],
        vec![],
    ));
    assert_eq!(book.num_bids(), 1);
}

#[test]
fn test_apply_snapshot_replaces_existing() {
    let mut book = OrderBook::new();
    book.apply_snapshot(&snapshot(
        "BTC-EUR",
        1,
        vec![lv("100.0", "1.0")],
        vec![lv("101.0", "1.0")],
    ));
    book.apply_snapshot(&snapshot(
        "BTC-EUR",
        2,
        vec![lv("200.0", "2.0")],
        vec![lv("201.0", "2.0")],
    ));
    assert_eq!(book.num_bids(), 1);
    assert_eq!(book.num_asks(), 1);
    assert_eq!(book.best_bid().f(), Some(200.0));
    assert_eq!(book.last_mdseq, Some(2));
}

#[test]
fn test_apply_update_before_snapshot_buffers_pending() {
    let mut book = OrderBook::new();
    let upd = update("BTC-EUR", vec![lv("100.0", "1.0")], vec![], 100, 100);
    book.apply_update(&upd);
    assert!(book.pending.len() == 1);
    assert!(book.num_bids() == 0);
}

#[test]
fn test_apply_update_after_snapshot_applies_and_advances() {
    let mut book = OrderBook::new();
    book.apply_snapshot(&snapshot(
        "BTC-EUR",
        100,
        vec![lv("100.0", "1.0")],
        vec![lv("101.0", "1.0")],
    ));
    let upd = update("BTC-EUR", vec![lv("100.0", "2.0")], vec![], 101, 101);
    book.apply_update(&upd);
    assert_eq!(book.last_mdseq, Some(101));
    assert_eq!(book.top_bids(1)[0].size.f(), 2.0);
}

#[test]
fn test_apply_update_skips_already_applied() {
    let mut book = OrderBook::new();
    book.apply_snapshot(&snapshot("BTC-EUR", 100, vec![lv("100.0", "1.0")], vec![]));
    // startMdSeqNo <= last_mdseq -> skip
    let upd = update("BTC-EUR", vec![lv("100.0", "5.0")], vec![], 100, 100);
    book.apply_update(&upd);
    assert_eq!(book.top_bids(1)[0].size.f(), 1.0);
    assert_eq!(book.last_mdseq, Some(100));
}

#[test]
fn test_apply_update_removes_level_when_size_zero() {
    let mut book = OrderBook::new();
    book.apply_snapshot(&snapshot(
        "BTC-EUR",
        100,
        vec![lv("100.0", "1.0"), lv("99.0", "2.0")],
        vec![],
    ));
    let upd = update("BTC-EUR", vec![lv("100.0", "0.0")], vec![], 101, 101);
    book.apply_update(&upd);
    assert_eq!(book.num_bids(), 1);
    assert!(book.best_bid().f() != Some(100.0));
}

#[test]
fn test_drain_pending_after_snapshot() {
    let mut book = OrderBook::new();
    // Buffer an update before snapshot
    book.apply_update(&update(
        "BTC-EUR",
        vec![lv("100.0", "1.0")],
        vec![],
        100,
        100,
    ));
    // Load snapshot at mdSeqNo 100
    book.apply_snapshot(&snapshot(
        "BTC-EUR",
        100,
        vec![lv("100.0", "1.0")],
        vec![lv("101.0", "1.0")],
    ));
    // Pending update had startMdSeqNo=100 <= last_mdseq=100 -> skipped on drain
    book.drain_pending();
    assert_eq!(book.last_mdseq, Some(100));
    assert!(book.pending.is_empty());
}

#[test]
fn test_drain_pending_applies_updates_after_snapshot() {
    let mut book = OrderBook::new();
    // Buffer updates before snapshot
    book.apply_update(&update(
        "BTC-EUR",
        vec![lv("100.0", "1.0")],
        vec![],
        101,
        101,
    ));
    book.apply_update(&update(
        "BTC-EUR",
        vec![lv("100.0", "2.0")],
        vec![],
        102,
        102,
    ));
    // Load snapshot at mdSeqNo 100
    book.apply_snapshot(&snapshot(
        "BTC-EUR",
        100,
        vec![lv("100.0", "1.0")],
        vec![lv("101.0", "1.0")],
    ));
    book.drain_pending();
    // Both buffered updates have startMdSeqNo > 100, so both should be applied
    assert_eq!(book.last_mdseq, Some(102));
    assert_eq!(book.top_bids(1)[0].size.f(), 2.0);
}

#[test]
fn lob_test_to_lob_item_returns_none_when_empty() {
    let book = OrderBook::new();
    let result = book.to_lob_item(0, "bitvavo", None, &num(0.0), &unit);
    assert!(result.is_none());
}

#[test]
fn test_to_lob_item_basic() {
    let mut book = OrderBook::new();
    book.apply_snapshot(&snapshot(
        "BTC-EUR",
        1,
        vec![lv("100.0", "1.0"), lv("99.0", "2.0")],
        vec![lv("101.0", "1.0"), lv("102.0", "2.0")],
    ));
    let lob = book
        .to_lob_item(1752139200000, "bitvavo", None, &num(0.0), &unit)
        .unwrap();
    assert_eq!(lob.bids.len(), 2);
    assert_eq!(lob.asks.len(), 2);
    assert_eq!(lob.exchange, "bitvavo");
    assert_eq!(lob.ts, 1752139200000);
    assert_eq!(lob.asks[0].price.f(), 101.0);
    assert_eq!(lob.bids[lob.bids.len() - 1].price.f(), 100.0);
}

#[test]
fn bitvavo_lob_test_to_lob_item_filters_by_max_level() {
    let mut book = OrderBook::new();
    book.apply_snapshot(&snapshot(
        "BTC-EUR",
        1,
        vec![lv("100.0", "1.0"), lv("99.0", "2.0"), lv("98.0", "3.0")],
        vec![lv("101.0", "1.0"), lv("102.0", "2.0"), lv("103.0", "3.0")],
    ));
    let lob = book.to_lob_item(0, "bitvavo", Some(2), &num(0.0), &unit).unwrap();
    assert_eq!(lob.bids.len(), 2);
    assert_eq!(lob.asks.len(), 2);
}

#[test]
fn bitvavo_lob_test_to_lob_item_pct_zero_keeps_all_levels() {
    let mut book = OrderBook::new();
    book.apply_snapshot(&snapshot(
        "BTC-EUR",
        1,
        vec![lv("100.0", "1.0"), lv("99.0", "2.0"), lv("98.0", "3.0")],
        vec![lv("101.0", "1.0"), lv("102.0", "2.0"), lv("103.0", "3.0")],
    ));
    let lob = book.to_lob_item(0, "bitvavo", None, &num(0.0), &unit).unwrap();
    assert_eq!(lob.bids.len(), 3);
    assert_eq!(lob.asks.len(), 3);
}

#[test]
fn bitvavo_lob_test_spread_calculation() {
    let mut book = OrderBook::new();
    book.apply_snapshot(&snapshot(
        "BTC-EUR",
        1,
        vec![lv("100.0", "1.0")],
        vec![lv("101.0", "1.0")],
    ));
    let s = book.spread(&unit).f();
    assert!(s.is_some());
    assert!((s.unwrap() - 1.0).abs() < f64::EPSILON);
}

#[test]
fn bitvavo_lob_test_display_contains_counts() {
    let mut book = OrderBook::new();
    book.apply_snapshot(&snapshot(
        "BTC-EUR",
        1,
        vec![lv("100.0", "1.0"), lv("99.0", "2.0")],
        vec![lv("101.0", "1.0")],
    ));
    let out = render(&book.display("BTC-EUR", &num(0.0), &unit));
    assert!(out.contains("bids=2"));
    assert!(out.contains("asks=1"));
}

#[test]
fn bitvavo_lob_test_full_lob_item_returns_all_levels() {
    let mut book = OrderBook::new();
    book.apply_snapshot(&snapshot(
        "BTC-EUR",
        1,
        vec![
            lv("100.0", "1.0"),
            lv("99.0", "2.0"),
            lv("98.0", "3.0"),
            lv("97.0", "4.0"),
        ],
        vec![
            lv("101.0", "1.0"),
            lv("102.0", "2.0"),
            lv("103.0", "3.0"),
            lv("104.0", "4.0"),
        ],
    ));
    let lob = book.full_lob_item(0, "bitvavo", &unit).unwrap();
    assert_eq!(
        lob.bids.len(),
        4,
        "full_lob_item must return ALL 4 bid levels (no filtering)"
    );
    assert_eq!(
        lob.asks.len(),
        4,
        "full_lob_item must return ALL 4 ask levels (no filtering)"
    );
}

#[test]
fn bitvavo_lob_test_memory_retains_all_levels_after_filtered_lob_item() {
    let mut book = OrderBook::new();
    book.apply_snapshot(&snapshot(
        "BTC-EUR",
        1,
        vec![
            lv("100.0", "1.0"),
            lv("99.0", "2.0"),
            lv("98.0", "3.0"),
            lv("97.0", "4.0"),
        ],
        vec![
            lv("101.0", "1.0"),
            lv("102.0", "2.0"),
            lv("103.0", "3.0"),
            lv("104.0", "4.0"),
        ],
    ));
    // to_lob_item with max_level=1 must produce a 1-level lob...
    let lob = book.to_lob_item(0, "bitvavo", Some(1), &num(0.0), &unit).unwrap();
    assert_eq!(lob.bids.len(), 1, "filtered lob should have 1 bid");
    assert_eq!(lob.asks.len(), 1, "filtered lob should have 1 ask");
    // ...but the in-memory book must STILL contain all 4 levels.
    assert_eq!(
        book.num_bids(),
        4,
        "memory book must retain all 4 bids after filtered emit"
    );
    assert_eq!(
        book.num_asks(),
        4,
        "memory book must retain all 4 asks after filtered emit"
    );
}

#[test]
fn bitvavo_lob_test_full_lob_item_equals_unfiltered_to_lob_item() {
    let mut book = OrderBook::new();
    book.apply_snapshot(&snapshot(
        "BTC-EUR",
        1,
        vec![lv("100.0", "1.0"), lv("99.0", "2.0"), lv("98.0", "3.0")],
        vec![lv("101.0", "1.0"), lv("102.0", "2.0"), lv("103.0", "3.0")],
    ));
    let full = book.full_lob_item(0, "bitvavo", &unit).unwrap();
    let unfiltered = book.to_lob_item(0, "bitvavo", None, &num(0.0), &unit).unwrap();
    assert_eq!(full.bids.len(), unfiltered.bids.len());
    assert_eq!(full.asks.len(), unfiltered.asks.len());
    for (a, b) in full.bids.iter().zip(unfiltered.bids.iter()) {
        assert_eq!(a.price.f(), b.price.f());
        assert_eq!(a.size.f(), b.size.f());
    }
    for (a, b) in full.asks.iter().zip(unfiltered.asks.iter()) {
        assert_eq!(a.price.f(), b.price.f());
        assert_eq!(a.size.f(), b.size.f());
    }
}

#[test]
fn bitvavo_lob_test_to_lob_item_with_filter_returns_fewer_levels_than_full() {
    let mut book = OrderBook::new();
    book.apply_snapshot(&snapshot(
        "BTC-EUR",
        1,
        vec![
            lv("100.0", "1.0"),
            lv("99.0", "2.0"),
            lv("98.0", "3.0"),
            lv("97.0", "4.0"),
            lv("96.0", "5.0"),
        ],
        vec![
            lv("101.0", "1.0"),
            lv("102.0", "2.0"),
            lv("103.0", "3.0"),
            lv("104.0", "4.0"),
            lv("105.0", "5.0"),
        ],
    ));
    let full = book.full_lob_item(0, "bitvavo", &unit).unwrap();
    let filtered = book.to_lob_item(0, "bitvavo", Some(2), &num(0.0), &unit).unwrap();
    assert_eq!(full.bids.len(), 5, "memory has 5 bids");
    assert_eq!(filtered.bids.len(), 2, "filtered lob has 2 bids");
    assert_eq!(full.asks.len(), 5, "memory has 5 asks");
    assert_eq!(filtered.asks.len(), 2, "filtered lob has 2 asks");
}

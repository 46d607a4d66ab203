//! The order book of Bitstamp.

use cryptomeria_ingest::bitstamp::lob::OrderBook;
use cryptomeria_ingest::bitstamp::types::OrderBookData;
use cryptomeria_ingest::bitstamp::types::OrderEntry;
use cryptomeria_ingest::json::JsonText;
use cryptomeria_ingest::json::Reading;
use cryptomeria_ingest::line::Piece;
use cryptomeria_ingest::num::FloatOp;
use cryptomeria_ingest::num::Num;

fn num(x: f64) -> Num {
    Num::new(x.to_bits(), x.to_string())
}

fn unit(op: FloatOp, a: Num, b: Num) -> Num {
    let (x, y) = (f64::from_bits(a.bits), f64::from_bits(b.bits));
    num(match op {
        FloatOp::Sum => x + y,
        FloatOp::Difference => x - y,
        FloatOp::PercentBelow => x * (1.0 - y / 100.0),
        FloatOp::PercentAbove => x * (1.0 + y / 100.0),
    })
}

trait AsFloat {
    type Float;
    fn f(&self) -> Self::Float;
}

impl AsFloat for Num {
    type Float = f64;
    fn f(&self) -> f64 {
        f64::from_bits(self.bits)
    }
}

impl AsFloat for Option<Num> {
    type Float = Option<f64>;
    fn f(&self) -> Option<f64> {
        self.as_ref().map(|n| n.f())
    }
}

fn reading(x: f64) -> Reading {
    Reading {
        num: num(x),
        millis: (x * 1000.0) as u64,
        whole: x as i64,
        rounded: num(format!("{x:.8}").parse::<f64>().unwrap()),
    }
}

fn text(s: &str) -> JsonText {
    JsonText { text: s.to_string(), reading: s.parse::<f64>().ok().map(reading) }
}

fn render(pieces: &[Piece]) -> String {
    pieces
        .iter()
        .map(|p| match p {
            Piece::Text(s) => s.clone(),
            Piece::Fixed { num, decimals } => {
                format!("{:.*}", *decimals as usize, num.f())
            }
        })
        .collect()
}

#[test]
fn lob_test_new_book_empty() {
    let book = OrderBook::new();
    assert_eq!(book.num_bids(), 0);
    assert_eq!(book.num_asks(), 0);
}

#[test]
fn test_apply_order_add_bid() {
    let mut book = OrderBook::new();
    let entry = OrderEntry {
        id: 1,
        id_str: "1".to_string(),
        price: text("100.0"),
        amount: text("1.5"),
        order_type: 0,
        timestamp: text("0"),
    };
    book.apply_order(&entry, &unit);
    assert_eq!(book.num_bids(), 1);
    assert_eq!(book.num_asks(), 0);
}

#[test]
fn test_apply_order_add_ask() {
    let mut book = OrderBook::new();
    let entry = OrderEntry {
        id: 2,
        id_str: "2".to_string(),
        price: text("101.0"),
        amount: text("2.0"),
        order_type: 1,
        timestamp: text("0"),
    };
    book.apply_order(&entry, &unit);
    assert_eq!(book.num_bids(), 0);
    assert_eq!(book.num_asks(), 1);
}

#[test]
fn test_apply_order_remove() {
    let mut book = OrderBook::new();
    let entry_add = OrderEntry {
        id: 1,
        id_str: "1".to_string(),
        price: text("100.0"),
        amount: text("1.5"),
        order_type: 0,
        timestamp: text("0"),
    };
    let entry_rem = OrderEntry {
        id: 1,
        id_str: "1".to_string(),
        price: text("100.0"),
        amount: text("0.0"),
        order_type: 0,
        timestamp: text("0"),
    };
    book.apply_order(&entry_add, &unit);
    assert_eq!(book.num_bids(), 1);
    book.apply_order(&entry_rem, &unit);
    assert_eq!(book.num_bids(), 0);
}

#[test]
fn test_apply_order_update_size() {
    let mut book = OrderBook::new();
    let entry_add = OrderEntry {
        id: 1,
        id_str: "1".to_string(),
        price: text("100.0"),
        amount: text("1.5"),
        order_type: 0,
        timestamp: text("0"),
    };
    let entry_upd = OrderEntry {
        id: 1,
        id_str: "1".to_string(),
        price: text("100.0"),
        amount: text("2.5"),
        order_type: 0,
        timestamp: text("0"),
    };
    book.apply_order(&entry_add, &unit);
    assert_eq!(book.num_bids(), 1);
    book.apply_order(&entry_upd, &unit);
    assert_eq!(book.num_bids(), 1);
    // total size should be updated
}

#[test]
fn test_orderbook_snapshot_apply() {
    let mut book = OrderBook::new();
    let ob = OrderBookData {
        bids: vec![
            vec![text("100.0"), text("1.5")],
            vec![text("99.0"), text("2.0")],
        ],
        asks: vec![
            vec![text("101.0"), text("0.5")],
            vec![text("102.0"), text("1.0")],
        ],
        timestamp: "0".to_string(),
        microtimestamp: "0".to_string(),
    };
    book.apply_orderbook(&ob, &unit);
    assert_eq!(book.num_bids(), 2);
    assert_eq!(book.num_asks(), 2);
}

#[test]
fn lob_test_spread_calculation() {
    let mut book = OrderBook::new();
    let ob = OrderBookData {
        bids: vec![vec![text("100.0"), text("1.0")]],
        asks: vec![vec![text("101.0"), text("1.0")]],
        timestamp: "0".to_string(),
        microtimestamp: "0".to_string(),
    };
    book.apply_orderbook(&ob, &unit);
    let s = book.spread(&unit).f();
    assert!(s.is_some());
    assert!((s.unwrap() - 1.0).abs() < f64::EPSILON);
}

#[test]
fn lob_test_display_contains_counts() {
    let mut book = OrderBook::new();
    let ob = OrderBookData {
        bids: vec![
            vec![text("100.0"), text("1.0")],
            vec![text("99.0"), text("2.0")],
        ],
        asks: vec![vec![text("101.0"), text("3.0")]],
        timestamp: "0".to_string(),
        microtimestamp: "0".to_string(),
    };
    book.apply_orderbook(&ob, &unit);
    let out = render(&book.display("BTC/USD", &num(0.0), &unit));
    assert!(out.contains("bids=2"));
    assert!(out.contains("asks=1"));
}

#[test]
fn lob_test_levels_within_pct_filters_bids() {
    let mut book = OrderBook::new();
    let ob = OrderBookData {
        bids: vec![
            vec![text("100.0"), text("1.0")],
            vec![text("99.5"), text("2.0")],
            vec![text("99.0"), text("3.0")],
            vec![text("98.0"), text("4.0")],
        ],
        asks: vec![],
        timestamp: "0".to_string(),
        microtimestamp: "0".to_string(),
    };
    book.apply_orderbook(&ob, &unit);
    let (bids, asks) = book.levels_within_pct(&num(0.5), &unit);
    assert_eq!(asks.len(), 0);
    assert_eq!(bids.len(), 2);
    assert!((bids[0].price.f() - 100.0).abs() < f64::EPSILON);
    assert!((bids[1].price.f() - 99.5).abs() < f64::EPSILON);
}

#[test]
fn test_to_lob_item_returns_none_when_bids_empty() {
    let mut book = OrderBook::new();
    book.apply_orderbook(&OrderBookData {
        bids: vec![],
        asks: vec![vec![text("101.0"), text("1.0")]],
        timestamp: "0".to_string(),
        microtimestamp: "0".to_string(),
    }, &unit);
    let result = book.to_lob_item(0, "test", None, &num(0.0), &unit);
    assert!(result.is_none(), "Should return None when bids are empty");
}

#[test]
fn test_to_lob_item_returns_none_when_asks_empty() {
    let mut book = OrderBook::new();
    book.apply_orderbook(&OrderBookData {
        bids: vec![vec![text("100.0"), text("1.0")]],
        asks: vec![],
        timestamp: "0".to_string(),
        microtimestamp: "0".to_string(),
    }, &unit);
    let result = book.to_lob_item(0, "test", None, &num(0.0), &unit);
    assert!(result.is_none(), "Should return None when asks are empty");
}

#[test]
fn lob_test_to_lob_item_filters_by_max_level() {
    let mut book = OrderBook::new();
    book.apply_orderbook(&OrderBookData {
        bids: vec![
            vec![text("100.0"), text("1.0")],
            vec![text("99.0"), text("2.0")],
            vec![text("98.0"), text("3.0")],
            vec![text("97.0"), text("4.0")],
        ],
        asks: vec![
            vec![text("101.0"), text("1.0")],
            vec![text("102.0"), text("2.0")],
            vec![text("103.0"), text("3.0")],
        ],
        timestamp: "0".to_string(),
        microtimestamp: "0".to_string(),
    }, &unit);
    let lob = book.to_lob_item(0, "test", Some(2), &num(0.0), &unit).unwrap();
    assert_eq!(lob.bids.len(), 2, "Should have 2 bids with max_level=2");
    assert_eq!(lob.asks.len(), 2, "Should have 2 asks with max_level=2");
}

#[test]
fn lob_test_to_lob_item_sorts_bids_with_best_bid_last() {
    let mut book = OrderBook::new();
    book.apply_orderbook(&OrderBookData {
        bids: vec![vec![text("100.0"), text("1.0")]],
        asks: vec![vec![text("101.0"), text("1.0")]],
        timestamp: "0".to_string(),
        microtimestamp: "0".to_string(),
    }, &unit);
    // Add more bids to test sorting
    book.apply_orderbook(&OrderBookData {
        bids: vec![vec![text("100.0"), text("1.0")]],
        asks: vec![vec![text("101.0"), text("1.0")]],
        timestamp: "0".to_string(),
        microtimestamp: "0".to_string(),
    }, &unit);

    // Manually add bids via apply_order
    book.apply_order(&OrderEntry {
        id: 1,
        id_str: "1".to_string(),
        price: text("99.0"),
        amount: text("2.0"),
        order_type: 0,
        timestamp: text("0"),
    }, &unit);
    book.apply_order(&OrderEntry {
        id: 2,
        id_str: "2".to_string(),
        price: text("98.0"),
        amount: text("3.0"),
        order_type: 0,
        timestamp: text("0"),
    }, &unit);

    let lob = book.to_lob_item(0, "test", Some(10), &num(0.0), &unit).unwrap();
    // Bids should be sorted ascending, best_bid (100.0) should be last
    assert_eq!(lob.bids.len(), 3);
    assert!((lob.bids[0].price.f() - 98.0).abs() < f64::EPSILON);
    assert!((lob.bids[1].price.f() - 99.0).abs() < f64::EPSILON);
    assert!(
        (lob.bids[2].price.f() - 100.0).abs() < f64::EPSILON,
        "Best bid (100.0) should be last"
    );
}

#[test]
fn lob_test_to_lob_item_sorts_asks_with_best_ask_first() {
    let mut book = OrderBook::new();
    book.apply_order(&OrderEntry {
        id: 1,
        id_str: "1".to_string(),
        price: text("101.0"),
        amount: text("1.0"),
        order_type: 1,
        timestamp: text("0"),
    }, &unit);
    book.apply_order(&OrderEntry {
        id: 2,
        id_str: "2".to_string(),
        price: text("102.0"),
        amount: text("2.0"),
        order_type: 1,
        timestamp: text("0"),
    }, &unit);
    book.apply_order(&OrderEntry {
        id: 3,
        id_str: "3".to_string(),
        price: text("103.0"),
        amount: text("3.0"),
        order_type: 1,
        timestamp: text("0"),
    }, &unit);
    book.apply_order(&OrderEntry {
        id: 0,
        id_str: "0".to_string(),
        price: text("100.0"),
        amount: text("0.5"),
        order_type: 0,
        timestamp: text("0"),
    }, &unit);

    let lob = book.to_lob_item(0, "test", Some(10), &num(0.0), &unit).unwrap();
    // Asks should be sorted ascending, best_ask (101.0) should be first
    assert_eq!(lob.asks.len(), 3);
    assert!(
        (lob.asks[0].price.f() - 101.0).abs() < f64::EPSILON,
        "Best ask (101.0) should be first"
    );
    assert!((lob.asks[1].price.f() - 102.0).abs() < f64::EPSILON);
    assert!((lob.asks[2].price.f() - 103.0).abs() < f64::EPSILON);
}

#[test]
fn test_to_lob_item_filters_by_max_level_pct() {
    let mut book = OrderBook::new();
    book.apply_orderbook(&OrderBookData {
        bids: vec![vec![text("100.0"), text("1.0")]],
        asks: vec![vec![text("101.0"), text("1.0")]],
        timestamp: "0".to_string(),
        microtimestamp: "0".to_string(),
    }, &unit);
    // Add bids at -2% and -5% from best
    book.apply_order(&OrderEntry {
        id: 1,
        id_str: "1".to_string(),
        price: text("98.0"),
        amount: text("2.0"),
        order_type: 0,
        timestamp: text("0"),
    }, &unit);
    book.apply_order(&OrderEntry {
        id: 2,
        id_str: "2".to_string(),
        price: text("95.0"),
        amount: text("3.0"),
        order_type: 0,
        timestamp: text("0"),
    }, &unit);

    let lob = book.to_lob_item(0, "test", None, &num(1.0), &unit).unwrap();
    // With 1% tolerance, bid at 98.0 (100*0.99=99) should be excluded
    // 100 * (1 - 1/100) = 99.0
    // So 98.0 < 99.0 and 95.0 < 99.0, both should be excluded
    // Only 100.0 should remain
    assert_eq!(lob.bids.len(), 1, "Should only have the best bid within 1%");
    assert!((lob.bids[0].price.f() - 100.0).abs() < f64::EPSILON);
}

#[test]
fn lob_test_to_lob_item_pct_zero_keeps_all_levels() {
    let mut book = OrderBook::new();
    book.apply_orderbook(&OrderBookData {
        bids: vec![
            vec![text("100.0"), text("1.0")],
            vec![text("99.0"), text("2.0")],
            vec![text("98.0"), text("3.0")],
        ],
        asks: vec![
            vec![text("101.0"), text("1.0")],
            vec![text("102.0"), text("2.0")],
            vec![text("103.0"), text("3.0")],
        ],
        timestamp: "0".to_string(),
        microtimestamp: "0".to_string(),
    }, &unit);
    // max_level_pct = 0.0 should be normalized to 100.0 → no filtering
    let lob = book.to_lob_item(0, "test", None, &num(0.0), &unit).unwrap();
    assert_eq!(lob.bids.len(), 3, "pct=0.0 should keep all bids");
    assert_eq!(lob.asks.len(), 3, "pct=0.0 should keep all asks");
}

#[test]
fn lob_test_to_lob_item_pct_100_keeps_all_levels() {
    let mut book = OrderBook::new();
    book.apply_orderbook(&OrderBookData {
        bids: vec![vec![text("100.0"), text("1.0")]],
        asks: vec![vec![text("101.0"), text("1.0")]],
        timestamp: "0".to_string(),
        microtimestamp: "0".to_string(),
    }, &unit);
    let lob = book.to_lob_item(0, "test", None, &num(100.0), &unit).unwrap();
    assert_eq!(lob.bids.len(), 1);
    assert_eq!(lob.asks.len(), 1);
}

#[test]
fn lob_test_to_lob_item_pct_above_100_keeps_all_levels() {
    let mut book = OrderBook::new();
    book.apply_orderbook(&OrderBookData {
        bids: vec![
            vec![text("100.0"), text("1.0")],
            vec![text("50.0"), text("2.0")],
        ],
        asks: vec![vec![text("101.0"), text("1.0")]],
        timestamp: "0".to_string(),
        microtimestamp: "0".to_string(),
    }, &unit);
    // max_level_pct = 150.0 should be normalized to 100.0 → no filtering
    let lob = book.to_lob_item(0, "test", None, &num(150.0), &unit).unwrap();
    assert_eq!(lob.bids.len(), 2, "pct=150.0 should keep all bids");
    assert_eq!(lob.asks.len(), 1);
}

#[test]
fn lob_test_full_lob_item_returns_all_levels() {
    let mut book = OrderBook::new();
    let ob = OrderBookData {
        bids: vec![
            vec![text("100.0"), text("1.0")],
            vec![text("99.0"), text("2.0")],
            vec![text("98.0"), text("3.0")],
            vec![text("97.0"), text("4.0")],
        ],
        asks: vec![
            vec![text("101.0"), text("1.0")],
            vec![text("102.0"), text("2.0")],
            vec![text("103.0"), text("3.0")],
            vec![text("104.0"), text("4.0")],
        ],
        timestamp: "0".to_string(),
        microtimestamp: "0".to_string(),
    };
    book.apply_orderbook(&ob, &unit);
    let lob = book.full_lob_item(0, "bitstamp", &unit).unwrap();
    assert_eq!(
        lob.bids.len(),
        4,
        "full_lob_item must return ALL 4 bid levels (no filtering)"
    );
    assert_eq!(
        lob.asks.len(),
        4,
        "full_lob_item must return ALL 4 ask levels (no filtering)"
    );
}

#[test]
fn lob_test_memory_retains_all_levels_after_filtered_lob_item() {
    let mut book = OrderBook::new();
    let ob = OrderBookData {
        bids: vec![
            vec![text("100.0"), text("1.0")],
            vec![text("99.0"), text("2.0")],
            vec![text("98.0"), text("3.0")],
            vec![text("97.0"), text("4.0")],
        ],
        asks: vec![
            vec![text("101.0"), text("1.0")],
            vec![text("102.0"), text("2.0")],
            vec![text("103.0"), text("3.0")],
            vec![text("104.0"), text("4.0")],
        ],
        timestamp: "0".to_string(),
        microtimestamp: "0".to_string(),
    };
    book.apply_orderbook(&ob, &unit);
    // to_lob_item with max_level=1 must produce a 1-level lob...
    let lob = book.to_lob_item(0, "bitstamp", Some(1), &num(0.0), &unit).unwrap();
    assert_eq!(lob.bids.len(), 1, "filtered lob should have 1 bid");
    assert_eq!(lob.asks.len(), 1, "filtered lob should have 1 ask");
    // ...but the in-memory book must STILL contain all 4 levels.
    assert_eq!(book.num_bids(), 4, "memory book must retain all 4 bids");
    assert_eq!(book.num_asks(), 4, "memory book must retain all 4 asks");
}

#[test]
fn lob_test_full_lob_item_equals_unfiltered_to_lob_item() {
    let mut book = OrderBook::new();
    let ob = OrderBookData {
        bids: vec![
            vec![text("100.0"), text("1.0")],
            vec![text("99.0"), text("2.0")],
            vec![text("98.0"), text("3.0")],
        ],
        asks: vec![
            vec![text("101.0"), text("1.0")],
            vec![text("102.0"), text("2.0")],
            vec![text("103.0"), text("3.0")],
        ],
        timestamp: "0".to_string(),
        microtimestamp: "0".to_string(),
    };
    book.apply_orderbook(&ob, &unit);
    let full = book.full_lob_item(0, "bitstamp", &unit).unwrap();
    let unfiltered = book.to_lob_item(0, "bitstamp", None, &num(0.0), &unit).unwrap();
    assert_eq!(full.bids.len(), unfiltered.bids.len());
    assert_eq!(full.asks.len(), unfiltered.asks.len());
    for (a, b) in full.bids.iter().zip(unfiltered.bids.iter()) {
        assert_eq!(a.price.f(), b.price.f());
        assert_eq!(a.size.f(), b.size.f());
    }
    for (a, b) in full.asks.iter().zip(unfiltered.asks.iter()) {
        assert_eq!(a.price.f(), b.price.f());
        assert_eq!(a.size.f(), b.size.f());
    }
}

#[test]
fn lob_test_to_lob_item_with_filter_returns_fewer_levels_than_full() {
    let mut book = OrderBook::new();
    let ob = OrderBookData {
        bids: vec![
            vec![text("100.0"), text("1.0")],
            vec![text("99.0"), text("2.0")],
            vec![text("98.0"), text("3.0")],
            vec![text("97.0"), text("4.0")],
            vec![text("96.0"), text("5.0")],
        ],
        asks: vec![
            vec![text("101.0"), text("1.0")],
            vec![text("102.0"), text("2.0")],
            vec![text("103.0"), text("3.0")],
            vec![text("104.0"), text("4.0")],
            vec![text("105.0"), text("5.0")],
        ],
        timestamp: "0".to_string(),
        microtimestamp: "0".to_string(),
    };
    book.apply_orderbook(&ob, &unit);
    let full = book.full_lob_item(0, "bitstamp", &unit).unwrap();
    let filtered = book.to_lob_item(0, "bitstamp", Some(2), &num(0.0), &unit).unwrap();
    assert_eq!(full.bids.len(), 5, "memory has 5 bids");
    assert_eq!(filtered.bids.len(), 2, "filtered lob has 2 bids");
    assert_eq!(full.asks.len(), 5, "memory has 5 asks");
    assert_eq!(filtered.asks.len(), 2, "filtered lob has 2 asks");
}

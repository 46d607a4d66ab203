//! Exact values, the calls into other crates, and the laws on examples.

use cryptomeria_ingest::bitstamp::lob::OrderBook as BitstampBook;
use cryptomeria_ingest::bitstamp::lob::OrderInfo;
use cryptomeria_ingest::bitstamp::types::BitstampWsMessage;
use cryptomeria_ingest::bitstamp::types::OrderBookData;
use cryptomeria_ingest::bitstamp::ws::BitstampAdapter;
use cryptomeria_ingest::bitstamp::ws::Recovery;
use cryptomeria_ingest::bitvavo::types::BitvavoWsMessage;
use cryptomeria_ingest::bitvavo::types::BookUpdate;
use cryptomeria_ingest::bitvavo::ws::build_auth_msg_at;
use cryptomeria_ingest::bitvavo::ws::BitvavoAdapter;
use cryptomeria_ingest::book::Side;
use cryptomeria_ingest::config::CaseFallback;
use cryptomeria_ingest::config::DataKind;
use cryptomeria_ingest::config::DataKindError;
use cryptomeria_ingest::instrument::apply_case_fallback;
use cryptomeria_ingest::items::IngestError;
use cryptomeria_ingest::items::LobLevel;
use cryptomeria_ingest::items::MarketDataItem;
use cryptomeria_ingest::json::Json;
use cryptomeria_ingest::json::JsonNumber;
use cryptomeria_ingest::json::JsonText;
use cryptomeria_ingest::json::Reading;
use cryptomeria_ingest::kraken::lob::OrderBook as KrakenBook;
use cryptomeria_ingest::kraken::types::parse_kraken_timestamp;
use cryptomeria_ingest::kraken::types::KrakenWsMessage;
use cryptomeria_ingest::kraken::validation::judge_message;
use cryptomeria_ingest::kraken::validation::no_data_error;
use cryptomeria_ingest::kraken::validation::timeout_error;
use cryptomeria_ingest::kraken::ws::display_message_at;
use cryptomeria_ingest::kraken::ws::KrakenAdapter;
use cryptomeria_ingest::line::Piece;
use cryptomeria_ingest::num::FloatOp;
use cryptomeria_ingest::num::Num;
use cryptomeria_ingest::okx::types::OkxWsMessage;
use cryptomeria_ingest::okx::validation::judge_response;
use cryptomeria_ingest::okx::ws::OkxAdapter;
use cryptomeria_ingest::text::is_blank;
use cryptomeria_ingest::text::parse_signed;
use cryptomeria_ingest::text::parse_unsigned;
use cryptomeria_ingest::text::time_text;
use cryptomeria_ingest::text::unsigned_text;
use cryptomeria_ingest::traits::OrderBook;
use serde_json::Value;

fn num(x: f64) -> Num {
    Num::new(x.to_bits(), x.to_string())
}

fn unit(op: FloatOp, a: Num, b: Num) -> Num {
    let (x, y) = (f64::from_bits(a.bits), f64::from_bits(b.bits));
    num(match op {
        FloatOp::Sum => x + y,
        FloatOp::Difference => x - y,
        FloatOp::PercentBelow => x * (1.0 - y / 100.0),
        FloatOp::PercentAbove => x * (1.0 + y / 100.0),
    })
}

trait AsFloat {
    type Float;
    fn f(&self) -> Self::Float;
}

impl AsFloat for Num {
    type Float = f64;
    fn f(&self) -> f64 {
        f64::from_bits(self.bits)
    }
}

impl AsFloat for Option<Num> {
    type Float = Option<f64>;
    fn f(&self) -> Option<f64> {
        self.as_ref().map(|n| n.f())
    }
}

fn levels(pairs: &[(f64, f64)]) -> Vec<LobLevel> {
    pairs.iter().map(|(price, size)| LobLevel { price: num(*price), size: num(*size) }).collect()
}

fn reading(x: f64) -> Reading {
    Reading {
        num: num(x),
        millis: (x * 1000.0) as u64,
        whole: x as i64,
        rounded: num(format!("{x:.8}").parse::<f64>().unwrap()),
    }
}

fn text(s: &str) -> JsonText {
    JsonText { text: s.to_string(), reading: s.parse::<f64>().ok().map(reading) }
}

fn json(v: &Value) -> Json {
    match v {
        Value::Null => Json::Null,
        Value::Bool(b) => Json::Bool(*b),
        Value::Number(n) => Json::Number(match (n.as_u64(), n.as_i64()) {
            (Some(u), _) => JsonNumber::PosInt(u, reading(n.as_f64().unwrap())),
            (None, Some(i)) => JsonNumber::NegInt(i, reading(n.as_f64().unwrap())),
            _ => JsonNumber::Float(reading(n.as_f64().unwrap()), n.to_string()),
        }),
        Value::String(s) => Json::Str(text(s)),
        Value::Array(a) => Json::Arr(a.iter().map(json).collect()),
        Value::Object(o) => Json::Obj(o.iter().map(|(k, v)| (k.clone(), json(v))).collect()),
    }
}

fn render(pieces: &[Piece]) -> String {
    pieces
        .iter()
        .map(|p| match p {
            Piece::Text(s) => s.clone(),
            Piece::Fixed { num, decimals } => {
                format!("{:.*}", *decimals as usize, num.f())
            }
        })
        .collect()
}

fn document(s: &str) -> Json {
    json(&serde_json::from_str(s).unwrap())
}

fn bitstamp(data_kind: DataKind) -> BitstampAdapter {
    BitstampAdapter::new(
        "BTC/USD".into(),
        "bitstamp".into(),
        "global".into(),
        "btcusd".into(),
        num(0.0),
        None,
        data_kind,
        false,
    )
}

fn bitvavo() -> BitvavoAdapter {
    BitvavoAdapter::new(
        "BTC-EUR".into(),
        "global".into(),
        Some("key".into()),
        Some("secret".into()),
        num(0.0),
        None,
        DataKind::LOB | DataKind::TRADE,
    )
}

#[test]
fn auth_requests_carry_the_signature_of_the_moment() {
    assert_eq!(
        build_auth_msg_at("key", "secret", 1700000000000),
        concat(&[
            r#"{"action":"authenticate","key":"key","signature":""#,
            "d4acb404edaa652cdf373149ffe43bdd7e303e5bbecdda03fc305290aa45832f",
            r#"","timestamp":1700000000000}"#,
        ])
    );
    assert_eq!(
        bitvavo().auth_msgs_at(1700000000000).unwrap(),
        vec![("auth".to_string(), build_auth_msg_at("key", "secret", 1700000000000))]
    );
}

fn concat(parts: &[&str]) -> String {
    parts.concat()
}

#[test]
fn requests_quote_what_they_carry() {
    assert_eq!(
        cryptomeria_ingest::kraken::ws::build_subscribe_msg("book", "A\"B\\C\n"),
        r#"{"method":"subscribe","params":{"channel":"book","symbol":["A\"B\\C\n"]}}"#
    );
    assert_eq!(
        cryptomeria_ingest::okx::ws::build_subscribe_msg("books", "BTC-USDT"),
        r#"{"args":[{"channel":"books","instId":"BTC-USDT"}],"op":"subscribe"}"#
    );
    assert_eq!(
        cryptomeria_ingest::bitstamp::ws::build_subscribe_msg("live_trades_btcusd"),
        r#"{"data":{"channel":"live_trades_btcusd"},"event":"bts:subscribe"}"#
    );
    assert_eq!(
        cryptomeria_ingest::bitvavo::ws::build_getbook_msg("BTC-EUR", 25),
        r#"{"action":"getBook","depth":25,"market":"BTC-EUR","requestId":1}"#
    );
}

#[test]
fn checksums_are_those_of_the_digits_of_both_sides() {
    let mut book = KrakenBook::new();
    book.apply_snapshot(&levels(&[(50000.0, 1.0), (49900.0, 2.0)]), Side::Bid);
    book.apply_snapshot(&levels(&[(50100.0, 1.5), (50200.0, 0.5)]), Side::Ask);
    assert_eq!(book.compute_checksum(10), 1850104217);
    assert!(book.verify_checksum(1850104217));
    assert!(!book.verify_checksum(1850104218));
}

#[test]
fn timestamps_are_read_in_both_formats() {
    assert_eq!(
        parse_kraken_timestamp(&text("2024-01-15T11:30:00.123+01:00")),
        Some(1705314600123)
    );
    assert_eq!(parse_kraken_timestamp(&text("1705314600.5")), Some(1705314600500));
    assert_eq!(parse_kraken_timestamp(&text("yesterday")), None);
}

#[test]
fn case_is_converted() {
    assert_eq!(apply_case_fallback("Btc/ÄΣ", CaseFallback::Lower), "btc/äς");
    assert_eq!(apply_case_fallback("btc/ß", CaseFallback::Upper), "BTC/SS");
    assert_eq!(apply_case_fallback("bTc", CaseFallback::Unchanged), "bTc");
}

#[test]
fn white_space_alone_is_blank() {
    assert!(is_blank(""));
    assert!(is_blank(" \t\u{a0}\n"));
    assert!(!is_blank(" x "));
}

#[test]
fn numbers_are_read_as_they_are_written() {
    for n in [0, 7, 10, 99, 1700000000000, u64::MAX] {
        assert_eq!(unsigned_text(n), n.to_string());
        assert_eq!(parse_unsigned(&unsigned_text(n)), Some(n));
    }
    for s in ["", "+", "-1", "1.0", "18446744073709551616", "+5", "007", " 1"] {
        assert_eq!(parse_unsigned(s), s.parse::<u64>().ok(), "{s}");
        assert_eq!(parse_signed(s), s.parse::<i64>().ok(), "{s}");
    }
    for s in ["-9223372036854775808", "9223372036854775808", "-", "--1", "-0"] {
        assert_eq!(parse_signed(s), s.parse::<i64>().ok(), "{s}");
    }
}

#[test]
fn moments_are_shown_as_times_of_day() {
    assert_eq!(time_text(0), "00:00:00.000");
    assert_eq!(time_text(1705314600123), "10:30:00.123");
}

#[test]
fn kinds_are_read_back_from_their_names() {
    for k in [DataKind::LOB, DataKind::TRADE, DataKind::LOB | DataKind::TRADE] {
        assert_eq!(DataKind::parse(&k.to_string()).unwrap(), k);
    }
    let mut both = DataKind::LOB;
    both |= DataKind::TRADE;
    assert_eq!(both, DataKind::LOB | DataKind::TRADE);
    match DataKind::parse("Lob| Trades ") {
        Err(DataKindError::Invalid(p)) => assert_eq!(p, " Trades "),
        other => panic!("unexpected: {other:?}"),
    }
    match DataKind::parse(" | ") {
        Err(e) => assert_eq!(e.to_string(), "data_kind must include at least Lob or Trade"),
        other => panic!("unexpected: {other:?}"),
    }
}

#[test]
fn a_list_of_instruments_decides() {
    let list = document(
        r#"{"channel":"instrument","type":"snapshot","data":{"pairs":[{"symbol":"BTC/USD"},{"symbol":"ETH/USD"},{"x":1}]}}"#,
    );
    assert!(matches!(judge_message(&list, "BTC/USD"), Some(Ok(()))));
    match judge_message(&list, "XRP/USD") {
        Some(Err(IngestError::Config(m))) => {
            assert_eq!(m, "Instrument 'XRP/USD' not found on Kraken")
        }
        other => panic!("unexpected: {other:?}"),
    }
    let refused = document(r#"{"method":"subscribe","success":false}"#);
    let explained =
        document(r#"{"method":"subscribe","success":false,"error":"no such channel"}"#);
    match judge_message(&explained, "BTC/USD") {
        Some(Err(IngestError::Config(m))) => {
            assert_eq!(m, "Kraken instrument subscription failed: \"no such channel\"")
        }
        other => panic!("unexpected: {other:?}"),
    }
    match judge_message(&refused, "BTC/USD") {
        Some(Err(IngestError::Config(m))) => {
            assert_eq!(m, "Kraken instrument subscription failed: unknown error")
        }
        other => panic!("unexpected: {other:?}"),
    }
    assert!(judge_message(&document(r#"{"channel":"heartbeat"}"#), "BTC/USD").is_none());
    assert_eq!(
        timeout_error().to_string(),
        "config error: Kraken instrument validation timed out after 10s"
    );
    assert_eq!(
        no_data_error().to_string(),
        "config error: Kraken instrument validation: no instrument data received"
    );
}

#[test]
fn an_error_code_of_okx_decides() {
    let listed = vec!["BTC-USDT".to_string()];
    assert!(judge_response("0", "", &listed, "BTC-USDT").is_ok());
    assert_eq!(
        judge_response("50011", "too many requests", &listed, "BTC-USDT").unwrap_err().to_string(),
        "config error: OKX API error: too many requests"
    );
    assert_eq!(
        judge_response("0", "", &listed, "ETH-USDT").unwrap_err().to_string(),
        "config error: Instrument 'ETH-USDT' not found on OKX"
    );
}

#[test]
fn test_validate_instrument_case_sensitive() {
    let listed = vec!["BTC-EUR".to_string()];
    let check = cryptomeria_ingest::bitvavo::validation::check_instrument_in_set;
    assert!(check("BTC-EUR", &listed).is_ok());
    assert!(check("btc-eur", &listed).is_err());
}

#[test]
fn orders_at_one_price_add_up() {
    let mut book = BitstampBook::new();
    let order = |id: u64, price: f64, size: f64, side: Side| OrderInfo {
        id,
        price: num(price),
        size: num(size),
        side,
    };
    book.set_order(order(1, 100.0, 1.5, Side::Bid), &unit);
    book.set_order(order(2, 100.0, 2.0, Side::Bid), &unit);
    assert_eq!(book.total_bid_size(&unit).f(), 3.5);
    book.set_order(order(1, 100.0, 0.25, Side::Bid), &unit);
    assert_eq!(book.total_bid_size(&unit).f(), 2.25);
    book.set_order(order(2, 0.0, 0.0, Side::Ask), &unit);
    assert_eq!(book.total_bid_size(&unit).f(), 0.25);
    book.set_order(order(9, 0.0, 0.0, Side::Ask), &unit);
    assert_eq!(book.num_bids(), 1);
}

#[test]
fn an_order_that_would_cross_is_refused() {
    let mut book = BitstampBook::new();
    let data = OrderBookData {
        bids: vec![vec![text("100.0"), text("1.0")]],
        asks: vec![vec![text("101.0"), text("1.0")], vec![text("99.0"), text("1.0")]],
        timestamp: "0".into(),
        microtimestamp: "0".into(),
    };
    book.apply_orderbook(&data, &unit);
    assert_eq!(book.best_ask().f(), Some(101.0));
    assert_eq!(book.best_bid().f(), Some(100.0));
    assert!(!book.needs_resync());
}

#[test]
fn bitstamp_recovers_only_its_book() {
    let mut a = bitstamp(DataKind::LOB);
    match a.on_reconnect_at(5) {
        Recovery::Emit(MarketDataItem::Lob(lob)) => {
            assert_eq!(lob.ts, 5);
            assert_eq!(lob.exchange, "bitstamp");
            assert!(lob.bids.is_empty() && lob.asks.is_empty());
        }
        other => panic!("unexpected: {other:?}"),
    }
    let mut a = bitstamp(DataKind::TRADE);
    assert!(matches!(a.on_reconnect_at(5), Recovery::Nothing));
}

#[test]
fn bitstamp_snapshots_become_items() {
    let data = OrderBookData {
        bids: vec![vec![text("100.0"), text("1.0")]],
        asks: vec![vec![text("101.0"), text("2.0")]],
        timestamp: "0".into(),
        microtimestamp: "1705314600123456".into(),
    };
    match bitstamp(DataKind::LOB).snapshot_item_at(&data, &unit, 1) {
        Some(MarketDataItem::Lob(lob)) => {
            assert_eq!(lob.ts, 1705314600123);
            assert_eq!(lob.bids[0].price.f(), 100.0);
            assert_eq!(lob.asks[0].size.f(), 2.0);
        }
        other => panic!("unexpected: {other:?}"),
    }
    let empty = OrderBookData {
        bids: vec![],
        asks: vec![],
        timestamp: "".into(),
        microtimestamp: "".into(),
    };
    assert!(bitstamp(DataKind::LOB).snapshot_item_at(&empty, &unit, 1).is_none());
}

#[test]
fn bitstamp_messages_without_timestamp_get_the_present() {
    let doc = document(
        r#"{"event":"snapshot","channel":"diff_order_book_btcusd","data":{"bids":[["100.0","1.5"]],"asks":[["101.0","2.0"]]}}"#,
    );
    let msg = BitstampWsMessage::from_value(&doc).unwrap();
    match bitstamp(DataKind::LOB).handle_message_at(&msg, &unit, 77) {
        Some(MarketDataItem::Lob(lob)) => assert_eq!(lob.ts, 77),
        other => panic!("unexpected: {other:?}"),
    }
}

#[test]
fn an_update_counts_once() {
    let mut a = bitvavo();
    let update = |start: u64, size: &str| BookUpdate {
        market: "BTC-EUR".into(),
        bids: vec![vec![text("100.0"), text(size)]],
        asks: vec![],
        start_md_seq_no: start,
        end_md_seq_no: start,
        timestamp: None,
    };
    a.book.apply_update(&update(7, "3.0"));
    let doc = document(
        r#"{"action":"getBook","response":{"market":"BTC-EUR","nonce":6,"bids":[["100.0","1.0"]],"asks":[["101.0","1.0"]],"mdSeqNo":6}}"#,
    );
    let msg = BitvavoWsMessage::from_value(&doc).unwrap();
    assert!(a.can_handle(&msg));
    match a.handle_message_at(&msg, &unit, 42) {
        Some(MarketDataItem::Lob(lob)) => {
            assert_eq!(lob.ts, 42);
            assert_eq!(lob.bids[0].size.f(), 3.0);
        }
        other => panic!("unexpected: {other:?}"),
    }
    a.book.apply_update(&update(7, "9.0"));
    assert_eq!(a.book.top_bids(1)[0].size.f(), 3.0);
}

#[test]
fn rows_that_cannot_be_read_are_told_apart() {
    let a = bitvavo();
    let short = document(r#"{"event":"book","bids":[["100.0"]],"startMdSeqNo":1,"endMdSeqNo":1}"#);
    assert!(a.can_handle(&BitvavoWsMessage::from_value(&short).unwrap()));
    let snap = document(
        r#"{"action":"getBook","response":{"market":"BTC-EUR","nonce":6,"bids":[["100.0"]],"asks":[],"mdSeqNo":6}}"#,
    );
    assert!(!a.can_handle(&BitvavoWsMessage::from_value(&snap).unwrap()));
}

#[test]
fn the_same_book_is_not_emitted_twice() {
    let doc = document(
        r#"{"channel":"book","type":"snapshot","data":[{"symbol":"XBT/USD","bids":[{"price":1.0,"qty":1.0}],"asks":[{"price":2.0,"qty":1.0}],"checksum":0,"timestamp":"x"}]}"#,
    );
    let msg = KrakenWsMessage::from_value(&doc).unwrap();
    let mut a = KrakenAdapter::new(
        "XBT/USD".into(),
        "global".into(),
        num(0.0),
        None,
        DataKind::LOB,
        false,
        false,
    );
    match a.handle_message_at(&msg, &unit, 11) {
        Some(MarketDataItem::Lob(lob)) => assert_eq!(lob.ts, 11),
        other => panic!("unexpected: {other:?}"),
    }
    assert!(a.handle_message_at(&msg, &unit, 12).is_none());
    assert_eq!(a.ping_msg().as_deref(), Some(r#"{"method":"ping"}"#));
    assert_eq!(a.keepalive_interval_ms(), 6000);
    let pong = document(r#"{"method":"pong"}"#);
    assert!(a.is_pong(&KrakenWsMessage::from_value(&pong).unwrap()));
}

#[test]
fn kraken_messages_are_shown_with_their_time() {
    let doc = document(
        r#"{"channel":"trade","type":"update","data":[{"symbol":"XBT/USD","side":"sell","price":50000.5,"qty":0.5,"trade_id":12345,"timestamp":"2024-01-15T10:30:00.000000Z"}]}"#,
    );
    let msg = KrakenWsMessage::from_value(&doc).unwrap();
    let line = render(&display_message_at(&msg, 0));
    assert!(line.starts_with("[10:30:00.000 TRADE] "), "{line}");
    assert!(line.contains("50000.5"), "{line}");
}

#[test]
fn okx_messages_are_shown_with_their_time() {
    let doc = document(r#"{"event":"subscribe"}"#);
    let msg = OkxWsMessage::from_value(&doc).unwrap();
    let line = cryptomeria_ingest::okx::ws::display_message_at(&msg, 1705314600123);
    assert!(line.starts_with("[10:30:00.123 EVENT] "), "{line}");
}

#[test]
fn the_best_levels_are_kept() {
    let mut book = KrakenBook::new();
    book.apply_snapshot(&levels(&[(10.0, 1.0), (9.0, 2.0), (8.0, 3.0)]), Side::Bid);
    book.apply_snapshot(&levels(&[(11.0, 1.0), (12.0, 2.0), (13.0, 3.0)]), Side::Ask);
    let lob = book.to_lob_item(0, "kraken", Some(2), &num(10.0), &unit).unwrap();
    let prices = |side: &Vec<LobLevel>| side.iter().map(|l| l.price.f()).collect::<Vec<f64>>();
    assert_eq!(prices(&lob.bids), [9.0, 10.0]);
    assert_eq!(prices(&lob.asks), [11.0, 12.0]);
}

#[test]
fn all_books_have_the_same_shape() {
    fn shape<B: OrderBook>() -> (usize, usize, bool, f64, String) {
        let book = B::new();
        (
            book.num_bids(),
            book.num_asks(),
            book.spread(&unit).is_none() && book.best_bid().is_none() && book.best_ask().is_none(),
            book.total_bid_size(&unit).f() + book.total_ask_size(&unit).f(),
            render(&book.display("X", &num(0.0), &unit)),
        )
    }
    let expected = shape::<KrakenBook>();
    assert_eq!((expected.0, expected.1, expected.2, expected.3), (0, 0, true, 0.0));
    assert_eq!(shape::<BitstampBook>(), expected);
    assert_eq!(shape::<cryptomeria_ingest::okx::lob::OrderBook>(), expected);
    assert_eq!(shape::<cryptomeria_ingest::bitvavo::lob::OrderBook>(), expected);
}

#[test]
fn a_fresh_adapter_has_the_same_settings() {
    let mut a = OkxAdapter::new(
        "BTC-USDT".into(),
        "europe".into(),
        num(0.5),
        Some(3),
        DataKind::LOB,
        true,
    );
    let doc = document(
        r#"{"arg":{"channel":"books","instId":"BTC-USDT"},"action":"snapshot","data":[{"bids":[["1","1"]],"asks":[["2","1"]],"ts":"5","checksum":0}]}"#,
    );
    let msg = OkxWsMessage::from_value(&doc).unwrap();
    assert!(a.handle_message(&msg, &unit).is_some());
    let b = a.fresh_adapter();
    assert_eq!(b.book.num_bids(), 0);
    assert!(b.prev_lob.is_none());
    assert_eq!(b.url(), a.url());
    assert_eq!(b.max_level, Some(3));
}

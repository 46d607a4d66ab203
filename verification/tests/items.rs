//! Items and errors.

use cryptomeria_ingest::config::ConfigError;
use cryptomeria_ingest::items::same_levels;
use cryptomeria_ingest::items::IngestError;
use cryptomeria_ingest::items::LobItem;
use cryptomeria_ingest::items::LobLevel;
use cryptomeria_ingest::items::MarketDataItem;
use cryptomeria_ingest::items::TradeItem;
use cryptomeria_ingest::num::Num;

fn num(x: f64) -> Num {
    Num::new(x.to_bits(), x.to_string())
}

#[test]
fn test_market_data_item_timestamp_lob() {
    let item = MarketDataItem::Lob(LobItem {
        ts: 123,
        exchange: "okx".into(),
        bids: vec![],
        asks: vec![],
    });
    assert_eq!(item.timestamp_ms(), 123);
}

#[test]
fn test_market_data_item_timestamp_trade() {
    let item = MarketDataItem::Trade(TradeItem {
        ts: 456,
        exchange: "okx".into(),
        price: num(100.0),
        size: num(1.0),
        side: "buy".into(),
        trade_id: None,
        seq_id: None,
    });
    assert_eq!(item.timestamp_ms(), 456);
}

#[test]
fn test_ingest_error_display() {
    assert_eq!(
        IngestError::Config("x".into()).to_string(),
        "config error: x"
    );
    assert_eq!(
        IngestError::Connection("x".into()).to_string(),
        "connection error: x"
    );
    assert_eq!(
        IngestError::Subscribe("x".into()).to_string(),
        "subscribe error: x"
    );
    assert_eq!(IngestError::Parse("x".into()).to_string(), "parse error: x");
    assert_eq!(
        IngestError::MaxReconnectsExceeded(3).to_string(),
        "max reconnect attempts (3) exceeded"
    );
    assert_eq!(IngestError::ChannelClosed.to_string(), "channel closed");
    assert_eq!(
        IngestError::Heartbeat("x".into()).to_string(),
        "heartbeat error: x"
    );
    assert_eq!(
        IngestError::Exchange("x".into()).to_string(),
        "exchange error: x"
    );
    assert_eq!(IngestError::Io("x".into()).to_string(), "I/O error: x");
}

#[test]
fn ingest_error_display_of_a_timeout() {
    assert_eq!(IngestError::RequestTimeout("x".into()).to_string(), "request timeout: x");
}

#[test]
fn test_ingest_error_from_config_error() {
    let err: IngestError = ConfigError::MissingExchange.into();
    assert_eq!(err.to_string(), "config error: exchange is required");
}

#[test]
fn levels_compare_as_numbers() {
    let level = |p: f64, s: f64| LobLevel { price: num(p), size: num(s) };
    assert!(same_levels(&vec![level(1.0, 2.0)], &vec![level(1.0, 2.0)]));
    assert!(!same_levels(&vec![level(1.0, 2.0)], &vec![level(1.0, 3.0)]));
    assert!(!same_levels(&vec![level(1.0, 2.0)], &vec![]));
    assert!(same_levels(&vec![level(0.0, 2.0)], &vec![level(-0.0, 2.0)]));
    assert!(!same_levels(&vec![level(f64::NAN, 2.0)], &vec![level(f64::NAN, 2.0)]));
}

#[test]
fn numbers_compare_as_doubles() {
    let values = [
        f64::NEG_INFINITY,
        -1.5,
        -f64::MIN_POSITIVE,
        -0.0,
        0.0,
        f64::MIN_POSITIVE,
        1.0,
        1.5,
        100.0,
        f64::INFINITY,
        f64::NAN,
    ];
    for a in values {
        assert_eq!(num(a).is_nan(), a.is_nan());
        assert_eq!(num(a).is_zero(), a == 0.0);
        assert_eq!(num(a).is_positive(), a > 0.0);
        for b in values {
            assert_eq!(num(a).lt(&num(b)), a < b, "{a} < {b}");
            assert_eq!(num(a).le(&num(b)), a <= b, "{a} <= {b}");
            assert_eq!(num(a).same(&num(b)), a == b, "{a} == {b}");
        }
    }
}

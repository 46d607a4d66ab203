//! Opening a stream.

use cryptomeria_ingest::config::CaseFallback;
use cryptomeria_ingest::config::DataKind;
use cryptomeria_ingest::config::DataSourceConfig;
use cryptomeria_ingest::config::ExchangeFallbackMapping;
use cryptomeria_ingest::config::StringHashMap;
use cryptomeria_ingest::instrument::candidates;
use cryptomeria_ingest::instrument::validate_with_fallback;
use cryptomeria_ingest::instrument::ExchangeValidator;
use cryptomeria_ingest::instrument::Resolution;
use cryptomeria_ingest::items::IngestError;
use cryptomeria_ingest::stream::stream;
use cryptomeria_ingest::stream::Opening;

fn config() -> DataSourceConfig {
    let mut aliases = StringHashMap::new();
    aliases.insert(
        "".to_string(),
        ExchangeFallbackMapping {
            base_mappings: vec!["BTC".to_string()],
            quote_mappings: vec!["USDT".to_string(), "USDC".to_string()],
            separator_mappings: vec!["-".to_string()],
            case_fallback: CaseFallback::Upper,
        },
    );
    let mut fallback = StringHashMap::new();
    fallback.insert("okx".to_string(), aliases);
    DataSourceConfig {
        exchange: "okx".into(),
        region: "global".into(),
        instrument: "xbt/usdt".into(),
        data_kind: DataKind::LOB | DataKind::TRADE,
        fallback,
        ..Default::default()
    }
}

fn refusal(c: &DataSourceConfig) -> String {
    match stream(c, &vec![]) {
        Opening::Refuse(IngestError::Config(msg)) => msg,
        other => panic!("expected error, got {other:?}"),
    }
}

#[test]
fn test_stream_invalid_exchange() {
    let config = DataSourceConfig {
        exchange: "unknown".into(),
        ..Default::default()
    };
    assert!(refusal(&config).contains("unknown exchange"));
}

#[test]
fn test_stream_validation_error() {
    let config = DataSourceConfig {
        exchange: "okx".into(),
        region: "global".into(),
        instrument: "".into(),
        ..Default::default()
    };
    assert!(refusal(&config).contains("instrument is required"));
}

#[test]
fn test_stream_validation_missing_region() {
    let config = DataSourceConfig {
        exchange: "okx".into(),
        instrument: "BTC-USDT".into(),
        data_kind: DataKind::LOB,
        ..Default::default()
    };
    assert!(refusal(&config).contains("region is required"));
}

#[test]
fn test_stream_validation_empty_data_kind() {
    let config = DataSourceConfig {
        exchange: "okx".into(),
        region: "global".into(),
        instrument: "BTC-USDT".into(),
        data_kind: DataKind::empty(),
        ..Default::default()
    };
    assert!(refusal(&config).contains("data_kind must include at least Lob or Trade"));
}

#[test]
fn names_are_tried_in_order() {
    let c = config();
    assert_eq!(candidates(&c), ["xbt/usdt", "XBT/USDT", "BTC-USDT", "BTC-USDC"]);
    for (n, name) in ["xbt/usdt", "XBT/USDT", "BTC-USDT", "BTC-USDC"].iter().enumerate() {
        match stream(&c, &vec![false; n]) {
            Opening::Ask(s) => assert_eq!(s, *name),
            other => panic!("unexpected: {other:?}"),
        }
    }
    assert_eq!(
        match stream(&c, &vec![false; 4]) {
            Opening::Refuse(e) => e.to_string(),
            other => panic!("unexpected: {other:?}"),
        },
        "config error: Instrument 'xbt/usdt' not found on okx and no valid fallback mapping"
    );
}

#[test]
fn the_name_that_is_accepted_is_opened() {
    match stream(&config(), &vec![false, false, true]) {
        Opening::Open { exchange, instrument, channels } => {
            assert_eq!(exchange, ExchangeValidator::Okx);
            assert_eq!(instrument, "BTC-USDT");
            assert_eq!(channels, vec![DataKind::LOB, DataKind::TRADE]);
        }
        other => panic!("unexpected: {other:?}"),
    }
}

#[test]
fn without_a_mapping_only_the_name_itself_is_tried() {
    let mut c = config();
    c.exchange = "kraken".into();
    assert_eq!(candidates(&c), ["xbt/usdt"]);
    match validate_with_fallback(&c, &vec![true]) {
        Resolution::Use(s) => assert_eq!(s, "xbt/usdt"),
        other => panic!("unexpected: {other:?}"),
    }
}

#[test]
fn unknown_exchanges_have_no_instruments() {
    let mut c = config();
    c.exchange = "nowhere".into();
    match validate_with_fallback(&c, &vec![]) {
        Resolution::Refuse(IngestError::Config(m)) => assert_eq!(m, "Unknown exchange: nowhere"),
        other => panic!("unexpected: {other:?}"),
    }
}

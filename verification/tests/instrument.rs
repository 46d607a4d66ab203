//! Exchanges and fallback names of instruments.

use cryptomeria_ingest::config::CaseFallback;
use cryptomeria_ingest::config::ExchangeFallbackMapping;
use cryptomeria_ingest::config::StringHashMap;
use cryptomeria_ingest::instrument::apply_case_fallback;
use cryptomeria_ingest::instrument::generate_fallback_variants;
use cryptomeria_ingest::instrument::select_fallback_mapping;
use cryptomeria_ingest::instrument::ExchangeValidator;
use cryptomeria_ingest::items::IngestError;

fn mapping() -> ExchangeFallbackMapping {
    ExchangeFallbackMapping {
        base_mappings: vec!["BTC".to_string(), "XBT".to_string()],
        quote_mappings: vec!["USDT".to_string(), "USD".to_string()],
        separator_mappings: vec!["-".to_string(), "/".to_string()],
        case_fallback: CaseFallback::Upper,
    }
}

#[test]
fn test_apply_case_fallback() {
    assert_eq!(
        apply_case_fallback("BTC-USDT", CaseFallback::Unchanged),
        "BTC-USDT"
    );
    assert_eq!(
        apply_case_fallback("BTC-USDT", CaseFallback::Lower),
        "btc-usdt"
    );
    assert_eq!(
        apply_case_fallback("btc-usdt", CaseFallback::Upper),
        "BTC-USDT"
    );
}

#[test]
fn test_generate_fallback_variants() {
    let mapping = ExchangeFallbackMapping {
        base_mappings: vec!["XBT".to_string(), "BTC".to_string()],
        quote_mappings: vec!["USDT".to_string(), "USDC".to_string(), "USD".to_string()],
        separator_mappings: vec!["/".to_string(), "-".to_string(), "".to_string()],
        case_fallback: CaseFallback::Unchanged,
    };

    let variants = generate_fallback_variants("XBT/USDT", &mapping);

    // Should include original
    assert!(variants.contains(&"XBT/USDT".to_string()));

    // Should include combinations
    assert!(variants.contains(&"XBT-USDT".to_string()));
    assert!(variants.contains(&"XBTUSDT".to_string()));
    assert!(variants.contains(&"BTC/USDT".to_string()));
    assert!(variants.contains(&"BTC-USDT".to_string()));
    assert!(variants.contains(&"BTCUSDT".to_string()));
    assert!(variants.contains(&"XBT/USDC".to_string()));
    assert!(variants.contains(&"XBT/USD".to_string()));
}

#[test]
fn test_generate_fallback_variants_with_case() {
    let mapping = ExchangeFallbackMapping {
        base_mappings: vec!["XBT".to_string(), "BTC".to_string()],
        quote_mappings: vec!["USDT".to_string(), "USDC".to_string(), "USD".to_string()],
        separator_mappings: vec!["/".to_string(), "-".to_string(), "".to_string()],
        case_fallback: CaseFallback::Lower,
    };

    let variants = generate_fallback_variants("XBT/USDT", &mapping);

    // Should include lowercase variants
    assert!(variants.contains(&"xbt/usdt".to_string()));
    assert!(variants.contains(&"xbt-usdt".to_string()));
    assert!(variants.contains(&"btc/usdt".to_string()));
}

#[test]
fn variants_come_in_order_without_the_original_again() {
    let variants = generate_fallback_variants("btc/usd", &mapping());
    assert_eq!(
        variants,
        vec![
            "BTC/USD", "BTC-USDT", "BTC/USDT", "BTC-USD", "XBT-USDT", "XBT/USDT", "XBT-USD", "XBT/USD",
        ]
    );
    assert_eq!(generate_fallback_variants("a", &ExchangeFallbackMapping::default()), vec!["a"]);
}

#[test]
fn test_exchange_validator_from_name() {
    assert_eq!(
        ExchangeValidator::from_exchange_name("okx"),
        Some(ExchangeValidator::Okx)
    );
    assert_eq!(
        ExchangeValidator::from_exchange_name("kraken"),
        Some(ExchangeValidator::Kraken)
    );
    assert_eq!(
        ExchangeValidator::from_exchange_name("bitstamp"),
        Some(ExchangeValidator::Bitstamp)
    );
    assert_eq!(
        ExchangeValidator::from_exchange_name("bitvavo"),
        Some(ExchangeValidator::Bitvavo)
    );
    assert_eq!(ExchangeValidator::from_exchange_name("unknown"), None);
}

#[test]
fn test_exchange_validator_name() {
    assert_eq!(ExchangeValidator::Okx.exchange_name(), "okx");
    assert_eq!(ExchangeValidator::Kraken.exchange_name(), "kraken");
    assert_eq!(ExchangeValidator::Bitstamp.exchange_name(), "bitstamp");
    assert_eq!(ExchangeValidator::Bitvavo.exchange_name(), "bitvavo");
}

#[test]
fn test_select_fallback_mapping_by_alias() {
    let mut aliases = StringHashMap::new();
    aliases.insert("btcusd".to_string(), mapping());
    let mut fallback = StringHashMap::new();
    fallback.insert("okx".to_string(), aliases);

    // Explicit alias selects the per-instrument rule set.
    let got = select_fallback_mapping("okx", Some("btcusd"), &fallback).unwrap();
    assert_eq!(got.base_mappings, vec!["BTC", "XBT"]);
}

#[test]
fn test_select_fallback_mapping_falls_back_to_exchange_only() {
    let mut aliases = StringHashMap::new();
    aliases.insert("btcusd".to_string(), mapping());
    aliases.insert("".to_string(), mapping());
    let mut fallback = StringHashMap::new();
    fallback.insert("okx".to_string(), aliases);

    // When alias is None, the empty-string (exchange-only) rule is used.
    let got = select_fallback_mapping("okx", None, &fallback).unwrap();
    assert_eq!(got.base_mappings, vec!["BTC", "XBT"]);
}

#[test]
fn test_select_fallback_mapping_unknown_alias_falls_back() {
    let mut aliases = StringHashMap::new();
    aliases.insert("".to_string(), mapping());
    let mut fallback = StringHashMap::new();
    fallback.insert("okx".to_string(), aliases);

    // An alias with no entry falls back to the exchange-only rule.
    let got = select_fallback_mapping("okx", Some("nope"), &fallback).unwrap();
    assert_eq!(got.quote_mappings, vec!["USDT", "USD"]);
}

#[test]
fn test_select_fallback_mapping_missing_exchange() {
    let fallback = StringHashMap::<StringHashMap<ExchangeFallbackMapping>>::new();

    assert!(select_fallback_mapping("okx", Some("btcusd"), &fallback).is_none());
    assert!(select_fallback_mapping("okx", None, &fallback).is_none());
}

#[test]
fn test_validation_url_uses_markets_endpoint() {
    assert_eq!(
        cryptomeria_ingest::bitvavo::validation::build_validation_url("global"),
        "https://api.bitvavo.com/v2/markets"
    );
}

#[test]
fn validation_test_validate_instrument_returns_error_for_not_found() {
    let symbols: Vec<String> = ["BTC/USD", "ETH/USD"].iter().map(|s| s.to_string()).collect();
    assert!(cryptomeria_ingest::kraken::validation::check_instrument_in_set("XRP/USD", &symbols).is_err());
}

#[test]
fn validation_test_validate_instrument_ok_when_found() {
    let symbols: Vec<String> = ["BTC/USD", "ETH/USD"].iter().map(|s| s.to_string()).collect();
    assert!(cryptomeria_ingest::kraken::validation::check_instrument_in_set("BTC/USD", &symbols).is_ok());
}

#[test]
fn bitvavo_validation_test_validate_instrument_ok_when_found() {
    let markets: Vec<String> = ["BTC-EUR", "ETH-EUR"].iter().map(|s| s.to_string()).collect();
    assert!(cryptomeria_ingest::bitvavo::validation::check_instrument_in_set("BTC-EUR", &markets).is_ok());
}

#[test]
fn bitvavo_validation_test_validate_instrument_returns_error_for_not_found() {
    let markets: Vec<String> = ["BTC-EUR", "ETH-EUR"].iter().map(|s| s.to_string()).collect();
    assert!(cryptomeria_ingest::bitvavo::validation::check_instrument_in_set("XRP-EUR", &markets).is_err());
}

#[test]
fn not_found_names_the_venue() {
    let symbols: Vec<String> = vec!["BTC-EUR".to_string()];
    let message = |r: Result<(), IngestError>| r.unwrap_err().to_string();
    assert_eq!(
        message(cryptomeria_ingest::okx::validation::check_instrument_in_set("X", &symbols)),
        "config error: Instrument 'X' not found on OKX"
    );
    assert_eq!(
        message(cryptomeria_ingest::kraken::validation::check_instrument_in_set("X", &symbols)),
        "config error: Instrument 'X' not found on Kraken"
    );
    assert_eq!(
        message(cryptomeria_ingest::bitstamp::validation::check_instrument_in_set("X", &symbols)),
        "config error: Instrument 'X' not found on Bitstamp"
    );
    assert_eq!(
        message(cryptomeria_ingest::bitvavo::validation::check_instrument_in_set("X", &symbols)),
        "config error: Instrument 'X' not found on Bitvavo"
    );
}

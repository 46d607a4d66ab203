//! The life of a connection.

use cryptomeria_ingest::wsloop::keepalive_timeout;
use cryptomeria_ingest::wsloop::normalize_max_attempts;
use cryptomeria_ingest::wsloop::should_log_debug;
use cryptomeria_ingest::wsloop::silence_sleep_duration;
use cryptomeria_ingest::wsloop::DISABLED_SILENCE_SECS;
use std::time::Duration;

#[test]
fn test_silence_sleep_duration_some() {
    assert_eq!(silence_sleep_duration(Some(30)), Duration::from_secs(30));
}

#[test]
fn test_silence_sleep_duration_none_is_effectively_infinite() {
    // When None (disabled), the sentinel duration must be long enough that
    // the timer never fires during normal operation.
    let d = silence_sleep_duration(None);
    assert_eq!(d, Duration::from_secs(DISABLED_SILENCE_SECS));
    assert!(d > Duration::from_secs(86400)); // at least one day
}

#[test]
fn test_keepalive_timeout_okx() {
    // OKX keepalive = 18000ms → timeout = 18000 * 2 = 36000ms
    let d = keepalive_timeout(18000);
    assert_eq!(d, Duration::from_millis(36000));
}

#[test]
fn test_keepalive_timeout_kraken() {
    // Kraken keepalive = 6000ms → timeout = 6000 * 2 = 12000ms
    let d = keepalive_timeout(6000);
    assert_eq!(d, Duration::from_millis(12000));
}

#[test]
fn test_keepalive_timeout_default() {
    // Default keepalive = 5000ms → timeout = 5000 * 2 = 10000ms
    let d = keepalive_timeout(5000);
    assert_eq!(d, Duration::from_millis(10000));
}

#[test]
fn keepalive_timeout_rounds_as_a_double() {
    for ms in [
        0,
        1,
        (1 << 53) - 1,
        1 << 53,
        (1 << 53) + 1,
        (1 << 53) + 3,
        (1 << 60) + 64,
        (1 << 60) + 65,
        (1 << 60) + 192,
        u64::MAX / 2,
        u64::MAX - 1,
        u64::MAX,
    ] {
        let expected = (ms as f64 * 2.0) as u64;
        assert_eq!(keepalive_timeout(ms), Duration::from_millis(expected), "{ms}");
    }
}

#[test]
fn test_should_log_debug() {
    // High-frequency per-message debug logs are emitted only when the
    // operator has explicitly enabled `debug_log` AND the runtime log level
    // is DEBUG. Otherwise they are suppressed to avoid flooding.
    assert!(!should_log_debug(false, true));
    assert!(!should_log_debug(true, false));
    assert!(should_log_debug(true, true));
}

#[test]
fn test_normalize_max_attempts_some_zero_becomes_none() {
    assert_eq!(normalize_max_attempts(Some(0)), None);
}

#[test]
fn test_normalize_max_attempts_none_stays_none() {
    assert_eq!(normalize_max_attempts(None), None);
}

#[test]
fn test_normalize_max_attempts_some_n_preserved() {
    assert_eq!(normalize_max_attempts(Some(3)), Some(3u64));
    assert_eq!(normalize_max_attempts(Some(1)), Some(1u64));
}

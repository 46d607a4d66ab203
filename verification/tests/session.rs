//! The life of a connection, step by step.

use cryptomeria_ingest::config::DataKind;
use cryptomeria_ingest::config::DataSourceConfig;
use cryptomeria_ingest::config::ResilienceConfig;
use cryptomeria_ingest::items::IngestError;
use cryptomeria_ingest::num::Num;
use cryptomeria_ingest::session::Action;
use cryptomeria_ingest::session::Delivery;
use cryptomeria_ingest::session::Event;
use cryptomeria_ingest::session::Phase;
use cryptomeria_ingest::session::Session;

const SECOND: u64 = 1_000_000_000;

fn config(max_attempts: Option<u32>, silence_timeout_secs: Option<u64>) -> DataSourceConfig {
    DataSourceConfig {
        exchange: "bitstamp".to_string(),
        region: "global".to_string(),
        instrument: "BTCUSD".to_string(),
        data_kind: DataKind::LOB,
        max_level_pct: Num::new(0, "0".to_string()),
        resilience: ResilienceConfig {
            initial_backoff_ms: 1,
            max_attempts,
            silence_timeout_secs,
            ..Default::default()
        },
        ..Default::default()
    }
}

fn session(max_attempts: Option<u32>, silence: Option<u64>, auth: bool) -> Session {
    Session::start(&config(max_attempts, silence), auth, 5000).unwrap()
}

fn text(pong: bool, confirmed: bool, delivery: Delivery) -> Event {
    Event::Text { pong, confirmed, delivery }
}

fn opened(max_attempts: Option<u32>, silence: Option<u64>, now: u64) -> Session {
    let mut s = session(max_attempts, silence, false);
    s.step(Event::Done, now);
    s.step(Event::Done, now);
    assert_eq!(s.action(), Action::Read);
    s
}

#[test]
fn test_some_zero_max_attempts_does_not_exhaust_retries() {
    let mut s = session(Some(0), None, false);
    for n in 0..500 {
        assert_eq!(s.action(), Action::Connect);
        s.step(Event::Failed, n);
        assert_eq!(s.action(), Action::Wait { failures: n });
        s.step(Event::Done, n);
    }
}

#[test]
fn test_max_attempts_some_1_surfaces_error_through_channel() {
    let mut s = session(Some(1), None, false);
    s.step(Event::Failed, 0);
    assert_eq!(s.action(), Action::GiveUp { attempts: 1 });
}

#[test]
fn test_silence_timeout_fires_when_only_pongs() {
    let mut s = opened(Some(1), Some(1), 0);
    assert_eq!(s.silence_due, SECOND as u128);
    s.step(text(true, false, Delivery::NoItem), SECOND / 2);
    s.step(Event::Pong, SECOND * 3 / 4);
    s.step(Event::Noise, SECOND * 4 / 5);
    assert_eq!(s.silence_due, SECOND as u128);
    assert_eq!(s.last_pong, SECOND * 3 / 4);
    s.step(Event::SilenceDue, SECOND);
    assert_eq!(s.action(), Action::GiveUp { attempts: 1 });
}

#[test]
fn test_market_data_resets_silence_timer() {
    let mut s = opened(Some(1), Some(1), 0);
    for i in 1..16 {
        let now = i * SECOND / 5;
        s.step(text(false, false, Delivery::Taken), now);
        assert_eq!(s.silence_due, (now + SECOND) as u128);
        assert_eq!(s.action(), Action::Read);
    }
}

#[test]
fn gives_up_at_the_third_failure() {
    let mut s = session(Some(3), None, false);
    s.step(Event::Failed, 0);
    assert_eq!(s.action(), Action::Wait { failures: 0 });
    s.step(Event::Done, 1);
    s.step(Event::Failed, 2);
    assert_eq!(s.action(), Action::Wait { failures: 1 });
    s.step(Event::Done, 3);
    s.step(Event::Failed, 4);
    assert_eq!(s.action(), Action::GiveUp { attempts: 3 });
    s.step(Event::Done, 5);
    assert_eq!(s.phase, Phase::GivenUp);
}

#[test]
fn subscribing_wipes_out_failures() {
    let mut s = session(Some(2), None, false);
    s.step(Event::Failed, 0);
    s.step(Event::Done, 1);
    s.step(Event::Done, 2);
    assert_eq!(s.attempt, 1);
    s.step(Event::Done, 3);
    assert_eq!(s.attempt, 0);
    s.step(Event::Closed, 4);
    assert_eq!(s.action(), Action::Recover);
    s.step(Event::Done, 5);
    assert_eq!(s.action(), Action::Wait { failures: 0 });
    s.step(Event::Done, 6);
    assert_eq!(s.action(), Action::Connect);
}

#[test]
fn authenticates_before_subscribing() {
    let mut s = session(None, None, true);
    s.step(Event::Done, 0);
    assert_eq!(s.action(), Action::SendAuth);
    s.step(Event::Done, 1);
    assert_eq!(s.action(), Action::AwaitAuth);
    s.step(text(false, false, Delivery::Taken), 2);
    s.step(Event::Noise, 3);
    assert_eq!(s.action(), Action::AwaitAuth);
    s.step(text(false, true, Delivery::NoItem), 4);
    assert_eq!(s.action(), Action::Subscribe);
}

#[test]
fn authentication_that_fails_is_tried_again() {
    for event in [Event::AuthTimeout, Event::Closed] {
        let mut s = session(Some(2), None, true);
        s.step(Event::Done, 0);
        s.step(Event::Done, 1);
        s.step(event, 2);
        assert_eq!(s.action(), Action::Wait { failures: 0 });
    }
    let mut s = session(Some(1), None, true);
    s.step(Event::Done, 0);
    s.step(Event::Failed, 1);
    assert_eq!(s.action(), Action::GiveUp { attempts: 1 });
}

#[test]
fn a_ping_is_sent_while_pongs_come() {
    let mut s = opened(None, None, 0);
    assert_eq!(s.ping_due, 5 * SECOND as u128);
    s.step(Event::PingDue, 5 * SECOND);
    assert_eq!(s.action(), Action::Ping);
    s.step(Event::Done, 5 * SECOND);
    assert_eq!(s.action(), Action::Read);
    assert_eq!(s.ping_due, 10 * SECOND as u128);
    s.step(Event::PingDue, 10 * SECOND);
    assert_eq!(s.action(), Action::Ping);
    s.step(Event::Failed, 10 * SECOND);
    assert_eq!(s.action(), Action::Recover);
}

#[test]
fn a_missing_pong_is_reported() {
    let mut s = opened(None, None, 0);
    s.step(Event::PingDue, 10 * SECOND + 1);
    assert_eq!(s.action(), Action::Complain);
    match s.no_pong_error("okx", "BTC-USDT") {
        IngestError::RequestTimeout(t) => assert_eq!(
            t,
            "no pong received within 10000ms (keepalive=5000ms) for exchange=okx \
             instrument=BTC-USDT"
        ),
        e => panic!("unexpected error: {e:?}"),
    }
    s.step(Event::Done, 10 * SECOND + 2);
    assert_eq!(s.action(), Action::Recover);
}

#[test]
fn silence_that_is_not_watched_changes_nothing() {
    let mut s = opened(None, None, 7);
    assert_eq!(s.silence_due, 7 + 31_536_000 * SECOND as u128);
    s.step(Event::SilenceDue, 9);
    assert_eq!(s.action(), Action::Read);
}

#[test]
fn a_gone_receiver_ends_it() {
    let mut s = opened(None, None, 0);
    s.step(Event::ReceiverGone, 1);
    assert_eq!(s.action(), Action::Stop);
    let mut s = opened(None, None, 0);
    s.step(text(false, false, Delivery::Refused), 1);
    assert_eq!(s.action(), Action::Stop);
    let mut s = opened(None, None, 0);
    s.step(Event::Closed, 1);
    s.step(Event::ReceiverGone, 2);
    assert_eq!(s.action(), Action::Stop);
}

#[test]
fn invalid_configurations_do_not_start() {
    let mut c = config(None, None);
    c.instrument = " ".to_string();
    match Session::start(&c, false, 5000) {
        Err(IngestError::Config(m)) => assert_eq!(m, "instrument is required"),
        other => panic!("unexpected: {other:?}"),
    }
}

#[test]
fn every_connection_is_confirmed_anew() {
    let mut s = session(None, None, true);
    for event in [Event::Done, Event::Done, text(false, true, Delivery::NoItem), Event::Done] {
        s.step(event, 0);
    }
    assert_eq!(s.action(), Action::Read);
    // The connection is lost, the next one prepared, and the delay is over.
    for event in [Event::Closed, Event::Done, Event::Done, Event::Done, Event::Done] {
        s.step(event, 0);
    }
    assert_eq!(s.action(), Action::AwaitAuth);
    s.step(text(true, false, Delivery::Taken), 0);
    s.step(Event::Done, 0);
    assert_eq!(s.action(), Action::AwaitAuth);
    s.step(text(false, true, Delivery::NoItem), 0);
    assert_eq!(s.action(), Action::Subscribe);
}

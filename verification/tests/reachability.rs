//! Reachability of the unit.

use appear_x_gateway::appear_x::reachability::{
    classify_description, classify_jsonrpc_error, detect_hostname, ReachabilityState,
    TransitionOutcome,
};

#[test]
fn no_event_below_threshold() {
    let mut r = ReachabilityState::new(2, 0);
    assert_eq!(r.record_failure("http_timeout"), TransitionOutcome::NoChange);
    assert!(r.is_reachable());
    assert_eq!(r.consecutive_failures(), 1);
}

#[test]
fn fires_unreachable_after_threshold_with_zero_dwell() {
    let mut r = ReachabilityState::new(2, 0);
    assert_eq!(r.record_failure("http_timeout"), TransitionOutcome::NoChange);
    match r.record_failure("http_timeout") {
        TransitionOutcome::BecameUnreachable { consecutive_failures, last_error_code } => {
            assert_eq!(consecutive_failures, 2);
            assert_eq!(last_error_code.as_deref(), Some("http_timeout"));
        }
        other => panic!("expected BecameUnreachable, got {other:?}"),
    }
    assert!(!r.is_reachable());
}

#[test]
fn single_fire_per_flip() {
    let mut r = ReachabilityState::new(1, 0);
    assert!(matches!(
        r.record_failure("tcp_refused"),
        TransitionOutcome::BecameUnreachable { .. }
    ));
    // Subsequent failures while still unreachable do not re-fire.
    assert_eq!(r.record_failure("tcp_refused"), TransitionOutcome::NoChange);
    assert_eq!(r.record_failure("tcp_refused"), TransitionOutcome::NoChange);
}

#[test]
fn fires_recovered_on_first_success_after_unreachable() {
    let mut r = ReachabilityState::new(1, 0);
    let _ = r.record_failure("http_timeout");
    match r.record_success() {
        TransitionOutcome::Recovered { .. } => {}
        other => panic!("expected Recovered, got {other:?}"),
    }
    // Subsequent successes do not re-fire.
    assert_eq!(r.record_success(), TransitionOutcome::NoChange);
}

#[test]
fn dwell_suppresses_unreachable_until_satisfied() {
    // 1-second dwell: even with threshold=1, the first failure should
    // NOT fire because zero seconds have elapsed since the flip.
    let mut r = ReachabilityState::new(1, 1);
    assert_eq!(r.record_failure("other"), TransitionOutcome::NoChange);
    assert!(!r.is_reachable());
}

#[test]
fn classify_codes_cover_common_cases() {
    assert_eq!(classify_jsonrpc_error(&anyhow::Error::msg("operation timed out")), "http_timeout");
    assert_eq!(classify_jsonrpc_error(&anyhow::Error::msg("connection refused")), "tcp_refused");
    assert_eq!(classify_jsonrpc_error(&anyhow::Error::msg("tls handshake failed: bad certificate")), "tls_handshake");
    assert_eq!(classify_jsonrpc_error(&anyhow::Error::msg("HTTP 401 Unauthorized")), "auth_rejected");
    assert_eq!(classify_jsonrpc_error(&anyhow::Error::msg("invalid JSON-RPC response")), "rpc_protocol_error");
    assert_eq!(classify_jsonrpc_error(&anyhow::Error::msg("something weird")), "other");
}

#[test]
fn causes_of_an_error_are_classified_too() {
    let err = anyhow::Error::msg("Connection REFUSED by peer").context("RPC call to x failed");
    assert_eq!(classify_jsonrpc_error(&err), "tcp_refused");
}

#[test]
fn descriptions_are_classified_by_the_first_word_that_fits() {
    assert_eq!(classify_description("TIMEOUT during TLS handshake"), "http_timeout");
    assert_eq!(classify_description("Login failed"), "auth_rejected");
    assert_eq!(classify_description("HTTP 403"), "auth_rejected");
    assert_eq!(classify_description("could not parse"), "rpc_protocol_error");
    assert_eq!(classify_description(""), "other");
}

#[test]
fn dwell_is_counted_from_the_flip() {
    let mut r = ReachabilityState::new(1, 30);
    assert_eq!(r.record_failure_at("other", 1000, 1000), TransitionOutcome::NoChange);
    assert_eq!(r.record_failure_at("other", 1029, 1029), TransitionOutcome::NoChange);
    assert_eq!(
        r.record_failure_at("tls_handshake", 1030, 1030),
        TransitionOutcome::BecameUnreachable {
            consecutive_failures: 3,
            last_error_code: Some("tls_handshake".to_string()),
        }
    );
    assert_eq!(r.record_failure_at("other", 1040, 1040), TransitionOutcome::NoChange);
    assert_eq!(
        r.record_success_at(1100),
        TransitionOutcome::Recovered { downtime_secs: 100 }
    );
    assert_eq!(r.last_success_unix(), Some(1100));
    assert_eq!(r.last_error_code(), None);
    assert_eq!(r.consecutive_failures(), 0);
    assert!(r.is_reachable());
}

#[test]
fn what_was_never_told_does_not_recover() {
    let mut r = ReachabilityState::new(1, 3600);
    assert_eq!(r.record_failure("other"), TransitionOutcome::NoChange);
    assert_eq!(r.record_success(), TransitionOutcome::NoChange);
    assert!(r.is_reachable());
    assert_eq!(r.consecutive_failures(), 0);
    // A second short of the dwell time, and exactly at its end.
    let mut r = ReachabilityState::new(1, 30);
    assert_eq!(r.record_failure_at("other", 1000, 1000), TransitionOutcome::NoChange);
    assert_eq!(r.record_success_at(1029), TransitionOutcome::NoChange);
    assert_eq!(r.record_failure_at("other", 2000, 2000), TransitionOutcome::NoChange);
    assert_eq!(
        r.record_success_at(2030),
        TransitionOutcome::Recovered { downtime_secs: 30 }
    );
    assert_eq!(r.record_success_at(2031), TransitionOutcome::NoChange);
}

#[derive(Debug)]
struct Mute;

impl std::fmt::Display for Mute {
    fn fmt(&self, _: &mut std::fmt::Formatter<'_>) -> std::fmt::Result {
        Err(std::fmt::Error)
    }
}

impl std::error::Error for Mute {}

#[test]
fn an_error_that_cannot_be_written_is_classified_all_the_same() {
    assert_eq!(classify_jsonrpc_error(&anyhow::Error::new(Mute)), "other");
}

#[test]
fn a_threshold_of_zero_is_one() {
    let mut r = ReachabilityState::new(0, 0);
    assert!(r.is_reachable());
    assert_eq!(r.last_success_unix(), None);
    let _ = r.record_failure_at("other", 5, 5);
    assert!(!r.is_reachable());
    assert_eq!(r.last_error_code(), Some("other".to_string()));
}

#[test]
fn a_dwell_beyond_the_clock_is_over_at_once() {
    let mut r = ReachabilityState::new(1, u64::MAX);
    assert!(matches!(
        r.record_failure_at("other", 7, 7),
        TransitionOutcome::BecameUnreachable { .. }
    ));
}

#[test]
fn recovering_fires_once() {
    let mut r = ReachabilityState::new(1, 0);
    // Nothing is to be fired before the unit was unreachable.
    assert_eq!(r.maybe_fire_recovered(3), TransitionOutcome::NoChange);
}

#[test]
fn the_first_name_that_is_not_blank_is_the_host_name() {
    let some = |s: &str| Some(s.to_string());
    assert_eq!(detect_hostname(some("gw1\n"), some("other"), some("third")), some("gw1"));
    assert_eq!(detect_hostname(some(" \n"), some(" gw2\t"), some("third")), some("gw2"));
    assert_eq!(detect_hostname(None, None, some("gw3")), some("gw3"));
    assert_eq!(detect_hostname(None, some(""), some("\u{a0}")), None);
}

//! The limit on events.

use appear_x_gateway::clock::Moment;
use appear_x_gateway::event::{EventSeverity, GatewayEvent, Part};
use appear_x_gateway::event_gate::{
    emit_gated_event, EventGate, GateDecision, SELF_GATE_LIMIT_PER_MINUTE,
};

fn text_of(e: &GatewayEvent) -> String {
    e.message
        .iter()
        .map(|p| match p {
            Part::Text(s) => s.clone(),
            Part::Fixed { .. } => panic!("no measurements here"),
        })
        .collect()
}

#[test]
fn first_event_passes_without_summary() {
    let mut gate = EventGate::new();
    assert!(matches!(gate.check(), GateDecision::Send));
}

#[test]
fn over_cap_suppresses_with_single_summary() {
    let mut gate = EventGate::new();
    for _ in 0..SELF_GATE_LIMIT_PER_MINUTE {
        assert!(matches!(gate.check(), GateDecision::Send));
    }
    // First over-cap event yields a summary.
    match gate.check() {
        GateDecision::Suppress { summary: Some(_) } => {}
        other => panic!("expected Suppress with summary; got {other:?}"),
    }
    // Subsequent over-cap events suppress silently.
    match gate.check() {
        GateDecision::Suppress { summary: None } => {}
        other => panic!("expected silent Suppress; got {other:?}"),
    }
}

#[test]
fn the_limit_stays_below_that_of_the_manager() {
    assert_eq!(SELF_GATE_LIMIT_PER_MINUTE, 950);
}

fn at(secs: i64, nanos: u32) -> Moment {
    Moment { secs, nanos }
}

#[test]
fn the_first_event_after_drops_is_preceded_by_a_summary() {
    let mut gate = EventGate::new();
    for _ in 0..SELF_GATE_LIMIT_PER_MINUTE + 7 {
        gate.check_at(at(1_000, 500));
    }
    // A nanosecond before the end of the window.
    assert!(matches!(gate.check_at(at(1_060, 499)), GateDecision::Suppress { summary: None }));
    match gate.check_at(at(1_060, 500)) {
        GateDecision::SendWithRollover { summary } => {
            assert_eq!(summary.severity, EventSeverity::Minor);
            assert_eq!(summary.category, "event_rate_limit_selfgate");
            assert_eq!(
                text_of(&summary),
                "Gateway self-rate-limiter engaged: 8 event(s) suppressed (accepted 950 in the \
                 current 60s window). Raise the polling cadence only if the manager can absorb more."
            );
            let details = summary.details.unwrap();
            assert_eq!(details.get("suppressed").unwrap().as_u64(), Some(8));
            assert_eq!(details.get("accepted").unwrap().as_u64(), Some(950));
            assert_eq!(details.get("limit_per_minute").unwrap().as_u64(), Some(950));
            assert_eq!(details.get("manager_limit_per_minute").unwrap().as_u64(), Some(1000));
        }
        other => panic!("expected a rollover; got {other:?}"),
    }
    assert!(matches!(gate.check_at(at(1_061, 0)), GateDecision::Send));
}

#[test]
fn the_window_slides() {
    let mut gate = EventGate::new();
    assert!(matches!(gate.check_at(at(0, 0)), GateDecision::Send));
    for _ in 1..SELF_GATE_LIMIT_PER_MINUTE {
        assert!(matches!(gate.check_at(at(59, 0)), GateDecision::Send));
    }
    // The event at the start leaves the window and makes room for one.
    assert!(matches!(gate.check_at(at(60, 0)), GateDecision::Send));
    assert!(matches!(gate.check_at(at(60, 0)), GateDecision::Suppress { summary: Some(_) }));
    for secs in 61..119 {
        assert!(matches!(gate.check_at(at(secs, 0)), GateDecision::Suppress { summary: None }));
    }
    match gate.check_at(at(119, 0)) {
        GateDecision::SendWithRollover { summary } => {
            assert_eq!(summary.details.unwrap().get("suppressed").unwrap().as_u64(), Some(59));
        }
        other => panic!("expected a rollover; got {other:?}"),
    }
}

#[test]
fn a_steady_flood_stays_below_the_limits() {
    // Twenty-five events a second for five minutes.
    let mut gate = EventGate::new();
    let mut passed: Vec<i64> = Vec::new();
    let mut sent: Vec<i64> = Vec::new();
    let mut dropped: u64 = 0;
    let mut told: u64 = 0;
    for secs in 0..300 {
        for part in 0..25 {
            match gate.check_at(at(secs, part * 40_000_000)) {
                GateDecision::Send => {
                    passed.push(secs);
                    sent.push(secs);
                }
                GateDecision::SendWithRollover { summary } => {
                    passed.push(secs);
                    sent.push(secs);
                    sent.push(secs);
                    told += summary.details.unwrap().get("suppressed").unwrap().as_u64().unwrap();
                }
                GateDecision::Suppress { summary } => {
                    dropped += 1;
                    if summary.is_some() {
                        sent.push(secs);
                    }
                }
            }
        }
    }
    for start in 0..300 {
        let within = |v: &Vec<i64>| v.iter().filter(|s| start <= **s && **s < start + 60).count();
        assert!(within(&passed) <= 950);
        assert!(within(&sent) < 1000);
    }
    // Everything dropped was told of but for what the next summary will tell.
    assert!(told > 0 && told <= dropped);
    match gate.check_at(at(1_000, 0)) {
        GateDecision::SendWithRollover { summary } => {
            told += summary.details.unwrap().get("suppressed").unwrap().as_u64().unwrap();
        }
        other => panic!("expected a rollover; got {other:?}"),
    }
    assert_eq!(told, dropped);
}

#[test]
fn every_run_of_drops_is_announced_while_summaries_are_few() {
    let count = |s: &GatewayEvent| s.details.as_ref().unwrap().get("suppressed").unwrap().as_u64();
    let mut gate = EventGate::new();
    for secs in 0..30 {
        assert!(matches!(gate.check_at(at(secs, 0)), GateDecision::Send));
    }
    for _ in 30..SELF_GATE_LIMIT_PER_MINUTE {
        assert!(matches!(gate.check_at(at(30, 0)), GateDecision::Send));
    }
    assert!(matches!(gate.check_at(at(30, 0)), GateDecision::Suppress { summary: Some(_) }));
    // Each second makes room for one event and drops another one.
    for secs in 60..84 {
        match gate.check_at(at(secs, 0)) {
            GateDecision::SendWithRollover { summary } => assert_eq!(count(&summary), Some(1)),
            other => panic!("expected a rollover; got {other:?}"),
        }
        match gate.check_at(at(secs, 0)) {
            GateDecision::Suppress { summary: Some(s) } => assert_eq!(count(&s), Some(1)),
            other => panic!("expected Suppress with summary; got {other:?}"),
        }
    }
    // Forty-nine summaries were sent by now. The next one waits.
    for secs in 84..90 {
        assert!(matches!(gate.check_at(at(secs, 0)), GateDecision::Send));
        assert!(matches!(gate.check_at(at(secs, 0)), GateDecision::Suppress { summary: None }));
    }
    // The summary at the thirtieth second leaves the window.
    match gate.check_at(at(90, 0)) {
        GateDecision::SendWithRollover { summary } => assert_eq!(count(&summary), Some(7)),
        other => panic!("expected a rollover; got {other:?}"),
    }
}

#[test]
fn without_drops_there_is_no_summary() {
    let mut gate = EventGate::new();
    assert!(matches!(gate.check_at(at(1, 0)), GateDecision::Send));
    assert!(matches!(gate.check_at(at(61, 0)), GateDecision::Send));
}

#[test]
fn a_clock_that_goes_back_does_not_empty_the_window() {
    let mut gate = EventGate::new();
    for _ in 0..SELF_GATE_LIMIT_PER_MINUTE {
        gate.check_at(at(5_000, 0));
    }
    assert!(matches!(gate.check_at(at(1, 0)), GateDecision::Suppress { summary: Some(_) }));
}

#[test]
fn summaries_go_first() {
    let event = |m: &str| GatewayEvent::info("x", m.to_string());
    let sent = emit_gated_event(GateDecision::Send, event("a"));
    assert_eq!(sent.iter().map(text_of).collect::<Vec<_>>(), vec!["a"]);
    let sent = emit_gated_event(GateDecision::SendWithRollover { summary: event("s") }, event("a"));
    assert_eq!(sent.iter().map(text_of).collect::<Vec<_>>(), vec!["s", "a"]);
    let sent = emit_gated_event(GateDecision::Suppress { summary: Some(event("s")) }, event("a"));
    assert_eq!(sent.iter().map(text_of).collect::<Vec<_>>(), vec!["s"]);
    assert!(emit_gated_event(GateDecision::Suppress { summary: None }, event("a")).is_empty());
}

#[test]
fn the_default_gate_is_open() {
    let mut gate = EventGate::default();
    assert!(matches!(gate.check(), GateDecision::Send));
}

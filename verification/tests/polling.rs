//! Polls, the state that they keep and the events that they give rise to.

use std::collections::BTreeMap;

use appear_x_gateway::appear_x::capabilities::{
    DeviceCapabilities, DiscoveredInterfaceRecord, SlotCapabilities,
};
use appear_x_gateway::appear_x::jsonrpc::Endpoint;
use appear_x_gateway::appear_x::polling::{
    alarms_answered, alarms_failed, alarms_polled, apply_cards, apply_chassis, apply_poll,
    card_status_polled, derive_card_status_events, derive_status, gateway_capabilities,
    health_with_target, make_alarm_event, make_poll_rows, run_polling, GatewayIdentity, Sink, Subject,
    STATS_EMIT_INTERVAL_SECS,
};
use appear_x_gateway::appear_x::reachability::ReachabilityState;
use appear_x_gateway::appear_x::startup::{DiscoveryPhase, HEARTBEAT_SECS, RETRY_SECS};
use appear_x_gateway::appear_x::state::SharedAppearXState;
use appear_x_gateway::config::PollingConfig;
use appear_x_gateway::event::{EventSeverity, GatewayEvent, Part};
use appear_x_gateway::double::Double;
use appear_x_gateway::json::{Exact, Json, Number, Object, Reading};
use serde_json::Value;

fn to_json(v: &Value) -> Json {
    match v {
        Value::Null => Json::Null,
        Value::Bool(b) => Json::Bool(*b),
        Value::Number(n) => {
            let f = n.as_f64().unwrap();
            let exact = if let Some(u) = n.as_u64() {
                Exact::Unsigned(u)
            } else if let Some(i) = n.as_i64() {
                Exact::Negative(i)
            } else {
                Exact::Float(Double { bits: f.to_bits() })
            };
            let reading = Some(Reading {
                value: Double { bits: f.to_bits() },
                dbm: Double { bits: (10.0 * f.log10()).to_bits() },
            });
            Json::Number(Number { exact, reading })
        }
        Value::String(s) => Json::Text(s.clone()),
        Value::Array(a) => Json::Array(a.iter().map(to_json).collect()),
        Value::Object(m) => {
            let mut o = Object::new();
            for (k, v) in m {
                o.set(k, to_json(v));
            }
            Json::Object(o)
        }
    }
}

fn to_value(j: &Json) -> Value {
    match j {
        Json::Null => Value::Null,
        Json::Bool(b) => Value::from(*b),
        Json::Number(n) => match n.exact {
            Exact::Unsigned(u) => Value::from(u),
            Exact::Negative(i) => Value::from(i),
            Exact::Float(d) => Value::from(f64::from_bits(d.bits)),
        },
        Json::Text(s) => Value::from(s.clone()),
        Json::Array(a) => Value::Array(a.iter().map(to_value).collect()),
        Json::Object(o) => {
            let mut m = serde_json::Map::new();
            for member in &o.members {
                m.insert(member.key.clone(), to_value(&member.value));
            }
            Value::Object(m)
        }
    }
}

fn value(text: &str) -> Value {
    serde_json::from_str(text).unwrap()
}

fn json(text: &str) -> Json {
    to_json(&value(text))
}

fn double(f: f64) -> Double {
    Double { bits: f.to_bits() }
}

fn config() -> PollingConfig {
    PollingConfig {
        alarms_interval_secs: 10,
        chassis_interval_secs: 31,
        inputs_interval_secs: 15,
        outputs_interval_secs: 16,
        alarms_mmi_version: "2.8".to_string(),
        chassis_mmi_version: "4.1".to_string(),
        cards_mmi_version: "2.16".to_string(),
        cards_interval_secs: 32,
        card_status_interval_secs: 5,
        xger_config_interval_secs: 33,
        sfp_low_rx_dbm_threshold: double(-18.0),
        sfp_high_temp_c_threshold: double(70.0),
    }
}

fn slot(number: u32, modules: &[(&str, &str, &str)]) -> SlotCapabilities {
    let mut s = SlotCapabilities {
        slot: number,
        name: "X5".to_string(),
        serial: "123".to_string(),
        software_id: Some("net.appear".to_string()),
        software_display_name: None,
        software_version: None,
        features: vec!["srt".to_string()],
        discovered_modules: vec![],
    };
    for (interface, module, version) in modules {
        s.record(DiscoveredInterfaceRecord {
            family: "f".to_string(),
            interface: interface.to_string(),
            module: module.to_string(),
            version: version.to_string(),
            probe_method: "p".to_string(),
        });
    }
    s
}

fn caps(slots: Vec<SlotCapabilities>) -> DeviceCapabilities {
    let mut map = BTreeMap::new();
    for s in slots {
        map.insert(s.slot, s);
    }
    DeviceCapabilities {
        chassis_type: "X20_2RU".to_string(),
        cards_mmi_version: "2.8".to_string(),
        slots: map,
    }
}

fn state() -> SharedAppearXState {
    SharedAppearXState::new(caps(vec![slot(1, &[("Xger", "cardStatus", "2.55")])]), "0.4.0", "unit".to_string())
}

fn identity() -> GatewayIdentity {
    GatewayIdentity {
        target_address: "unit".to_string(),
        gateway_host: Some("gw".to_string()),
        failure_threshold: 2,
        event_dwell_secs: 0,
        capabilities: gateway_capabilities(),
    }
}

/// The message of an event as it is sent.
fn words(e: &GatewayEvent) -> String {
    e.message
        .iter()
        .map(|p| match p {
            Part::Text(s) => s.clone(),
            Part::Fixed { value, decimals } => {
                format!("{:.*}", *decimals as usize, f64::from_bits(value.bits))
            }
        })
        .collect()
}

fn details(e: &GatewayEvent) -> Value {
    to_value(e.details.as_ref().unwrap())
}

#[test]
fn only_modules_that_answered_are_polled() {
    let tasks = run_polling(
        &config(),
        &caps(vec![
            slot(2, &[
                ("ipGateway", "ipinterface", "1.15"),
                ("Xger", "cardStatus", "2.55"),
                ("Xger", "unknownModule", "1.0"),
                ("Xger", "lockStatus", "2.54"),
            ]),
            slot(1, &[]),
            slot(31, &[("board", "services", "2.16")]),
        ]),
    );
    let told: Vec<(String, u64, Vec<String>)> = tasks
        .iter()
        .map(|t| {
            (t.name.clone(), t.interval_secs, t.requests.iter().map(|q| q.method.clone()).collect())
        })
        .collect();
    let s = |x: &str| x.to_string();
    assert_eq!(
        told,
        vec![
            (s("alarms"), 10, vec![s("mmi:2.8/alarms/GetActiveAlarms")]),
            (s("chassis"), 31, vec![s("mmi:4.1/chassisModel/GetGraph")]),
            (s("cards"), 32, vec![s("mmi:2.16/cards/GetChassisInfo"), s("mmi:2.16/cards/GetCardStates")]),
            (s("ipgw-ifaces-slot2"), 30, vec![s("ipGateway:1.15/ipinterface/GetIpInterfaces")]),
            (s("xger-cardstatus-slot2"), 5, vec![s("Xger:2.55/cardStatus/GetCardStatus")]),
            (s("xger-lockStatus-slot2"), 5, vec![s("Xger:2.54/lockStatus/GetLockStatus")]),
            (s("board-output-services-slot31"), 33, vec![s("board:2.16/services/GetOutputServices")]),
        ]
    );
    assert_eq!(to_value(&tasks[0].requests[0].params), value(r#"{"query": {}}"#));
    assert_eq!(to_value(&tasks[4].requests[0].params), value(r#"{"slot": 2}"#));
    assert_eq!(tasks[6].requests[0].endpoint, Endpoint::Board(31));
    assert_eq!(tasks[4].subject, Subject::Card { slot: 2, sink: Sink::CardStatus });
    assert_eq!(STATS_EMIT_INTERVAL_SECS, 5);
}

#[test]
fn results_are_kept_where_they_belong() {
    let mut s = state();
    apply_poll(&mut s, Sink::Inputs, 2, json(r#"{"data": [{"a": 1}, 7, {"slot": 9}]}"#));
    apply_poll(&mut s, Sink::Inputs, 1, json(r#"{"data": [{"b": 1}]}"#));
    apply_poll(&mut s, Sink::Outputs, 1, json(r#"{"no": "data"}"#));
    apply_poll(&mut s, Sink::PoolConfig, 3, json(r#"{"data": [1]}"#));
    apply_chassis(&mut s, json(r#"{"graph": 1}"#));
    apply_cards(&mut s, &json(r#"{"data": {"x": 1}}"#), &json(r#"{"cards": [{"slot": 1}]}"#));
    let shot = to_value(&s.snapshot_at(17));
    assert_eq!(shot["inputs"], value(r#"[{"b": 1, "slot": 1}, {"a": 1, "slot": 2}, 7, {"slot": 2}]"#));
    assert_eq!(shot["outputs"], value("[]"));
    assert_eq!(shot["pool_config"], value(r#"{"3": {"data": [1]}}"#));
    assert_eq!(shot["chassis"], value(r#"{"graph": 1}"#));
    assert_eq!(shot["chassis_info"], value(r#"{"x": 1}"#));
    assert_eq!(shot["card_states"], value(r#"[{"slot": 1}]"#));
    assert_eq!(shot["uptime_secs"], value("17"));
    assert_eq!(shot["version"], value(r#""0.4.0""#));
    assert_eq!(shot["appear_x_address"], value(r#""unit""#));
    assert_eq!(shot["lock_status"], value("{}"));
    assert_eq!(
        shot["slots"],
        value(
            r#"[{"slot": 1, "name": "X5", "serial": "123", "software_id": "net.appear",
                "software_display_name": null, "software_version": null, "features": ["srt"],
                "discovered_modules": [{"family": "f", "interface": "Xger", "module": "cardStatus", "version": "2.55"}]}]"#
        )
    );
    let keys: Vec<String> = shot.as_object().unwrap().keys().cloned().collect();
    assert_eq!(keys.len(), 32);
}

#[test]
fn the_clock_of_the_state_starts_with_it() {
    let s = state();
    let uptime = s.snapshot().get("uptime_secs").unwrap().as_u64().unwrap();
    assert!(uptime < 3600);
    assert_eq!(s.discovered_version(1, "Xger", "cardStatus").as_deref(), Some("2.55"));
    assert_eq!(s.discovered_version(2, "Xger", "cardStatus"), None);
    assert_eq!(s.any_interface_version(1, "Xger").as_deref(), Some("2.55"));
    assert_eq!(s.any_interface_version(1, "board"), None);
}

#[test]
fn each_sink_has_its_place() {
    let raw = [
        (Sink::CardStatus, "card_status"),
        (Sink::RedundancyGroupStatus, "redundancy_group_status"),
        (Sink::HipEncoders, "hip_encoders"),
        (Sink::HipDecoders, "hip_decoders"),
        (Sink::DpiStatus, "dpi_status"),
        (Sink::EsamStatus, "esam_status"),
        (Sink::PoisServerStatus, "pois_server_status"),
        (Sink::PoolConfig, "pool_config"),
        (Sink::LockStatus, "lock_status"),
        (Sink::PsiStatus, "psi_status"),
    ];
    for (sink, name) in raw {
        let mut s = state();
        apply_poll(&mut s, sink, 4, json(r#"{"v": 1}"#));
        assert_eq!(to_value(&s.snapshot_at(0))[name], value(r#"{"4": {"v": 1}}"#));
    }
    let lists = [
        (Sink::IpInterfaces, "ip_interfaces"),
        (Sink::CoderServices, "coder_services"),
        (Sink::MultiServices, "multi_services"),
        (Sink::AudioProfiles, "audio_profiles"),
        (Sink::XgerIpInterfaces, "xger_ip_interfaces"),
        (Sink::CardAllocations, "card_allocations"),
        (Sink::IpConnections, "ip_connections"),
        (Sink::RedundancyGroups, "redundancy_groups"),
        (Sink::OutputServices, "output_services"),
    ];
    for (sink, name) in lists {
        let mut s = state();
        apply_poll(&mut s, sink, 4, json(r#"{"data": [{"v": 1}]}"#));
        assert_eq!(to_value(&s.snapshot_at(0))[name], value(r#"[{"v": 1, "slot": 4}]"#));
    }
}

#[test]
fn output_services_are_taken_out_of_their_envelope() {
    for items in [r#"{"data": [{"label": "x"}]}"#, r#"[{"label": "x"}]"#] {
        let mut s = state();
        s.set_output_services(1, json(items));
        assert_eq!(
            to_value(&s.snapshot_at(0))["output_services"],
            value(r#"[{"label": "x", "slot": 1}]"#)
        );
    }
    let mut s = state();
    s.set_output_services(1, json(r#"{"data": "odd"}"#));
    assert_eq!(to_value(&s.snapshot_at(0))["output_services"], value("[]"));
}

#[test]
fn lists_are_in_slot_order() {
    let mut s = state();
    apply_poll(&mut s, Sink::IpInterfaces, 7, json(r#"{"data": [{"v": 3}]}"#));
    apply_poll(&mut s, Sink::IpInterfaces, 2, json(r#"{"data": [{"v": 1}, {"v": 2}]}"#));
    assert_eq!(
        to_value(&s.snapshot_at(0))["ip_interfaces"],
        value(r#"[{"v": 1, "slot": 2}, {"v": 2, "slot": 2}, {"v": 3, "slot": 7}]"#)
    );
}

fn status(ptp: &str, rx: &str, temp: &str) -> Json {
    json(&format!(
        r#"{{"ptpLock": {{"state": "{ptp}"}}, "sfpStatus": {{"value": [
            {{"value": {{"diagnostics": {{"value": {{"rxPwr": [{rx}], "temp": {temp}}}}}}}}}
        ]}}}}"#
    ))
}

fn events_of(prev: Option<&Json>, curr: &Json) -> Vec<GatewayEvent> {
    derive_card_status_events(3, prev, curr, double(-18.0), double(70.0))
}

#[test]
fn a_clock_that_loses_its_lock_is_told_once() {
    let locked = status("LOCKED", "1.0", "40.0");
    let lost = status("ACQUIRING", "1.0", "40.0");
    assert!(events_of(None, &lost).is_empty());
    assert!(events_of(None, &locked).is_empty());
    assert!(events_of(Some(&lost), &lost).is_empty());
    let e = events_of(Some(&locked), &lost);
    assert_eq!(e.len(), 1);
    assert_eq!(e[0].severity, EventSeverity::Critical);
    assert_eq!(e[0].category, "ptp");
    assert_eq!(words(&e[0]), "PTP lock lost on slot 3 (state=ACQUIRING)");
    assert_eq!(details(&e[0]), value(r#"{"slot": 3, "state": "ACQUIRING", "error_code": "ptp_lost"}"#));
    let e = events_of(Some(&locked), &json("{}"));
    assert_eq!(words(&e[0]), "PTP lock lost on slot 3 (state=unknown)");
    assert_eq!(details(&e[0]), value(r#"{"slot": 3, "state": null, "error_code": "ptp_lost"}"#));
    let e = events_of(Some(&lost), &locked);
    assert_eq!(e.len(), 1);
    assert_eq!(e[0].severity, EventSeverity::Info);
    assert_eq!(words(&e[0]), "PTP locked on slot 3");
    assert_eq!(details(&e[0]), value(r#"{"slot": 3, "state": "LOCKED", "error_code": "ptp_locked"}"#));
}

#[test]
fn low_light_is_told_on_the_edge() {
    let good = status("LOCKED", "1.0", "40.0");
    let dim = status("LOCKED", "0.01", "40.0");
    // -20 dBm, also at the first poll.
    for prev in [None, Some(&good)] {
        let e = events_of(prev, &dim);
        assert_eq!(e.len(), 1);
        assert_eq!(e[0].severity, EventSeverity::Minor);
        assert_eq!(
            words(&e[0]),
            "SFP RX optical power on slot 3 is below -18.0 dBm (current min -20.0 dBm)"
        );
        assert_eq!(
            details(&e[0]),
            value(
                r#"{"slot": 3, "rx_power_dbm_min": -20.0, "threshold_dbm": -18.0,
                    "error_code": "sfp_low_rx_power"}"#
            )
        );
    }
    assert!(events_of(Some(&dim), &dim).is_empty());
    let e = events_of(Some(&dim), &good);
    assert_eq!(
        words(&e[0]),
        "SFP RX optical power recovered on slot 3 (current min 0.0 dBm)"
    );
    assert_eq!(details(&e[0]), value(r#"{"slot": 3, "rx_power_dbm_min": 0.0}"#));
    // A port that goes dark says nothing.
    assert!(events_of(Some(&dim), &status("LOCKED", "0.0", "40.0")).is_empty());
}

#[test]
fn heat_is_told_on_the_edge() {
    let cool = status("LOCKED", "1.0", "70.0");
    let warm = status("LOCKED", "1.0", "70.5");
    let e = events_of(Some(&cool), &warm);
    assert_eq!(e.len(), 1);
    assert_eq!(
        words(&e[0]),
        "SFP cage temperature on slot 3 exceeded 70 °C (current max 70.5 °C)"
    );
    assert_eq!(
        details(&e[0]),
        value(
            r#"{"slot": 3, "temp_c_max": 70.5, "threshold_c": 70.0,
                "error_code": "sfp_high_temperature"}"#
        )
    );
    assert!(events_of(Some(&warm), &warm).is_empty());
    let e = events_of(Some(&warm), &cool);
    assert_eq!(words(&e[0]), "SFP cage temperature recovered on slot 3 (current max 70.0 °C)");
    assert_eq!(details(&e[0]), value(r#"{"slot": 3, "temp_c_max": 70.0}"#));
}

#[test]
fn the_state_of_a_card_is_compared_with_the_one_before() {
    let mut s = state();
    let poll = |s: &mut SharedAppearXState, j: Json| {
        card_status_polled(s, 1, j, double(-18.0), double(70.0)).len()
    };
    assert_eq!(poll(&mut s, status("LOCKED", "1.0", "40.0")), 0);
    assert_eq!(poll(&mut s, status("UNLOCKED", "0.001", "99.0")), 3);
    assert_eq!(poll(&mut s, status("UNLOCKED", "0.001", "99.0")), 0);
    assert_eq!(poll(&mut s, status("LOCKED", "1.0", "40.0")), 3);
}

#[test]
fn alarms_decide_on_the_health() {
    let of = |text: &str| derive_status(&json(text).into_items());
    assert_eq!(of("[]"), "ok");
    assert_eq!(of(r#"[{"severity": "NOTIFICATION"}, {}]"#), "ok");
    assert_eq!(of(r#"[{"severity": "WARNING"}]"#), "degraded");
    assert_eq!(of(r#"[{"severity": "MINOR"}, {"severity": "MAJOR"}]"#), "critical");
    assert_eq!(of(r#"[{"severity": "CRITICAL"}]"#), "critical");
    assert_eq!(of(r#"[{"severity": "critical"}]"#), "ok");
}

#[test]
fn alarms_are_told_with_what_is_known_of_them() {
    let e = make_alarm_event(&json(
        r#"{"severity": "MAJOR", "alarmId": "a1", "alarmName": "Loss", "alarmDescription": "no input",
            "configObjectSlot": 4, "configObjectLabel": "in 1", "configObjectType": "Input",
            "configObjectId": "u1"}"#,
    ));
    assert_eq!(e.severity, EventSeverity::Critical);
    assert_eq!(e.category, "alarm");
    assert_eq!(words(&e), "Alarm raised: Loss — no input");
    assert_eq!(
        details(&e),
        value(
            r#"{"alarm_id": "a1", "severity": "MAJOR", "slot": 4, "object_label": "in 1",
                "object_type": "Input", "object_id": "u1"}"#
        )
    );
    let e = make_alarm_event(&json(r#"{"alarmDescription": "d"}"#));
    assert_eq!(e.severity, EventSeverity::Info);
    assert_eq!(words(&e), "Alarm raised: d");
    assert_eq!(details(&e), value(r#"{"alarm_id": "unknown", "severity": "UNKNOWN"}"#));
    assert_eq!(make_alarm_event(&json(r#"{"severity": "WARNING"}"#)).severity, EventSeverity::Minor);
}

#[test]
fn alarms_are_told_when_they_come_and_go() {
    let mut s = state();
    let mut reach = ReachabilityState::new(2, 0);
    let id = identity();
    let poll = |s: &mut SharedAppearXState, reach: &mut ReachabilityState, text: &str| {
        let r = alarms_answered(s, reach, &id, "0.4.0", Some("10.0.0.9".to_string()), &json(text), 100);
        let told: Vec<String> = r.events.iter().map(words).collect();
        (told, to_value(&health_with_target(r.health, &r.target)))
    };
    let two = r#"{"data": [{"alarmId": "a", "alarmName": "A", "severity": "MINOR"}, {"alarmId": "b"}]}"#;
    let (told, health) = poll(&mut s, &mut reach, two);
    assert_eq!(told, vec!["Alarm raised: A — ", "Alarm raised: "]);
    assert_eq!(
        health,
        value(
            r#"{"status": "degraded",
                "alarms": [{"alarmId": "a", "alarmName": "A", "severity": "MINOR"}, {"alarmId": "b"}],
                "version": "0.4.0", "capabilities": ["upgrade"],
                "gateway_target": {"reachable": true, "target_address": "unit", "gateway_host": "gw",
                    "gateway_egress_ip": "10.0.0.9", "last_successful_poll_unix": 100,
                    "consecutive_failures": 0}}"#
        )
    );
    assert!(poll(&mut s, &mut reach, two).0.is_empty());
    let (mut told, health) = poll(&mut s, &mut reach, r#"{"data": "odd"}"#);
    told.sort();
    assert_eq!(told, vec!["Alarm cleared: a", "Alarm cleared: b"]);
    assert_eq!(health["status"], value(r#""ok""#));
    assert_eq!(health["alarms"], value(r#""odd""#));
    assert_eq!(to_value(&s.snapshot_at(0))["alarms"], value("[]"));
}

#[test]
fn a_unit_that_does_not_answer_is_told() {
    let mut reach = ReachabilityState::new(2, 0);
    let id = identity();
    let r = alarms_failed(&mut reach, &id, "0.4.0", None, "http_timeout", 50, 50);
    assert!(r.events.is_empty());
    assert!(r.target.reachable);
    let r = alarms_failed(&mut reach, &id, "0.4.0", None, "tcp_refused", 60, 60);
    assert_eq!(r.events.len(), 1);
    assert_eq!(r.events[0].severity, EventSeverity::Critical);
    assert_eq!(r.events[0].category, "target_reachability");
    assert_eq!(words(&r.events[0]), "Target Appear X at unit unreachable");
    assert_eq!(
        details(&r.events[0]),
        value(
            r#"{"error_code": "target_unreachable", "consecutive_failures": 2,
                "target_address": "unit", "last_error_code": "tcp_refused"}"#
        )
    );
    assert_eq!(
        to_value(&health_with_target(r.health, &r.target)),
        value(
            r#"{"status": "critical", "alarms": [], "version": "0.4.0", "capabilities": ["upgrade"],
                "gateway_target": {"reachable": false, "target_address": "unit", "gateway_host": "gw",
                    "last_error_code": "tcp_refused", "consecutive_failures": 2}}"#
        )
    );
    let mut s = state();
    let r = alarms_answered(&mut s, &mut reach, &id, "0.4.0", None, &json("{}"), 75);
    assert_eq!(words(&r.events[0]), "Target Appear X at unit reachable again (downtime 15 s)");
    assert_eq!(
        details(&r.events[0]),
        value(r#"{"error_code": "target_recovered", "downtime_secs": 15, "target_address": "unit"}"#)
    );
}

#[test]
fn outcomes_of_a_poll_for_alarms_are_classified() {
    let mut s = state();
    let mut reach = ReachabilityState::new(2, 0);
    let e = anyhow::Error::msg("operation timed out").context("RPC call to x failed");
    let r = alarms_polled(&mut s, &mut reach, &identity(), "0.4.0", None, Err(&e));
    assert_eq!(r.target.last_error_code.as_deref(), Some("http_timeout"));
    assert_eq!(r.target.consecutive_failures, Some(1));
    let r = alarms_polled(&mut s, &mut reach, &identity(), "0.4.0", None, Ok(&json(r#"{"data": []}"#)));
    assert_eq!(r.target.consecutive_failures, Some(0));
    // Some time after 2020 and before 2200.
    let at = r.target.last_successful_poll_unix.unwrap();
    assert!(at > 1_577_836_800 && at < 7_258_118_400);
}

#[test]
fn attempts_are_counted_until_one_succeeds() {
    let mut phase = DiscoveryPhase::new();
    let shot = |p: &DiscoveryPhase| {
        p.heartbeat("unit", None, Some("1.2.3.4".to_string()), "0.4.0", &gateway_capabilities())
            .map(|(health, target)| to_value(&health_with_target(health, &target)))
    };
    assert_eq!(
        shot(&phase).unwrap(),
        value(
            r#"{"status": "critical", "alarms": [], "version": "0.4.0", "capabilities": ["upgrade"],
                "gateway_target": {"reachable": false, "target_address": "unit",
                    "gateway_egress_ip": "1.2.3.4", "last_error_code": "tcp_refused",
                    "consecutive_failures": 0}}"#
        )
    );
    phase.failed("http_timeout");
    phase.failed("tls_handshake");
    let told = shot(&phase).unwrap();
    assert_eq!(told["gateway_target"]["consecutive_failures"], value("2"));
    assert_eq!(told["gateway_target"]["last_error_code"], value(r#""tls_handshake""#));
    phase.finished();
    assert!(shot(&phase).is_none());
    assert_eq!((RETRY_SECS, HEARTBEAT_SECS), (5, 10));
}

#[test]
fn polls_only_read() {
    for row in make_poll_rows() {
        assert!(row.command.starts_with("Get"), "{}", row.command);
    }
}

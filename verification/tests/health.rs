//! What the state of the cards says of the signals that matter.

use std::collections::BTreeMap;

use appear_x_gateway::appear_x::health::{
    derive_health_signals, eq_ignore_ascii_case, extract_sfp_signals, max_temp, min_rx_dbm,
    ptp_state_of,
};
use appear_x_gateway::double::Double;
use appear_x_gateway::json::{Exact, Json, Number, Object, Reading};
use serde_json::Value;

fn to_json(v: &Value) -> Json {
    match v {
        Value::Null => Json::Null,
        Value::Bool(b) => Json::Bool(*b),
        Value::Number(n) => {
            let f = n.as_f64().unwrap();
            let exact = if let Some(u) = n.as_u64() {
                Exact::Unsigned(u)
            } else if let Some(i) = n.as_i64() {
                Exact::Negative(i)
            } else {
                Exact::Float(Double { bits: f.to_bits() })
            };
            let reading = Some(Reading {
                value: Double { bits: f.to_bits() },
                dbm: Double { bits: (10.0 * f.log10()).to_bits() },
            });
            Json::Number(Number { exact, reading })
        }
        Value::String(s) => Json::Text(s.clone()),
        Value::Array(a) => Json::Array(a.iter().map(to_json).collect()),
        Value::Object(m) => {
            let mut o = Object::new();
            for (k, v) in m {
                o.set(k, to_json(v));
            }
            Json::Object(o)
        }
    }
}

fn to_value(j: &Json) -> Value {
    match j {
        Json::Null => Value::Null,
        Json::Bool(b) => Value::from(*b),
        Json::Number(n) => match n.exact {
            Exact::Unsigned(u) => Value::from(u),
            Exact::Negative(i) => Value::from(i),
            Exact::Float(d) => Value::from(f64::from_bits(d.bits)),
        },
        Json::Text(s) => Value::from(s.clone()),
        Json::Array(a) => Value::Array(a.iter().map(to_value).collect()),
        Json::Object(o) => {
            let mut m = serde_json::Map::new();
            for member in &o.members {
                m.insert(member.key.clone(), to_value(&member.value));
            }
            Value::Object(m)
        }
    }
}

fn value(text: &str) -> Value {
    serde_json::from_str(text).unwrap()
}

fn json(text: &str) -> Json {
    to_json(&value(text))
}

/// Sample `cardStatus` of a card with a 40 G active cable on port D3 (`rxPwr=[0.0]`), which counts
/// as no optic.
fn sample_card_status_no_optic() -> Json {
    json(
        r#"{
            "physicalPortStatus": {},
            "ptpLock": {},
            "nmosStatus": {},
            "qsfpStatus": {"value": [{
                "key": "D3",
                "value": {
                    "vendorName": "APPEAR   ",
                    "vendorPN": "10005315 ",
                    "vendorSN": "125042800158 ",
                    "diagnostics": {
                        "value": { "temp": 42.3, "vcc": 3.36, "txPwr": [0.0], "rxPwr": [0.0] }
                    }
                }
            }]}
        }"#,
    )
}

fn sample_card_status_with_optic(rx_mw: f64, temp_c: f64, ptp_state: &str) -> Json {
    json(&format!(
        r#"{{
            "physicalPortStatus": {{}},
            "ptpLock": {{ "state": "{ptp_state}" }},
            "nmosStatus": {{ "connected": true }},
            "qsfpStatus": {{"value": [{{
                "key": "D3",
                "value": {{
                    "vendorName": "APPEAR   ",
                    "vendorPN": "10005315 ",
                    "vendorSN": "125042800158 ",
                    "diagnostics": {{
                        "value": {{ "temp": {temp_c:?}, "vcc": 3.36, "txPwr": [0.5], "rxPwr": [{rx_mw:?}] }}
                    }}
                }}
            }}]}}
        }}"#
    ))
}

fn as_f64(j: &Json) -> f64 {
    f64::from_bits(j.as_double().unwrap().bits)
}

#[test]
fn health_signals_rollup_skips_dark_optic() {
    let mut map = BTreeMap::new();
    map.insert(1u32, sample_card_status_no_optic());
    let signals = derive_health_signals(&map);
    let global = signals.get("global").unwrap();
    // No optic present: no RX dBm rollup value.
    assert!(global.get("qsfp_rx_power_dbm_min").is_none());
    // Port D3 temp=42.3 bubbles up.
    assert!((as_f64(global.get("qsfp_temp_c_max").unwrap()) - 42.3).abs() < 0.1);
    // PTP empty object: unknown, not present.
    assert!(global.get("ptp_locked").is_none());
}

#[test]
fn health_signals_rollup_with_optic() {
    // 0.1 mW is -10 dBm. 60 °C is the hotter value.
    let mut map = BTreeMap::new();
    map.insert(1u32, sample_card_status_with_optic(0.1, 60.0, "LOCKED"));
    map.insert(2u32, sample_card_status_with_optic(0.01, 58.0, "LOCKED"));
    let signals = derive_health_signals(&map);
    let global = signals.get("global").unwrap();
    assert_eq!(global.get("ptp_locked").unwrap().as_bool(), Some(true));
    assert_eq!(global.get("nmos_registered").unwrap().as_bool(), Some(true));
    // Worst RX is slot 2 (0.01 mW is -20 dBm).
    let rx_min = as_f64(global.get("qsfp_rx_power_dbm_min").unwrap());
    assert!((rx_min - (-20.0)).abs() < 0.5, "expected ~-20 dBm, got {rx_min}");
    // Hottest cage is slot 1 at 60 °C.
    let temp_max = as_f64(global.get("qsfp_temp_c_max").unwrap());
    assert!((temp_max - 60.0).abs() < 0.5, "expected ~60 °C, got {temp_max}");
}

#[test]
fn health_signals_ptp_partial_lock_rollup() {
    // One slot locked, one not: the rollup is not locked.
    let mut map = BTreeMap::new();
    map.insert(1u32, sample_card_status_with_optic(0.5, 45.0, "LOCKED"));
    map.insert(2u32, sample_card_status_with_optic(0.5, 45.0, "ACQUIRING"));
    let signals = derive_health_signals(&map);
    let global = signals.get("global").unwrap();
    assert_eq!(global.get("ptp_locked").unwrap().as_bool(), Some(false));
}

#[test]
fn no_cards_say_nothing() {
    let signals = derive_health_signals(&BTreeMap::new());
    assert_eq!(to_value(&signals), value(r#"{"by_slot": {}, "global": {}}"#));
}

#[test]
fn a_card_is_reported_under_its_slot_number() {
    let mut map = BTreeMap::new();
    map.insert(12u32, sample_card_status_no_optic());
    let signals = derive_health_signals(&map);
    assert_eq!(
        to_value(signals.get("by_slot").unwrap()),
        value(
            r#"{"12": {
                "nmos_registered": false,
                "qsfp_temp_c_max": 42.3,
                "qsfp_ports": [{
                    "port": "D3",
                    "vendor": "APPEAR",
                    "part_number": "10005315",
                    "serial": "125042800158",
                    "temp_c": 42.3,
                    "vcc_v": 3.36,
                    "rx_power_mw": [0.0],
                    "tx_power_mw": [0.0]
                }]
            }}"#
        )
    );
}

#[test]
fn small_ports_come_after_large_ones() {
    let status = json(
        r#"{
            "sfpStatus": {"value": [{"key": "S1", "value": {"diagnostics": {"value": {"temp": 50, "rxPwr": [1.0, "x", 0.001]}}}}]},
            "qsfpStatus": {"value": [{"key": "Q1"}, {"value": {"diagnostics": {"value": {"temp": 49.5, "rxPwr": [-1.0]}}}}]}
        }"#,
    );
    let (rx, temp, ports) = extract_sfp_signals(&status);
    assert_eq!(f64::from_bits(rx.unwrap().bits), 10.0 * 0.001f64.log10());
    assert_eq!(f64::from_bits(temp.unwrap().bits), 50.0);
    let names: Vec<&str> = ports.iter().map(|p| p.get("port").unwrap().as_str().unwrap()).collect();
    assert_eq!(names, vec!["Q1", "", "S1"]);
    assert_eq!(to_value(ports[2].get("rx_power_mw").unwrap()), value("[1.0, 0.001]"));
    assert_eq!(min_rx_dbm(&status), rx);
    assert_eq!(max_temp(&status), temp);
}

#[test]
fn the_state_of_the_clock_may_stand_deeper() {
    assert_eq!(ptp_state_of(&json(r#"{"ptpLock": {"value": {"state": "LOCKED"}}}"#)).as_deref(), Some("LOCKED"));
    assert_eq!(ptp_state_of(&json(r#"{"ptpLock": {"state": 1, "value": {"state": "LOCKED"}}}"#)), None);
    assert_eq!(ptp_state_of(&json(r#"{"ptpLock": {}}"#)), None);
    assert_eq!(ptp_state_of(&json(r#"{}"#)), None);
}

#[test]
fn the_registry_may_stand_deeper() {
    let mut map = BTreeMap::new();
    map.insert(0u32, json(r#"{"nmosStatus": {"value": {"connected": true}}}"#));
    let signals = derive_health_signals(&map);
    assert_eq!(to_value(signals.get("global").unwrap()), value(r#"{"nmos_registered": true}"#));
    map.insert(1u32, json(r#"{"nmosStatus": {"connected": false}}"#));
    let signals = derive_health_signals(&map);
    assert_eq!(to_value(signals.get("global").unwrap()), value(r#"{"nmos_registered": false}"#));
}

#[test]
fn a_lock_in_lower_case_is_a_lock() {
    assert!(eq_ignore_ascii_case("locked", "LOCKED"));
    assert!(!eq_ignore_ascii_case("lock", "LOCKED"));
    assert!(!eq_ignore_ascii_case("LOCKEd!", "LOCKED"));
    let mut map = BTreeMap::new();
    map.insert(1u32, sample_card_status_with_optic(0.5, 45.0, "Locked"));
    let signals = derive_health_signals(&map);
    assert_eq!(signals.get("global").unwrap().get("ptp_locked").unwrap().as_bool(), Some(true));
}

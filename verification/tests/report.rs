//! The report of the probe, and texts and values.

use std::collections::BTreeMap;

use appear_x_gateway::appear_x::capabilities::{
    DeviceCapabilities, DiscoveredInterfaceRecord, SlotCapabilities,
};
use appear_x_gateway::config::{AppearXConfig, PollingConfig};
use appear_x_gateway::event::Part;
use appear_x_gateway::json::Member;
use appear_x_gateway::probe::{
    join, make_call_line, make_chassis_calls, make_device_lines, make_module_error_line,
    make_module_line, make_slot_checks, opening_line, preview, print_card_status_summary,
};
use appear_x_gateway::text;
use appear_x_gateway::double::Double;
use appear_x_gateway::json::{Exact, Json, Number, Object, Reading};
use serde_json::Value;

fn to_json(v: &Value) -> Json {
    match v {
        Value::Null => Json::Null,
        Value::Bool(b) => Json::Bool(*b),
        Value::Number(n) => {
            let f = n.as_f64().unwrap();
            let exact = if let Some(u) = n.as_u64() {
                Exact::Unsigned(u)
            } else if let Some(i) = n.as_i64() {
                Exact::Negative(i)
            } else {
                Exact::Float(Double { bits: f.to_bits() })
            };
            let reading = Some(Reading {
                value: Double { bits: f.to_bits() },
                dbm: Double { bits: (10.0 * f.log10()).to_bits() },
            });
            Json::Number(Number { exact, reading })
        }
        Value::String(s) => Json::Text(s.clone()),
        Value::Array(a) => Json::Array(a.iter().map(to_json).collect()),
        Value::Object(m) => {
            let mut o = Object::new();
            for (k, v) in m {
                o.set(k, to_json(v));
            }
            Json::Object(o)
        }
    }
}

fn to_value(j: &Json) -> Value {
    match j {
        Json::Null => Value::Null,
        Json::Bool(b) => Value::from(*b),
        Json::Number(n) => match n.exact {
            Exact::Unsigned(u) => Value::from(u),
            Exact::Negative(i) => Value::from(i),
            Exact::Float(d) => Value::from(f64::from_bits(d.bits)),
        },
        Json::Text(s) => Value::from(s.clone()),
        Json::Array(a) => Value::Array(a.iter().map(to_value).collect()),
        Json::Object(o) => {
            let mut m = serde_json::Map::new();
            for member in &o.members {
                m.insert(member.key.clone(), to_value(&member.value));
            }
            Value::Object(m)
        }
    }
}

fn value(text: &str) -> Value {
    serde_json::from_str(text).unwrap()
}

fn json(text: &str) -> Json {
    to_json(&value(text))
}

fn slot(number: u32, modules: &[(&str, &str, &str)]) -> SlotCapabilities {
    let mut s = SlotCapabilities {
        slot: number,
        name: "X5".to_string(),
        serial: "s1".to_string(),
        software_id: Some("net.appear".to_string()),
        software_display_name: None,
        software_version: None,
        features: vec!["sdi".to_string(), "srt".to_string()],
        discovered_modules: vec![],
    };
    for (interface, module, version) in modules {
        s.record(DiscoveredInterfaceRecord {
            family: "fam".to_string(),
            interface: interface.to_string(),
            module: module.to_string(),
            version: version.to_string(),
            probe_method: format!("{interface}:{version}/{module}/Get"),
        });
    }
    s
}

#[test]
fn the_report_says_what_the_unit_is_made_of() {
    let mut d = DeviceCapabilities {
        chassis_type: "X20".to_string(),
        cards_mmi_version: "2.8".to_string(),
        slots: BTreeMap::new(),
    };
    assert_eq!(
        make_device_lines(&d),
        vec![
            "Discovered capabilities:",
            "  Chassis: X20 (MMI cards/* version: 2.8)",
            "  (no card slots reported)"
        ]
    );
    let mut bare = slot(2, &[]);
    bare.features = vec![];
    d.slots.insert(2, bare);
    d.slots.insert(1, slot(1, &[("Xger", "poolConfig", "2.5"), ("Xger", "cardStatus", "2.55")]));
    assert_eq!(
        make_device_lines(&d),
        vec![
            "Discovered capabilities:",
            "  Chassis: X20 (MMI cards/* version: 2.8)",
            "  Slot 1: X5 sn=s1 sw=net.appear ver=?",
            "         features: sdi, srt",
            "         ✓ Xger/cardStatus:2.55  (family=fam)  via Xger:2.55/cardStatus/Get",
            "         ✓ Xger/poolConfig:2.5  (family=fam)  via Xger:2.5/poolConfig/Get",
            "  Slot 2: X5 sn=s1 sw=net.appear ver=?",
            "         no card-level modules matched the probe registry — this firmware uses a \
             namespace not yet registered in src/appear_x/probe_registry.rs",
        ]
    );
}

#[test]
fn a_module_that_is_recorded_again_replaces_its_record() {
    let s = slot(1, &[("Xger", "b", "1"), ("Xger", "a", "1"), ("Xger", "b", "2"), ("X", "z", "1")]);
    let told: Vec<String> = s
        .discovered_modules
        .iter()
        .map(|r| format!("{}/{}:{}", r.interface, r.module, r.version))
        .collect();
    assert_eq!(told, vec!["X/z:1", "Xger/a:1", "Xger/b:2"]);
}

#[test]
fn the_chassis_is_asked_what_is_polled() {
    let config = PollingConfig {
        alarms_interval_secs: 10,
        chassis_interval_secs: 30,
        inputs_interval_secs: 15,
        outputs_interval_secs: 15,
        alarms_mmi_version: "2.16".to_string(),
        chassis_mmi_version: "4.1".to_string(),
        cards_mmi_version: "2.8".to_string(),
        cards_interval_secs: 30,
        card_status_interval_secs: 5,
        xger_config_interval_secs: 30,
        sfp_low_rx_dbm_threshold: Double { bits: 0 },
        sfp_high_temp_c_threshold: Double { bits: 0 },
    };
    let told: Vec<(&str, String, Value)> = make_chassis_calls(&config)
        .into_iter()
        .map(|c| (c.label, c.request.method, to_value(&c.request.params)))
        .collect();
    assert_eq!(
        told,
        vec![
            ("alarms", "mmi:2.16/alarms/GetActiveAlarms".to_string(), value(r#"{"query": {}}"#)),
            ("chassis", "mmi:4.1/chassisModel/GetGraph".to_string(), value("{}")),
            ("cards/GetChassisInfo", "mmi:2.8/cards/GetChassisInfo".to_string(), value("{}")),
            ("cards/GetCardStates", "mmi:2.8/cards/GetCardStates".to_string(), value("{}")),
        ]
    );
}

#[test]
fn lines_of_the_report() {
    let config = AppearXConfig {
        address: "10.0.0.1".to_string(),
        username: "admin".to_string(),
        password: "pw".to_string(),
        accept_self_signed_cert: true,
        cert_fingerprint: None,
        reachability_failure_threshold: 2,
        reachability_event_dwell_secs: 30,
    };
    assert_eq!(opening_line(&config), "Probing Appear X unit at https://10.0.0.1 (user: admin)");
    assert_eq!(
        make_call_line(true, "alarms", "m", "{}"),
        format!("  PASS  {:24} (m) -> {{}}", "alarms")
    );
    assert_eq!(
        make_call_line(false, "a label that is longer than that", "m", "no"),
        "  FAIL  a label that is longer than that (m) -> no"
    );
    assert_eq!(
        make_module_line("poolConfig", &json(r#"{"data": [1, 2]}"#), 16),
        format!("    {:20} OK  (data.len=2, response bytes=16)", "poolConfig")
    );
    assert_eq!(
        make_module_line("x", &json(r#"{"data": {}}"#), 0),
        format!("    {:20} OK  (data.len=0, response bytes=0)", "x")
    );
    assert_eq!(make_module_error_line("x", "bad"), format!("    {:20} ERR bad", "x"));
    assert_eq!(join(&vec!["a".to_string(), "b".to_string(), "c".to_string()], ", "), "a, b, c");
    assert_eq!(join(&vec![], ", "), "");
}

#[test]
fn long_answers_are_cut() {
    let short = "x".repeat(200);
    assert_eq!(preview(&short), short);
    assert_eq!(preview(&"x".repeat(201)), format!("{short}…"));
    // A character of two bytes that ends at the cut.
    let wide = format!("{}é", "x".repeat(198));
    assert_eq!(preview(&format!("{wide}more")), format!("{wide}…"));
    // Characters of two, three and four bytes across the cut.
    for c in ['é', '€', '😀'] {
        let kept = "x".repeat(199);
        assert_eq!(preview(&format!("{kept}{c}")), format!("{kept}…"));
    }
    assert_eq!(preview(&"€".repeat(67)), format!("{}…", "€".repeat(66)));
    assert_eq!(preview(&"😀".repeat(50)), "😀".repeat(50));
}

#[test]
fn cards_are_asked_for_what_answered() {
    assert!(make_slot_checks(1, &slot(1, &[])).is_empty());
    let told: Vec<(Option<String>, String)> = make_slot_checks(
        3,
        &slot(3, &[
            ("Xger", "poolConfig", "2.5"),
            ("Xger", "cardStatus", "2.55"),
            ("Xger", "unknown", "1"),
            ("ipGateway", "input", "1.15"),
        ]),
    )
    .into_iter()
    .map(|c| (c.module, c.request.method))
    .collect();
    assert_eq!(
        told,
        vec![
            (None, "Xger:2.55/cardStatus/GetCardStatus".to_string()),
            (Some("poolConfig".to_string()), "Xger:2.5/poolConfig/GetPoolConfig".to_string()),
        ]
    );
    let other = make_slot_checks(3, &slot(3, &[("ipGateway", "input", "1.15")]));
    assert_eq!(other.len(), 1);
    assert_eq!(other[0].request.method, "Xger:2.55/cardStatus/GetCardStatus");
    assert_eq!(to_value(&other[0].request.params), value(r#"{"slot": 3}"#));
}

fn summary(status: &str) -> Vec<String> {
    print_card_status_summary(&json(status))
        .iter()
        .map(|l| {
            l.parts
                .iter()
                .map(|p| match p {
                    Part::Text(s) => s.clone(),
                    Part::Fixed { value, decimals } => {
                        format!("{:.*}", *decimals as usize, f64::from_bits(value.bits))
                    }
                })
                .collect()
        })
        .collect()
}

#[test]
fn the_state_of_a_card_in_words() {
    assert_eq!(
        summary(
            r#"{"ptpLock": {"state": "LOCKED"},
                "qsfpStatus": {"value": [
                    {"key": "D3", "value": {"diagnostics": {"value": {"temp": 42.34, "rxPwr": [0.1, 0.0]}}}},
                    {"key": "D4"}
                ]},
                "sfpStatus": {"value": [{"value": {"diagnostics": {"value": {}}}}]}}"#
        ),
        vec![
            "    cardStatus          OK  ptp=LOCKED",
            "      port D3: temp=42.3°C  rx=[-10.0dBm, --]",
            "      port ?: temp=?  rx=[]",
            "    → worst_rx=-10.0 dBm  max_temp=42.3 °C",
        ]
    );
    assert_eq!(
        summary(r#"{"ptpLock": {}}"#),
        vec!["    cardStatus          OK  ptp=no-signal", "    → worst_rx=no-signal  max_temp=-"]
    );
    assert_eq!(summary("{}")[0], "    cardStatus          OK  ptp=unknown");
    assert_eq!(summary(r#"{"ptpLock": {"state": 3}}"#)[0], "    cardStatus          OK  ptp=unknown");
}

#[test]
fn white_space_is_what_the_language_says() {
    for c in '\u{0}'..=char::MAX {
        assert_eq!(text::is_whitespace(c), c.is_whitespace(), "{c:?}");
    }
    assert_eq!(text::trim("\u{2003} a b\n"), "a b");
    assert_eq!(text::trim(" \t"), "");
}

#[test]
fn texts_are_searched_and_ordered() {
    assert!(text::contains("timed out", "ed o"));
    assert!(text::contains("x", ""));
    assert!(text::contains("", ""));
    assert!(!text::contains("ab", "abc"));
    assert!(text::starts_with("wss://x", "wss://"));
    assert!(!text::starts_with("ws://x", "wss://"));
    assert!(text::is_before("Xger/a", "Xger/b"));
    assert!(text::is_before("a", "ab"));
    assert!(!text::is_before("ab", "a"));
    assert!(!text::is_before("a", "a"));
    assert!(text::str_eq("é", "é"));
    assert!(!text::str_eq("e", "é"));
    assert_eq!(text::chars_of("aé"), vec!['a', 'é']);
    assert_eq!(text::to_ascii_lower('Z'), 'z');
    assert_eq!(text::to_ascii_lower('Ä'), 'Ä');
}

#[test]
fn numbers_are_written_out() {
    for n in [0, 9, 10, 255, 4_294_967_295, u64::MAX] {
        assert_eq!(text::decimal_of(n), n.to_string());
        assert_eq!(text::hex_upper_of(n), format!("{n:X}"));
    }
    assert_eq!(text::wide_decimal_of(u128::MAX), u128::MAX.to_string());
}

#[test]
fn doubles_are_compared_by_their_bits() {
    let values = [
        f64::NEG_INFINITY, -18.0, -1e-310, -0.0, 0.0, 5e-324, 1.0, 70.0, f64::MAX, f64::INFINITY, f64::NAN,
    ];
    for a in values {
        let x = Double { bits: a.to_bits() };
        assert_eq!(x.is_nan(), a.is_nan());
        assert_eq!(x.is_finite(), a.is_finite());
        assert_eq!(x.is_positive(), a > 0.0, "{a}");
        for b in values {
            let y = Double { bits: b.to_bits() };
            assert_eq!(x.is_below(&y), a < b, "{a} {b}");
            if a != b && !(a.is_nan() && b.is_nan()) {
                assert_eq!(f64::from_bits(x.min(y).bits), a.min(b), "{a} {b}");
                assert_eq!(f64::from_bits(x.max(y).bits), a.max(b), "{a} {b}");
            }
        }
    }
}

#[test]
fn values_are_read_as_what_they_are() {
    assert_eq!(json("3").as_u64(), Some(3));
    assert_eq!(json("3").as_i64(), Some(3));
    assert_eq!(json("-3").as_u64(), None);
    assert_eq!(json("-3").as_i64(), Some(-3));
    assert_eq!(json("18446744073709551615").as_i64(), None);
    assert_eq!(json("3.0").as_u64(), None);
    assert_eq!(json("true").as_bool(), Some(true));
    assert_eq!(json(r#""x""#).as_str(), Some("x"));
    assert_eq!(json("[1, 2]").as_array().unwrap().len(), 2);
    assert!(json("{}").is_empty_object());
    assert!(!json("[]").is_empty_object());
    assert!(json(r#"{"a": null}"#).get("a").is_some());
    assert!(json("[1]").get("a").is_none());
    // A number that is no number is null.
    assert_eq!(to_value(&Json::from_double(Double { bits: f64::NAN.to_bits() })), Value::Null);
    assert_eq!(to_value(&Json::from_double(Double { bits: 2.5f64.to_bits() })), value("2.5"));
}

#[test]
fn members_are_set_once() {
    let mut o = Object::new();
    o.set("a", json("1"));
    o.set("b", json("2"));
    o.set("a", json("3"));
    assert_eq!(to_value(o.get("a").unwrap()), value("3"));
    assert_eq!(to_value(&Json::Object(o.copy())), value(r#"{"a": 3, "b": 2}"#));
    o.remove("a");
    assert!(o.get("a").is_none());
    // Of two members with one key the later counts.
    let twice = Object {
        members: vec![
            Member { key: "k".to_string(), value: json("1") },
            Member { key: "k".to_string(), value: json("2") },
        ],
    };
    assert_eq!(to_value(twice.get("k").unwrap()), value("2"));
}

//! What the manager commands.

use std::collections::BTreeMap;

use appear_x_gateway::appear_x::capabilities::{
    DeviceCapabilities, DiscoveredInterfaceRecord, SlotCapabilities,
};
use appear_x_gateway::appear_x::commands::{
    command_to_action, dispatch_upgrade_binary, make_staged_reply, vendor_error,
    AppearXCommandHandler, CommandError, DeferredAppearXHandler, MmiVersions, Plan, StagedUpgrade,
    UPGRADE_DRAIN_SECS,
};
use appear_x_gateway::appear_x::jsonrpc::Endpoint;
use appear_x_gateway::appear_x::state::SharedAppearXState;
use appear_x_gateway::double::Double;
use appear_x_gateway::json::{Exact, Json, Number, Object, Reading};
use serde_json::Value;

fn to_json(v: &Value) -> Json {
    match v {
        Value::Null => Json::Null,
        Value::Bool(b) => Json::Bool(*b),
        Value::Number(n) => {
            let f = n.as_f64().unwrap();
            let exact = if let Some(u) = n.as_u64() {
                Exact::Unsigned(u)
            } else if let Some(i) = n.as_i64() {
                Exact::Negative(i)
            } else {
                Exact::Float(Double { bits: f.to_bits() })
            };
            let reading = Some(Reading {
                value: Double { bits: f.to_bits() },
                dbm: Double { bits: (10.0 * f.log10()).to_bits() },
            });
            Json::Number(Number { exact, reading })
        }
        Value::String(s) => Json::Text(s.clone()),
        Value::Array(a) => Json::Array(a.iter().map(to_json).collect()),
        Value::Object(m) => {
            let mut o = Object::new();
            for (k, v) in m {
                o.set(k, to_json(v));
            }
            Json::Object(o)
        }
    }
}

fn to_value(j: &Json) -> Value {
    match j {
        Json::Null => Value::Null,
        Json::Bool(b) => Value::from(*b),
        Json::Number(n) => match n.exact {
            Exact::Unsigned(u) => Value::from(u),
            Exact::Negative(i) => Value::from(i),
            Exact::Float(d) => Value::from(f64::from_bits(d.bits)),
        },
        Json::Text(s) => Value::from(s.clone()),
        Json::Array(a) => Value::Array(a.iter().map(to_value).collect()),
        Json::Object(o) => {
            let mut m = serde_json::Map::new();
            for member in &o.members {
                m.insert(member.key.clone(), to_value(&member.value));
            }
            Value::Object(m)
        }
    }
}

fn value(text: &str) -> Value {
    serde_json::from_str(text).unwrap()
}

fn json(text: &str) -> Json {
    to_json(&value(text))
}

fn slot(number: u32, modules: &[(&str, &str, &str)]) -> SlotCapabilities {
    let mut s = SlotCapabilities {
        slot: number,
        name: "X5".to_string(),
        serial: "123".to_string(),
        software_id: None,
        software_display_name: None,
        software_version: None,
        features: vec![],
        discovered_modules: vec![],
    };
    for (interface, module, version) in modules {
        s.record(DiscoveredInterfaceRecord {
            family: interface.to_string(),
            interface: interface.to_string(),
            module: module.to_string(),
            version: version.to_string(),
            probe_method: format!("{interface}:{version}/{module}/Get"),
        });
    }
    s
}

fn state(slots: Vec<SlotCapabilities>) -> SharedAppearXState {
    let mut map = BTreeMap::new();
    for s in slots {
        map.insert(s.slot, s);
    }
    SharedAppearXState::new(
        DeviceCapabilities {
            chassis_type: "X20_2RU".to_string(),
            cards_mmi_version: "2.8".to_string(),
            slots: map,
        },
        "0.4.0",
        "unit".to_string(),
    )
}

fn handler(slots: Vec<SlotCapabilities>, upgrades: bool) -> AppearXCommandHandler {
    AppearXCommandHandler::new(
        state(slots),
        MmiVersions { alarms: "2.16".to_string(), chassis: "4.1".to_string() },
        upgrades,
    )
}

fn full() -> AppearXCommandHandler {
    let modules: Vec<(&str, &str, &str)> = vec![
        ("ipGateway", "input", "1.15"),
        ("ipGateway", "output", "1.15"),
        ("ipGateway", "ipinterface", "1.14"),
        ("board", "services", "2.16"),
        ("Xger", "cardStatus", "2.55"),
        ("Xger", "coderService", "2.54"),
        ("Xger", "poolConfig", "2.53"),
        ("Xger", "scte35LogApi", "2.52"),
        ("hipEnc", "hipEncStatus", "1.1"),
        ("hipEnc", "hipEncoder", "1.2"),
        ("hipTsDec", "hipTsDecoder", "1.3"),
        ("hipDec", "hipDecoder", "1.4"),
    ];
    handler(vec![slot(1, &modules), slot(31, &[("Xger", "cardStatus", "2.1")])], false)
}

/// The endpoint, the method and the parameters of the call for a command.
fn call(h: &AppearXCommandHandler, action: &str) -> (Endpoint, String, Value) {
    match h.handle_command(&json(action)) {
        Ok(Plan::Call(q)) => (q.endpoint, q.method, to_value(&q.params)),
        other => panic!("expected a call; got {other:?}"),
    }
}

fn refusal(h: &AppearXCommandHandler, action: &str) -> (String, String) {
    let e = h.handle_command(&json(action)).unwrap_err();
    (e.code(), e.message())
}

#[test]
fn commands_become_calls() {
    let h = full();
    assert_eq!(
        call(&h, r#"{"type": "get_inputs"}"#),
        (Endpoint::Board(1), "ipGateway:1.15/input/GetInputs".to_string(), value("{}"))
    );
    assert_eq!(
        call(&h, r#"{"type": "get_ip_interfaces", "slot": 1}"#),
        (Endpoint::Board(1), "ipGateway:1.14/ipinterface/GetIpInterfaces".to_string(), value("{}"))
    );
    assert_eq!(
        call(&h, r#"{"type": "get_services"}"#),
        (Endpoint::Board(1), "board:2.16/services/GetInputServices".to_string(), value(r#"{"query": {}}"#))
    );
    assert_eq!(
        call(&h, r#"{"type": "get_card_status", "slot": 31}"#),
        (Endpoint::Board(31), "Xger:2.1/cardStatus/GetCardStatus".to_string(), value(r#"{"slot": 31}"#))
    );
    assert_eq!(
        call(&h, r#"{"type": "get_alarms", "slot": 99}"#),
        (Endpoint::Mmi, "mmi:2.16/alarms/GetActiveAlarms".to_string(), value(r#"{"query": {}}"#))
    );
    assert_eq!(
        call(&h, r#"{"type": "get_chassis"}"#),
        (Endpoint::Mmi, "mmi:4.1/chassisModel/GetGraph".to_string(), value("{}"))
    );
}

#[test]
fn what_is_written_passes_through() {
    let h = full();
    assert_eq!(
        call(&h, r#"{"type": "set_ip_input", "inputs": [{"a": 1.5}, null]}"#),
        (
            Endpoint::Board(1),
            "ipGateway:1.15/input/SetInputs".to_string(),
            value(r#"{"data": [{"a": 1.5}, null]}"#)
        )
    );
    assert_eq!(
        call(&h, r#"{"type": "set_pool_config", "pool_config": {"x": "y"}}"#),
        (
            Endpoint::Board(1),
            "Xger:2.53/poolConfig/SetPoolConfig".to_string(),
            value(r#"{"data": {"x": "y"}}"#)
        )
    );
    assert_eq!(
        call(&h, r#"{"type": "get_scte35_history", "limit": 5, "other": 1}"#),
        (
            Endpoint::Board(1),
            "Xger:2.52/scte35LogApi/GetScte35History".to_string(),
            value(r#"{"limit": 5}"#)
        )
    );
}

#[test]
fn lists_of_keys_and_values_are_folded() {
    let h = full();
    assert_eq!(
        call(
            &h,
            r#"{"type": "set_coder_services", "coder_services": [
                {"key": "a", "value": 1}, {"key": "b", "value": null}, {"key": "a", "value": 2}
            ]}"#
        ),
        (
            Endpoint::Board(1),
            "Xger:2.54/coderService/SetCoderServices".to_string(),
            value(r#"{"data": {"a": 2, "b": null}}"#)
        )
    );
    let cases = [
        (r#"{"type": "set_coder_services"}"#, "missing 'coder_services' field"),
        (
            r#"{"type": "set_coder_services", "coder_services": {}}"#,
            "'coder_services' must be an array of {key, value} objects",
        ),
        (
            r#"{"type": "set_coder_services", "coder_services": [{"key": "a", "value": 1}, 2]}"#,
            "'coder_services[1]' must be an object with 'key' and 'value'",
        ),
        (
            r#"{"type": "set_coder_services", "coder_services": [{"key": "", "value": 1}]}"#,
            "'coder_services[0].key' must be a non-empty string",
        ),
        (
            r#"{"type": "set_coder_services", "coder_services": [{"key": 3, "value": 1}]}"#,
            "'coder_services[0].key' must be a non-empty string",
        ),
        (
            r#"{"type": "set_coder_services", "coder_services": [{"key": "k"}]}"#,
            "'coder_services[0].value' is missing",
        ),
    ];
    for (action, words) in cases {
        assert_eq!(refusal(&h, action), ("validation_error".to_string(), words.to_string()));
    }
}

#[test]
fn deletions_name_what_is_deleted() {
    let h = full();
    assert_eq!(
        call(&h, r#"{"type": "delete_coder_services", "ids": ["u1"]}"#),
        (
            Endpoint::Board(1),
            "Xger:2.54/coderService/DeleteCoderServices".to_string(),
            value(r#"{"ids": ["u1"]}"#)
        )
    );
    assert_eq!(refusal(&h, r#"{"type": "delete_coder_services"}"#).1, "missing 'ids' field");
    assert_eq!(
        refusal(&h, r#"{"type": "delete_coder_services", "ids": "u1"}"#).1,
        "'ids' must be an array"
    );
}

#[test]
fn modules_that_did_not_answer_are_not_called() {
    let h = full();
    let (code, words) = refusal(&h, r#"{"type": "get_inputs", "slot": 31}"#);
    assert_eq!(code, "unsupported_on_card");
    assert_eq!(
        words,
        "get_inputs requires the `ipGateway/input` module on slot 31. This card family does not \
         expose that interface — X5 / X10 / X20 chassis speak only the Xger card-manager surface. \
         Use the Coder Services / Multi Services / Audio Profiles sections for the Xger-native \
         signal path, or run this command against a legacy IP Gateway board (ME-3000 / ME-4000)."
    );
    // Actions of the card manager are named as they were sent.
    let (_, words) = refusal(&h, r#"{"type": "get_xger_ip_interfaces", "slot": 31}"#);
    assert!(words.starts_with("get_xger_ip_interfaces requires the `Xger/ipInterface` module on slot 31. "));
    // What is missing on the card is told before what is missing in the command.
    let (code, _) = refusal(&h, r#"{"type": "set_coder_services", "slot": 31}"#);
    assert_eq!(code, "unsupported_on_card");
}

#[test]
fn encoders_are_found_by_their_family() {
    let h = full();
    assert_eq!(call(&h, r#"{"type": "get_hip_encoders"}"#).1, "hipEnc:1.2/hipEncoder/GetEncoders");
    // The transport stream family goes first.
    assert_eq!(
        call(&h, r#"{"type": "set_hip_decoders", "config": [1]}"#),
        (
            Endpoint::Board(1),
            "hipTsDec:1.3/hipTsDecoder/SetDecoders".to_string(),
            value(r#"{"data": [1]}"#)
        )
    );
    assert_eq!(
        refusal(&h, r#"{"type": "set_hip_encoders"}"#),
        ("validation_error".to_string(), "missing 'config' field for set command".to_string())
    );
    assert_eq!(
        refusal(&h, r#"{"type": "get_hip_decoders", "slot": 31}"#),
        (
            "unsupported_on_card".to_string(),
            "Slot 31 exposes no decoder module (hipTsDec / hipDec). Commission an decoder pool first."
                .to_string()
        )
    );
    assert_eq!(
        call(&h, r#"{"type": "clear_all_counters"}"#).1,
        "hipEnc:1.1/hipEncStatus/ClearAllCounters"
    );
    assert_eq!(
        refusal(&h, r#"{"type": "clear_all_counters", "slot": 31}"#).1,
        "clear_all_counters requires a hipTsEnc or hipEnc encoder on slot 31. This slot exposes no \
         encoder-status module; commission an encoder service first."
    );
}

#[test]
fn commands_that_make_no_sense_are_refused() {
    let h = full();
    assert_eq!(
        refusal(&h, r#"{"slot": 1}"#),
        ("validation_error".to_string(), "missing action.type".to_string())
    );
    assert_eq!(refusal(&h, r#"{"type": "explode"}"#).0, "unknown_action");
    assert!(matches!(
        h.handle_command(&json(r#"{"type": "explode"}"#)),
        Err(CommandError::UnknownAction(name)) if name == "explode"
    ));
    assert_eq!(
        refusal(&h, r#"{"type": "set_ip_output"}"#),
        ("validation_error".to_string(), "missing 'outputs' field".to_string())
    );
}

#[test]
fn slot_numbers_are_cut_to_their_size() {
    let h = full();
    assert_eq!(call(&h, r#"{"type": "get_inputs", "slot": 4294967297}"#).0, Endpoint::Board(1));
    assert_eq!(call(&h, r#"{"type": "get_inputs", "slot": -3}"#).0, Endpoint::Board(1));
}

#[test]
fn before_discovery_only_upgrades_are_taken() {
    let mut d = DeferredAppearXHandler::new(true);
    let e = d.handle_command(&json(r#"{"type": "get_alarms"}"#)).unwrap_err();
    assert_eq!(e.code(), "discovery_in_progress");
    assert_eq!(
        e.message(),
        "Appear X capability discovery has not completed — the chassis may be unreachable. \
         Commands will be accepted once the sidecar can talk to the unit."
    );
    assert_eq!(to_value(&d.on_config_request()), value(r#"{"discovery_in_progress": true}"#));
    let upgrade = json(r#"{"type": "upgrade_binary", "version": "1", "channel": "stable"}"#);
    assert!(matches!(d.handle_command(&upgrade), Ok(Plan::Upgrade(_))));
    d.install(full());
    assert!(d.handle_command(&json(r#"{"type": "get_alarms"}"#)).is_ok());
    assert_eq!(
        d.on_config_request().get("chassis_model").and_then(|t| t.as_str()),
        Some("X20_2RU")
    );
    // A second handler changes nothing.
    d.install(handler(vec![], true));
    assert!(d.handle_command(&json(r#"{"type": "get_inputs"}"#)).is_ok());
}

#[test]
fn upgrades_need_a_version_and_a_channel() {
    let told = |configured: bool, action: &str| {
        let e = dispatch_upgrade_binary(configured, &json(action)).unwrap_err();
        (e.code(), e.message())
    };
    assert_eq!(
        told(false, r#"{"version": "1", "channel": "stable"}"#),
        (
            "upgrade_disabled".to_string(),
            "remote upgrades not configured on this gateway — add an [upgrade] section to config.toml"
                .to_string()
        )
    );
    assert_eq!(told(true, r#"{"channel": "stable"}"#).1, "upgrade_binary: missing 'version'");
    assert_eq!(told(true, r#"{"version": "1"}"#).1, "upgrade_binary: missing 'channel'");
    let plan = dispatch_upgrade_binary(
        true,
        &json(r#"{"version": "1.2", "channel": "beta", "variant": "full"}"#),
    );
    match plan {
        Ok(Plan::Upgrade(u)) => {
            assert_eq!((u.version.as_str(), u.channel.as_str()), ("1.2", "beta"));
            assert_eq!(u.target_arch, None);
            assert_eq!(u.variant.as_deref(), Some("full"));
        }
        other => panic!("expected an upgrade; got {other:?}"),
    }
    assert_eq!(UPGRADE_DRAIN_SECS, 5);
    let staged = StagedUpgrade {
        from_version: "0.4.0".to_string(),
        to_version: "1.2".to_string(),
        channel: "beta".to_string(),
        variant: None,
        arch: "x86_64".to_string(),
    };
    assert_eq!(
        to_value(&make_staged_reply(&staged)),
        value(
            r#"{"status": "staged", "from_version": "0.4.0", "to_version": "1.2",
                "channel": "beta", "variant": null, "arch": "x86_64"}"#
        )
    );
}

#[test]
fn action_names_are_in_lower_case() {
    assert_eq!(command_to_action("GetCoderServices"), "get_coder_services");
    assert_eq!(command_to_action("SetDPI"), "set_d_p_i");
    assert_eq!(command_to_action("xÄB"), "xÄ_b");
    assert_eq!(command_to_action(""), "");
}

#[test]
fn errors_of_the_unit_are_told_with_their_causes() {
    let e = anyhow::Error::msg("refused").context("RPC call to x failed");
    let told = vendor_error(&e);
    assert_eq!(told.code(), "vendor_api_error");
    assert_eq!(told.message(), "RPC call to x failed: refused");
}

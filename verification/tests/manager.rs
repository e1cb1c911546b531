//! The conversation with the manager: messages, reconnection and certificates.

use appear_x_gateway::appear_x::commands::CommandError;
use appear_x_gateway::clock::Moment;
use appear_x_gateway::config::{AppearXConfig, ManagerConfig};
use appear_x_gateway::credentials::Credentials;
use appear_x_gateway::event::{EventSeverity, GatewayEvent};
use appear_x_gateway::upgrade::{profile, upgrade_event, UpgradeEvent};
use appear_x_gateway::ws::client::{
    ack_message, auth_answered, auth_message, auth_text_answered, config_replies,
    handle_manager_message, handle_manager_text, heartbeat_message, is_config_request, outgoing_message, AuthError, ConnectResult, HandlerReply,
    ManagerRequest, Reconnect,
};
use appear_x_gateway::ws::message::{
    command_ack, command_refused, config_response_message, event_message, pong_message,
    software_version, ws_envelope, ws_envelope_at,
};
use appear_x_gateway::ws::sha256::{sha256_digest, Sha256};
use appear_x_gateway::ws::tls::{
    build_tls_config, make_fingerprint, unit_tls_mode, verify_fingerprint, TlsMode,
};
use appear_x_gateway::double::Double;
use appear_x_gateway::json::{Exact, Json, Number, Object, Reading};
use serde_json::Value;

fn to_json(v: &Value) -> Json {
    match v {
        Value::Null => Json::Null,
        Value::Bool(b) => Json::Bool(*b),
        Value::Number(n) => {
            let f = n.as_f64().unwrap();
            let exact = if let Some(u) = n.as_u64() {
                Exact::Unsigned(u)
            } else if let Some(i) = n.as_i64() {
                Exact::Negative(i)
            } else {
                Exact::Float(Double { bits: f.to_bits() })
            };
            let reading = Some(Reading {
                value: Double { bits: f.to_bits() },
                dbm: Double { bits: (10.0 * f.log10()).to_bits() },
            });
            Json::Number(Number { exact, reading })
        }
        Value::String(s) => Json::Text(s.clone()),
        Value::Array(a) => Json::Array(a.iter().map(to_json).collect()),
        Value::Object(m) => {
            let mut o = Object::new();
            for (k, v) in m {
                o.set(k, to_json(v));
            }
            Json::Object(o)
        }
    }
}

fn to_value(j: &Json) -> Value {
    match j {
        Json::Null => Value::Null,
        Json::Bool(b) => Value::from(*b),
        Json::Number(n) => match n.exact {
            Exact::Unsigned(u) => Value::from(u),
            Exact::Negative(i) => Value::from(i),
            Exact::Float(d) => Value::from(f64::from_bits(d.bits)),
        },
        Json::Text(s) => Value::from(s.clone()),
        Json::Array(a) => Value::Array(a.iter().map(to_value).collect()),
        Json::Object(o) => {
            let mut m = serde_json::Map::new();
            for member in &o.members {
                m.insert(member.key.clone(), to_value(&member.value));
            }
            Value::Object(m)
        }
    }
}

fn value(text: &str) -> Value {
    serde_json::from_str(text).unwrap()
}

fn json(text: &str) -> Json {
    to_json(&value(text))
}

fn manager(urls: &[&str]) -> ManagerConfig {
    ManagerConfig {
        urls: urls.iter().map(|s| s.to_string()).collect(),
        registration_token: None,
        credentials_file: "c.json".to_string(),
        accept_self_signed_cert: false,
        cert_fingerprint: None,
    }
}

/// The type and the content of a message, after a look at its time.
fn parts(m: &Json) -> (String, Value) {
    let v = to_value(m);
    assert_eq!(v.as_object().unwrap().len(), 3);
    let at = v["timestamp"].as_str().unwrap();
    assert!(at.starts_with("20") && at.ends_with("+00:00"), "{at}");
    (v["type"].as_str().unwrap().to_string(), v["payload"].clone())
}

#[test]
fn messages_tell_their_time() {
    let at = |secs, nanos| {
        let m = ws_envelope_at("stats", Json::Null, Moment { secs, nanos });
        m.get("timestamp").unwrap().as_str().unwrap().to_string()
    };
    assert_eq!(at(0, 0), "1970-01-01T00:00:00+00:00");
    assert_eq!(at(1_700_000_000, 0), "2023-11-14T22:13:20+00:00");
    assert_eq!(at(1_700_000_000, 120_000_000), "2023-11-14T22:13:20.120+00:00");
    assert_eq!(at(1_700_000_000, 1), "2023-11-14T22:13:20.000000001+00:00");
    assert_eq!(at(951_782_399, 999_999_999), "2000-02-28T23:59:59.999999999+00:00");
    let (kind, payload) = parts(&ws_envelope("x", json("[1]")));
    assert_eq!((kind.as_str(), payload), ("x", value("[1]")));
}

#[test]
fn kinds_of_messages() {
    assert_eq!(parts(&pong_message()), ("pong".to_string(), value("{}")));
    assert_eq!(parts(&event_message(json("[]"))).0, "event");
    assert_eq!(parts(&config_response_message(json("3"))), ("config_response".to_string(), value("3")));
    assert_eq!(
        parts(&heartbeat_message()),
        ("health".to_string(), value(r#"{"status": "ok", "version": "0.4.0"}"#))
    );
    assert_eq!(software_version(), "0.4.0");
}

#[test]
fn polled_values_go_out_as_stats_or_health() {
    assert_eq!(
        parts(&outgoing_message(&json(r#"{"_msg_type": "health", "a": 1}"#))),
        ("health".to_string(), value(r#"{"a": 1}"#))
    );
    assert_eq!(
        parts(&outgoing_message(&json(r#"{"_msg_type": "other", "a": 1}"#))),
        ("stats".to_string(), value(r#"{"a": 1}"#))
    );
    assert_eq!(parts(&outgoing_message(&json("[2]"))), ("stats".to_string(), value("[2]")));
}

#[test]
fn the_first_message_says_who_the_gateway_is() {
    let creds = |id: Option<&str>, secret: Option<&str>, token: Option<&str>| Credentials {
        node_id: id.map(|s| s.to_string()),
        node_secret: secret.map(|s| s.to_string()),
        registration_token: token.map(|s| s.to_string()),
    };
    assert_eq!(
        parts(&auth_message(&creds(Some("n"), Some("s"), Some("t"))).unwrap()),
        (
            "auth".to_string(),
            value(
                r#"{"node_id": "n", "node_secret": "s", "software_version": "0.4.0", "protocol_version": 1,
                    "device_type": "appear_x"}"#
            )
        )
    );
    assert_eq!(
        parts(&auth_message(&creds(Some("n"), None, Some("t"))).unwrap()).1,
        value(r#"{"registration_token": "t", "software_version": "0.4.0", "protocol_version": 1,
                    "device_type": "appear_x"}"#)
    );
    let e = auth_message(&creds(None, None, None)).unwrap_err();
    assert!(matches!(e, AuthError::NoCredentials));
    assert_eq!(e.message(), "No credentials or registration token available");
}

#[test]
fn the_manager_registers_or_refuses() {
    let fresh = || Credentials {
        node_id: None,
        node_secret: None,
        registration_token: Some("t".to_string()),
    };
    let mut c = fresh();
    let ack = json(r#"{"type": "register_ack", "payload": {"node_id": "n", "node_secret": "s"}}"#);
    assert_eq!(auth_answered(&ack, &mut c).unwrap(), ConnectResult::Registered);
    assert!(c.has_credentials());
    assert_eq!(c.registration_token, None);
    // It comes back under the name that it was given.
    assert_eq!(parts(&auth_message(&c).unwrap()).1["node_id"], value(r#""n""#));
    assert_eq!(
        auth_answered(&json(r#"{"type": "auth_ok"}"#), &mut c).unwrap(),
        ConnectResult::Authenticated
    );
    let refused = |text: &str| {
        let mut c = fresh();
        let e = auth_answered(&json(text), &mut c).unwrap_err();
        assert_eq!(c.registration_token.as_deref(), Some("t"));
        e.message()
    };
    assert_eq!(
        refused(r#"{"type": "register_ack", "payload": {"node_secret": "s"}}"#),
        "register_ack missing node_id"
    );
    assert_eq!(
        refused(r#"{"type": "register_ack", "payload": {"node_id": "n"}}"#),
        "register_ack missing node_secret"
    );
    assert_eq!(
        refused(r#"{"type": "auth_error", "payload": {"error": "bad token"}}"#),
        "Authentication failed: bad token"
    );
    assert_eq!(refused(r#"{"type": "auth_error"}"#), "Authentication failed: unknown");
    assert_eq!(refused(r#"{"type": "hello"}"#), "Unexpected auth response type: hello");
    assert_eq!(refused("{}"), "Unexpected auth response type: ");
}

#[test]
fn the_text_of_an_answer_is_read() {
    let fresh = || Credentials {
        node_id: None,
        node_secret: None,
        registration_token: Some("t".to_string()),
    };
    let mut c = fresh();
    let text = r#"{"type": "register_ack", "payload": {"node_id": "n", "node_secret": "s\u00e9"}}"#;
    assert_eq!(auth_text_answered(text, &mut c).unwrap(), ConnectResult::Registered);
    assert_eq!(c.node_id.as_deref(), Some("n"));
    assert_eq!(c.node_secret.as_deref(), Some("sé"));
    assert_eq!(
        auth_text_answered(r#" {"type": "auth_ok"} "#, &mut c).unwrap(),
        ConnectResult::Authenticated
    );
    let refused = |text: &str| {
        let mut c = fresh();
        let e = auth_text_answered(text, &mut c).unwrap_err();
        assert_eq!(c.node_id, None);
        assert_eq!(c.registration_token.as_deref(), Some("t"));
        e.message()
    };
    assert_eq!(refused(r#"{"type": "auth_error"}"#), "Authentication failed: unknown");
    assert_eq!(refused("[]"), "Unexpected auth response type: ");
    assert_eq!(refused(r#"{"type": "auth_ok""#), "Auth response is not JSON");
    assert_eq!(refused(""), "Auth response is not JSON");
}

#[test]
fn the_text_of_a_request_is_read() {
    let text = r#"{"type": "command", "payload": {"command_id": "c1", "action":
        {"type": "x", "a": [null, true, 7, -7, 18446744073709551615, 0.5, 1e300, "\"\n"], "o": {}}}}"#;
    match handle_manager_text(text) {
        Some(ManagerRequest::Command(c)) => {
            assert_eq!(c.command_id, "c1");
            assert_eq!(
                to_value(&c.action),
                value(
                    r#"{"type": "x", "o": {},
                        "a": [null, true, 7, -7, 18446744073709551615, 0.5, 1e300, "\"\n"]}"#
                )
            );
            // What the manager sends is no measurement.
            let numbers = c.action.get("a").unwrap().as_array().unwrap();
            assert!(matches!(
                &numbers[2],
                Json::Number(Number { exact: Exact::Unsigned(7), reading: None })
            ));
            assert!(matches!(
                &numbers[3],
                Json::Number(Number { exact: Exact::Negative(-7), reading: None })
            ));
            assert!(matches!(
                &numbers[5],
                Json::Number(Number { exact: Exact::Float(d), reading: None })
                    if d.bits == 0.5f64.to_bits()
            ));
        }
        other => panic!("expected a command; got {other:?}"),
    }
    // Of two members with one name the last counts.
    assert!(matches!(
        handle_manager_text(r#"{"type": "command", "type": "ping"}"#),
        Some(ManagerRequest::Ping)
    ));
    assert!(matches!(handle_manager_text("3"), Some(ManagerRequest::Unknown)));
    assert!(handle_manager_text("ping").is_none());
    assert!(handle_manager_text(r#"{"type": "ping"} {}"#).is_none());
    assert!(handle_manager_text("").is_none());
}

#[test]
fn waits_grow_and_addresses_take_turns() {
    let config = manager(&["wss://a", "wss://b", "wss://c"]);
    let mut r = Reconnect::new();
    let mut waits = Vec::new();
    let mut urls = Vec::new();
    for _ in 0..8 {
        urls.push(r.url(&config).clone());
        waits.push(r.ended(false, &config));
    }
    assert_eq!(waits, vec![1, 2, 5, 10, 30, 30, 30, 30]);
    assert_eq!(urls[..4], ["wss://a", "wss://b", "wss://c", "wss://a"]);
    // A connection that the manager had accepted starts over.
    assert_eq!(r.ended(true, &config), 1);
    assert_eq!(r.ended(false, &config), 2);
}

#[test]
fn the_manager_asks_for_something() {
    match handle_manager_message(&json(
        r#"{"type": "command", "payload": {"command_id": "c1", "action": {"type": "get_inputs"}}}"#,
    )) {
        ManagerRequest::Command(c) => {
            assert_eq!(c.command_id, "c1");
            assert_eq!(to_value(&c.action), value(r#"{"type": "get_inputs"}"#));
            assert!(!is_config_request(&c.action));
        }
        other => panic!("expected a command; got {other:?}"),
    }
    match handle_manager_message(&json(r#"{"type": "command"}"#)) {
        ManagerRequest::Command(c) => {
            assert_eq!(c.command_id, "");
            assert_eq!(to_value(&c.action), Value::Null);
        }
        other => panic!("expected a command; got {other:?}"),
    }
    assert!(matches!(handle_manager_message(&json(r#"{"type": "ping"}"#)), ManagerRequest::Ping));
    assert!(matches!(handle_manager_message(&json(r#"{"type": 3}"#)), ManagerRequest::Unknown));
    assert!(matches!(handle_manager_message(&json("null")), ManagerRequest::Unknown));
}

#[test]
fn commands_are_acknowledged() {
    let ack = |reply| parts(&ack_message("c1", reply)).1;
    assert_eq!(
        ack(HandlerReply::Answered(json(r#"{"success": true, "data": [1]}"#))),
        value(r#"{"command_id": "c1", "success": true, "data": [1]}"#)
    );
    assert_eq!(
        ack(HandlerReply::Answered(json(r#"{"error": "no"}"#))),
        value(
            r#"{"command_id": "c1", "success": false, "error": "no",
                "error_code": "vendor_api_error"}"#
        )
    );
    assert_eq!(
        ack(HandlerReply::Answered(json(
            r#"{"success": false, "error": "no", "error_code": "unsupported_on_card"}"#
        ))),
        value(
            r#"{"command_id": "c1", "success": false, "error": "no",
                "error_code": "unsupported_on_card"}"#
        )
    );
    assert_eq!(
        ack(HandlerReply::TimedOut),
        value(
            r#"{"command_id": "c1", "success": false, "error": "Command handler timeout",
                "error_code": "vendor_api_error"}"#
        )
    );
    assert_eq!(
        ack(HandlerReply::Unavailable),
        value(
            r#"{"command_id": "c1", "success": false, "error": "Command handler not available",
                "error_code": "vendor_api_error"}"#
        )
    );
    assert_eq!(
        parts(&command_ack("c2", true, None, None)),
        ("command_ack".to_string(), value(r#"{"command_id": "c2", "success": true}"#))
    );
    let e = CommandError::new("vendor_api_error", "refused".to_string());
    assert_eq!(
        parts(&command_refused("c3", &e)).1,
        value(
            r#"{"command_id": "c3", "success": false, "error": "refused",
                "error_code": "vendor_api_error"}"#
        )
    );
}

#[test]
fn the_acknowledgement_goes_before_the_configuration() {
    assert!(is_config_request(&json(r#"{"type": "get_config"}"#)));
    let sent: Vec<(String, Value)> = config_replies("c1", json("[1]")).iter().map(parts).collect();
    assert_eq!(
        sent,
        vec![
            ("command_ack".to_string(), value(r#"{"command_id": "c1", "success": true}"#)),
            ("config_response".to_string(), value("[1]")),
        ]
    );
}

#[test]
fn upgrades_are_told() {
    let e = upgrade_event(&UpgradeEvent {
        severity: "critical".to_string(),
        error_code: "upgrade_rolled_back".to_string(),
        message: "rolled back".to_string(),
        from_version: Some("2".to_string()),
        to_version: None,
        channel: Some("stable".to_string()),
        size_bytes: Some(7),
    });
    assert_eq!(e.severity, EventSeverity::Critical);
    assert_eq!(e.category, "upgrade");
    assert_eq!(e.error_code.as_deref(), Some("upgrade_rolled_back"));
    let sent = to_value(&e.to_payload("rolled back"));
    assert_eq!(sent["severity"], value(r#""critical""#));
    assert_eq!(sent["message"], value(r#""rolled back""#));
    assert_eq!(sent["error_code"], value(r#""upgrade_rolled_back""#));
    assert_eq!(sent["details"]["size_bytes"], value("7"));
    assert_eq!(
        to_value(&e.details.unwrap()),
        value(
            r#"{"error_code": "upgrade_rolled_back", "from_version": "2", "channel": "stable",
                "size_bytes": 7}"#
        )
    );
    let p = profile();
    assert_eq!(p.repo, "Bilbycast/bilbycast-appear-x-api-gateway");
    assert_eq!(p.device_type, "appear_x");
    assert_eq!(p.allowed_signers.len(), 1);
    assert_eq!(p.allowed_signers[0].ref_pattern, "refs/tags/v*");
}

#[test]
fn events_are_sent_with_what_they_have() {
    let e = GatewayEvent::info("alarm", "m".to_string());
    assert_eq!(
        to_value(&e.to_payload("m")),
        value(r#"{"severity": "info", "category": "alarm", "message": "m"}"#)
    );
    assert_eq!(EventSeverity::Minor.as_str(), "minor");
    assert_eq!(EventSeverity::Major.as_str(), "major");
}

const ABC: &str = "ba:78:16:bf:8f:01:cf:ea:41:41:40:de:5d:ae:22:23:b0:03:61:a3:96:17:7a:9c:b4:10:ff:61:f2:00:15:ad";

#[test]
fn digests_of_known_messages() {
    assert_eq!(
        make_fingerprint(&sha256_digest(b"")).replace(':', ""),
        "e3b0c44298fc1c149afbf4c8996fb92427ae41e4649b934ca495991b7852b855"
    );
    assert_eq!(make_fingerprint(&sha256_digest(b"abc")), ABC);
    assert_eq!(
        make_fingerprint(&sha256_digest(b"abcdbcdecdefdefgefghfghighijhijkijkljklmklmnlmnomnopnopq"))
            .replace(':', ""),
        "248d6a61d20638b8e5c026930c3e6039a33ce45964ff2167f6ecedd419db06c1"
    );
    let million = vec![b'a'; 1_000_000];
    assert_eq!(
        make_fingerprint(&sha256_digest(&million)).replace(':', ""),
        "cdc76e5c9914fb9281a1c7e284d73e67f1809a48a497200e046d39ccc7112cd0"
    );
    let mut h = Sha256::new();
    h.write(b"a");
    h.write(b"bc");
    assert_eq!(h.finalize(), sha256_digest(b"abc"));
    assert_eq!(make_fingerprint(&[]), "");
    assert_eq!(make_fingerprint(&[0, 255]), "00:ff");
}

#[test]
fn a_fingerprint_decides_on_a_certificate() {
    assert!(verify_fingerprint(b"abc", ABC).is_ok());
    let e = verify_fingerprint(b"abd", ABC).unwrap_err();
    assert!(e.starts_with(&format!("Certificate fingerprint mismatch. Expected: {ABC}, Got: ")));
    assert!(e.ends_with(". This could indicate a MITM attack or certificate rotation."));
    // What is expected is in lower case, in whatever case it is given.
    let given = ABC.to_uppercase();
    match build_tls_config(true, Some(&given), None) {
        Ok(TlsMode::Pinned { expected_fingerprint }) => {
            assert_eq!(expected_fingerprint, ABC);
            assert!(verify_fingerprint(b"abc", &expected_fingerprint).is_ok());
        }
        other => panic!("expected a fingerprint; got {other:?}"),
    }
    assert!(matches!(
        build_tls_config(false, Some("ÄB"), None),
        Ok(TlsMode::Pinned { expected_fingerprint }) if expected_fingerprint == "äb"
    ));
}

#[test]
fn any_certificate_needs_to_be_confirmed() {
    assert!(matches!(build_tls_config(true, None, Some("1")), Ok(TlsMode::Insecure)));
    assert!(matches!(build_tls_config(true, Some(""), Some("1")), Ok(TlsMode::Insecure)));
    assert!(matches!(build_tls_config(false, None, Some("1")), Ok(TlsMode::Standard)));
    for allow in [None, Some("0"), Some("true"), Some("")] {
        assert_eq!(
            build_tls_config(true, None, allow).unwrap_err(),
            "accept_self_signed_cert is enabled but BILBYCAST_ALLOW_INSECURE=1 is not set. Set this \
             environment variable to confirm you understand the security implications."
        );
    }
}

#[test]
fn the_unit_is_trusted_by_its_own_rules() {
    let mode = |fp: Option<&str>, accept: bool| {
        unit_tls_mode(&AppearXConfig {
            address: "u".to_string(),
            username: "n".to_string(),
            password: "p".to_string(),
            accept_self_signed_cert: accept,
            cert_fingerprint: fp.map(|s| s.to_string()),
            reachability_failure_threshold: 2,
            reachability_event_dwell_secs: 30,
        })
    };
    assert!(matches!(mode(None, true), TlsMode::Insecure));
    assert!(matches!(mode(None, false), TlsMode::Standard));
    assert!(matches!(
        mode(Some("AB:cd"), true),
        TlsMode::Pinned { expected_fingerprint } if expected_fingerprint == "ab:cd"
    ));
}

//! Calls to the unit and its discovery.

use std::collections::BTreeMap;

use appear_x_gateway::appear_x::capabilities::DeviceCapabilities;
use appear_x_gateway::appear_x::discovery::{
    cards_mmi_versions, discover, extract_software_info, DiscoveryError,
};
use appear_x_gateway::appear_x::jsonrpc::{
    extract_result, is_session_over, make_method_name, Endpoint, JsonRpcClient, Progress, Reply,
    Request, RpcFault,
};
use appear_x_gateway::appear_x::probe_registry::{card_probes, ProbeParams};
use appear_x_gateway::config::AppearXConfig;
use appear_x_gateway::double::Double;
use appear_x_gateway::json::{Exact, Json, Number, Object, Reading};
use serde_json::Value;

fn to_json(v: &Value) -> Json {
    match v {
        Value::Null => Json::Null,
        Value::Bool(b) => Json::Bool(*b),
        Value::Number(n) => {
            let f = n.as_f64().unwrap();
            let exact = if let Some(u) = n.as_u64() {
                Exact::Unsigned(u)
            } else if let Some(i) = n.as_i64() {
                Exact::Negative(i)
            } else {
                Exact::Float(Double { bits: f.to_bits() })
            };
            let reading = Some(Reading {
                value: Double { bits: f.to_bits() },
                dbm: Double { bits: (10.0 * f.log10()).to_bits() },
            });
            Json::Number(Number { exact, reading })
        }
        Value::String(s) => Json::Text(s.clone()),
        Value::Array(a) => Json::Array(a.iter().map(to_json).collect()),
        Value::Object(m) => {
            let mut o = Object::new();
            for (k, v) in m {
                o.set(k, to_json(v));
            }
            Json::Object(o)
        }
    }
}

fn to_value(j: &Json) -> Value {
    match j {
        Json::Null => Value::Null,
        Json::Bool(b) => Value::from(*b),
        Json::Number(n) => match n.exact {
            Exact::Unsigned(u) => Value::from(u),
            Exact::Negative(i) => Value::from(i),
            Exact::Float(d) => Value::from(f64::from_bits(d.bits)),
        },
        Json::Text(s) => Value::from(s.clone()),
        Json::Array(a) => Value::Array(a.iter().map(to_value).collect()),
        Json::Object(o) => {
            let mut m = serde_json::Map::new();
            for member in &o.members {
                m.insert(member.key.clone(), to_value(&member.value));
            }
            Value::Object(m)
        }
    }
}

fn value(text: &str) -> Value {
    serde_json::from_str(text).unwrap()
}

fn json(text: &str) -> Json {
    to_json(&value(text))
}

fn client() -> JsonRpcClient {
    JsonRpcClient::new(&AppearXConfig {
        address: "10.0.0.1".to_string(),
        username: "admin".to_string(),
        password: "pw".to_string(),
        accept_self_signed_cert: true,
        cert_fingerprint: None,
        reachability_failure_threshold: 2,
        reachability_event_dwell_secs: 30,
    })
}

fn ok(body: &str) -> Reply {
    Reply::Answer { status: 200, body: json(body) }
}

fn message(r: Result<Json, RpcFault>) -> String {
    match r {
        Err(RpcFault::Message(s)) => s,
        other => panic!("expected a message; got {other:?}"),
    }
}

#[test]
fn a_session_is_opened_with_the_credentials() {
    let mut c = client();
    let post = c.authenticate();
    assert_eq!(post.url, "https://10.0.0.1/mmi/api/jsonrpc");
    assert_eq!(post.bearer, None);
    assert_eq!(
        to_value(&post.body),
        value(
            r#"{"jsonrpc": "2.0", "method": "mmi:1.0/authentication/BeginSession",
                "params": {"local": {"username": "admin", "password": "pw"}}, "id": 1}"#
        )
    );
    assert!(c.authenticated(ok(r#"{"result": {"accessToken": "t"}}"#)).is_ok());
}

#[test]
fn a_session_may_be_refused() {
    let mut c = client();
    let refused = |c: &mut JsonRpcClient, reply| match c.authenticated(reply) {
        Err(RpcFault::Message(s)) => s,
        other => panic!("expected a message; got {other:?}"),
    };
    assert_eq!(
        refused(&mut c, ok(r#"{"error": {"data": {"message": "bad password"}, "message": "x"}}"#)),
        "BeginSession failed: bad password"
    );
    assert_eq!(
        refused(&mut c, ok(r#"{"error": {"message": "x"}}"#)),
        "BeginSession failed: unknown error"
    );
    assert_eq!(
        refused(&mut c, ok(r#"{"result": {}}"#)),
        "BeginSession response missing accessToken"
    );
    assert!(matches!(
        c.authenticated(Reply::NotSent),
        Err(RpcFault::Exchange(Some(s))) if s == "BeginSession request failed"
    ));
    assert!(matches!(c.authenticated(Reply::Unreadable), Err(RpcFault::Exchange(None))));
}

#[test]
fn a_call_opens_a_session_first() {
    let mut c = client();
    let mut call = c.call_board(31, "Xger:2.55/cardStatus/GetCardStatus", json(r#"{"slot": 31}"#));
    let post = call.request(&mut c);
    assert_eq!(post.bearer, None);
    let call = call.answer(&mut c, ok(r#"{"result": {"accessToken": "t1"}}"#));
    let mut call = match call {
        Progress::Again(call) => call,
        other => panic!("expected another exchange; got {other:?}"),
    };
    let post = call.request(&mut c);
    assert_eq!(post.url, "https://10.0.0.1/board/1F/api/jsonrpc");
    assert_eq!(post.bearer.as_deref(), Some("t1"));
    assert_eq!(
        to_value(&post.body),
        value(
            r#"{"jsonrpc": "2.0", "method": "Xger:2.55/cardStatus/GetCardStatus",
                "params": {"slot": 31}, "id": 2}"#
        )
    );
    match call.answer(&mut c, ok(r#"{"result": [1, 2]}"#)) {
        Progress::Finished(Ok(r)) => assert_eq!(to_value(&r), value("[1, 2]")),
        other => panic!("expected a result; got {other:?}"),
    }
    // The session stays open.
    let mut next = c.call_mmi("m", json("{}"));
    assert_eq!(next.request(&mut c).bearer.as_deref(), Some("t1"));
}

#[test]
fn a_session_that_is_over_is_renewed_once() {
    let mut c = client();
    c.authenticate();
    c.authenticated(ok(r#"{"result": {"accessToken": "t1"}}"#)).unwrap();
    let mut call = c.call_mmi("mmi:2.8/alarms/GetActiveAlarms", json("{}"));
    let first = call.request(&mut c);
    let over = Reply::Answer { status: 401, body: json("{}") };
    let mut call = match call.answer(&mut c, over) {
        Progress::Again(call) => call,
        other => panic!("expected another exchange; got {other:?}"),
    };
    let post = call.request(&mut c);
    assert_eq!(
        post.body.get("method").unwrap().as_str(),
        Some("mmi:1.0/authentication/BeginSession")
    );
    let mut call = match call.answer(&mut c, ok(r#"{"result": {"accessToken": "t2"}}"#)) {
        Progress::Again(call) => call,
        other => panic!("expected another exchange; got {other:?}"),
    };
    let second = call.request(&mut c);
    assert_eq!(second.bearer.as_deref(), Some("t2"));
    assert_eq!(second.url, first.url);
    assert_eq!(to_value(&second.body), to_value(&first.body));
    // Being told again that the session is over is a result like any other.
    let again = Reply::Answer { status: 401, body: json(r#"{"error": {"message": "no"}}"#) };
    match call.answer(&mut c, again) {
        Progress::Finished(r) => {
            assert_eq!(message(r), "RPC mmi:2.8/alarms/GetActiveAlarms failed: no")
        }
        other => panic!("expected an end; got {other:?}"),
    }
}

#[test]
fn the_end_of_a_session_has_a_code() {
    assert!(is_session_over(401, &json("{}")));
    assert!(is_session_over(200, &json(r#"{"error": {"code": -32600}}"#)));
    assert!(!is_session_over(200, &json(r#"{"error": {"code": -32601}}"#)));
    assert!(!is_session_over(403, &json(r#"{"error": {"code": -32600.0}}"#)));
}

#[test]
fn exchanges_that_fail_end_a_call() {
    let mut c = client();
    c.authenticated(ok(r#"{"result": {"accessToken": "t1"}}"#)).unwrap();
    let call = c.call_mmi("m", json("{}"));
    assert!(matches!(
        call.answer(&mut c, Reply::NotSent),
        Progress::Finished(Err(RpcFault::Exchange(Some(s)))) if s == "RPC call to m failed"
    ));
    let call = c.call_mmi("m", json("{}"));
    assert!(matches!(
        call.answer(&mut c, Reply::Unreadable),
        Progress::Finished(Err(RpcFault::Exchange(None)))
    ));
}

#[test]
fn results_and_errors_are_told_apart() {
    assert_eq!(to_value(&extract_result(&json(r#"{"result": 3}"#), "m").unwrap()), value("3"));
    assert_eq!(to_value(&extract_result(&json("{}"), "m").unwrap()), Value::Null);
    let told = |s: &str| message(extract_result(&json(s), "m"));
    assert_eq!(
        told(r#"{"error": {"data": {"message": "detailed"}, "message": "plain"}}"#),
        "RPC m failed: detailed"
    );
    assert_eq!(told(r#"{"error": {"message": "plain"}}"#), "RPC m failed: plain");
    assert_eq!(told(r#"{"error": null, "result": 1}"#), "RPC m failed: unknown error");
}

#[test]
fn methods_are_named_by_interface_version_module_and_command() {
    assert_eq!(
        make_method_name("ipGateway", "1.15", "input", "GetInputs"),
        "ipGateway:1.15/input/GetInputs"
    );
}

/// Answers a discovery until it has nothing left to ask.
fn explore(answer: &dyn Fn(&Request) -> Option<Json>) -> Result<DeviceCapabilities, DiscoveryError> {
    let mut d = discover(cards_mmi_versions());
    assert!(d.request().is_none());
    d = d.session_opened(true);
    while let Some(q) = d.request() {
        let reply = answer(&q);
        d = d.answer(reply);
    }
    d.finish().unwrap()
}

#[test]
fn the_names_of_the_registry_differ() {
    let mut names: Vec<String> =
        card_probes().iter().map(|p| format!("{}/{}", p.interface, p.module)).collect();
    names.sort();
    let all = names.len();
    names.dedup();
    assert_eq!((all, names.len()), (26, 26));
}

#[test]
fn a_unit_is_explored_slot_by_slot() {
    let caps = explore(&|q| {
        match (q.endpoint, q.method.as_str()) {
            (Endpoint::Mmi, "mmi:4.1/cards/GetChassisInfo") => Some(json(
                r#"{"data": {"chassisType": "X20_2RU", "cards": [
                    {"value": {"slot": 2, "name": "X5", "serial": "s2", "features": ["sdi", 7, "srt"]}},
                    {"value": {"name": "no slot"}},
                    {"key": "no value"},
                    {"value": {"slot": 1}},
                    {"value": {"slot": 4294967298, "name": "again"}}
                ]}}"#,
            )),
            (Endpoint::Mmi, "mmi:4.1/cards/GetCardStates") => Some(json(
                r#"{"cards": [{"slot": 2, "logical": {"value": {
                    "configSwInfo": {"value": {"softwareId": "configured"}},
                    "login": {"value": {"swInfo": {"value": {"softwareId": "net.appear.x5", "displayName": "X5", "ver": "3.1"}}}}
                }}}]}"#,
            )),
            (Endpoint::Board(1), m) if m.starts_with("Xger:") && m.ends_with("/cardStatus/GetCardStatus") => {
                assert_eq!(to_value(&q.params), value(r#"{"slot": 1}"#));
                Some(json("{}"))
            }
            _ => None,
        }
    })
    .unwrap();
    assert_eq!(caps.chassis_type, "X20_2RU");
    assert_eq!(caps.cards_mmi_version, "4.1");
    assert_eq!(caps.slots.keys().copied().collect::<Vec<u32>>(), vec![1, 2]);
    // The number of the last card was cut to 2.
    assert_eq!(caps.slots[&2].name, "again");
    assert_eq!(caps.slots[&2].software_id.as_deref(), Some("net.appear.x5"));
    assert_eq!(caps.slots[&2].software_version.as_deref(), Some("3.1"));
    assert!(caps.slots[&2].discovered_modules.is_empty());
    assert!(caps.slots[&1].has_module("Xger", "cardStatus"));
    assert!(!caps.slots[&2].has_module("Xger", "cardStatus"));
    // The newest version was asked for first.
    let newest = card_probes()
        .into_iter()
        .find(|p| p.interface == "Xger" && p.module == "cardStatus")
        .unwrap()
        .versions[0];
    assert_eq!(caps.slots[&1].module_version("Xger", "cardStatus").as_deref(), Some(newest));
    assert_eq!(caps.slots[&1].any_interface_version("Xger").as_deref(), Some(newest));
    assert_eq!(caps.summary(), "chassis=X20_2RU mmi:4.1 slots=2 discovered_interfaces=1");
}

#[test]
fn features_that_are_no_texts_are_left_out() {
    let caps = explore(&|q| match q.method.as_str() {
        "mmi:2.8/cards/GetChassisInfo" => Some(json(
            r#"{"data": {"cards": [{"value": {"slot": 2, "features": ["sdi", 7, "srt"]}}]}}"#,
        )),
        _ => None,
    })
    .unwrap();
    assert_eq!(caps.chassis_type, "unknown");
    assert_eq!(caps.slots[&2].features, vec!["sdi", "srt"]);
    assert_eq!(caps.slots[&2].software_id, None);
}

#[test]
fn a_unit_without_an_answer_has_no_chassis() {
    let asked = std::cell::RefCell::new(Vec::new());
    let e = explore(&|q| {
        asked.borrow_mut().push(q.method.clone());
        None
    })
    .unwrap_err();
    assert_eq!(e, DiscoveryError::NoChassis);
    assert_eq!(
        e.message(),
        "None of the configured MMI versions responded to cards/GetChassisInfo. Set \
         polling.cards_mmi_version explicitly in config.toml."
    );
    assert_eq!(
        *asked.borrow(),
        vec![
            "mmi:2.8/cards/GetChassisInfo",
            "mmi:2.16/cards/GetChassisInfo",
            "mmi:4.1/cards/GetChassisInfo",
            "mmi:1.0/cards/GetChassisInfo"
        ]
    );
}

#[test]
fn without_a_session_nothing_is_asked() {
    let d = discover(cards_mmi_versions()).session_opened(false);
    assert!(d.request().is_none());
    let e = d.finish().unwrap().unwrap_err();
    assert_eq!(e, DiscoveryError::NotAuthenticated);
    assert_eq!(e.message(), "Failed to authenticate with Appear unit during discovery");
    assert!(discover(cards_mmi_versions()).finish().is_none());
}

#[test]
fn the_software_that_runs_counts() {
    let configured = json(r#"{"logical": {"value": {"configSwInfo": {"value": {"softwareId": "c", "ver": 3}}}}}"#);
    assert_eq!(extract_software_info(Some(&configured)), (Some("c".to_string()), None, None));
    assert_eq!(extract_software_info(None), (None, None, None));
}

#[test]
fn probes_only_read() {
    let probes = card_probes();
    let mut by_key: BTreeMap<(&str, &str), usize> = BTreeMap::new();
    for p in &probes {
        assert!(p.command.starts_with("Get"));
        assert!(!p.versions.is_empty());
        *by_key.entry((p.interface, p.module)).or_default() += 1;
    }
    assert_eq!(to_value(&ProbeParams::Slot.to_json(3)), value(r#"{"slot": 3}"#));
    assert_eq!(to_value(&ProbeParams::Empty.to_json(3)), value("{}"));
    assert_eq!(to_value(&ProbeParams::EmptyQuery.to_json(3)), value(r#"{"query": {}}"#));
}

//! Messages to the manager.

use vstd::prelude::*;

use crate::appear_x::commands::CommandError;
use crate::appear_x::health;
use crate::clock::{self, Moment};
use crate::json::{self, Json, JsonView, Object};

verus! {

/// The version of the gateway.
pub open spec fn version_text() -> Seq<char> {
    "0.4.0"@
}

/// The version of the gateway.
pub fn software_version() -> (r: &'static str)
    ensures
        r@ == version_text(),
{
    "0.4.0"
}

/// What kind of device the gateway stands for.
pub open spec fn device_type_text() -> Seq<char> {
    "appear_x"@
}

/// The version of the protocol.
pub const PROTOCOL_VERSION: u64 = 1;

/// A command that the manager sent.
#[derive(Debug)]
pub struct CommandMessage {
    pub command_id: String,
    pub action: Json,
}

/// A message of a type, with the time at which it was made.
pub open spec fn envelope(msg_type: Seq<char>, payload: JsonView, at: Moment) -> JsonView {
    JsonView::Object(
        Map::empty().insert("type"@, JsonView::Text(msg_type)).insert(
            "timestamp"@,
            JsonView::Text(clock::rfc3339(at.secs, at.nanos)),
        ).insert("payload"@, payload),
    )
}

/// Whether a value is a message of a type that was made at some time.
pub open spec fn is_envelope(value: JsonView, msg_type: Seq<char>, payload: JsonView) -> bool {
    exists|at: Moment| at.valid() && value == #[trigger] envelope(msg_type, payload, at)
}

/// A message of a type, made now.
pub fn ws_envelope(msg_type: &str, payload: Json) -> (r: Json)
    ensures
        is_envelope(r@, msg_type@, payload@),
{
    let at = clock::now();
    ws_envelope_at(msg_type, payload, at)
}

/// A message of a type, made at the given moment.
pub fn ws_envelope_at(msg_type: &str, payload: Json, at: Moment) -> (r: Json)
    requires
        at.valid(),
    ensures
        r@ == envelope(msg_type@, payload@, at),
{
    let mut o = Object::new();
    o.set("type", Json::from_text(msg_type));
    o.set("timestamp", Json::Text(clock::to_rfc3339(at)));
    o.set("payload", payload);
    Json::Object(o)
}

/// What a gateway says that is not known to the manager yet.
pub open spec fn register_payload(token: Seq<char>) -> JsonView {
    JsonView::Object(
        Map::empty().insert("registration_token"@, JsonView::Text(token)).insert(
            "software_version"@,
            JsonView::Text(version_text()),
        ).insert("protocol_version"@, JsonView::of_unsigned(PROTOCOL_VERSION as nat)).insert(
            "device_type"@,
            JsonView::Text(device_type_text()),
        ),
    )
}

/// What a gateway says that is known to the manager.
pub open spec fn reconnect_payload(node_id: Seq<char>, node_secret: Seq<char>) -> JsonView {
    JsonView::Object(
        Map::empty().insert("node_id"@, JsonView::Text(node_id)).insert(
            "node_secret"@,
            JsonView::Text(node_secret),
        ).insert("software_version"@, JsonView::Text(version_text())).insert(
            "protocol_version"@,
            JsonView::of_unsigned(PROTOCOL_VERSION as nat),
        ).insert("device_type"@, JsonView::Text(device_type_text())),
    )
}

/// The first message of a gateway that is not known to the manager yet.
pub fn auth_register(registration_token: &str) -> (r: Json)
    ensures
        is_envelope(r@, "auth"@, register_payload(registration_token@)),
{
    let mut o = Object::new();
    o.set("registration_token", Json::from_text(registration_token));
    o.set("software_version", Json::from_text(software_version()));
    o.set("protocol_version", Json::from_u64(PROTOCOL_VERSION));
    o.set("device_type", Json::from_text("appear_x"));
    ws_envelope("auth", Json::Object(o))
}

/// The first message of a gateway that is known to the manager.
pub fn auth_reconnect(node_id: &str, node_secret: &str) -> (r: Json)
    ensures
        is_envelope(r@, "auth"@, reconnect_payload(node_id@, node_secret@)),
{
    let mut o = Object::new();
    o.set("node_id", Json::from_text(node_id));
    o.set("node_secret", Json::from_text(node_secret));
    o.set("software_version", Json::from_text(software_version()));
    o.set("protocol_version", Json::from_u64(PROTOCOL_VERSION));
    o.set("device_type", Json::from_text("appear_x"));
    ws_envelope("auth", Json::Object(o))
}

/// A snapshot of the state.
pub fn stats_message(payload: Json) -> (r: Json)
    ensures
        is_envelope(r@, "stats"@, payload@),
{
    ws_envelope("stats", payload)
}

/// A heartbeat.
pub fn health_message(payload: Json) -> (r: Json)
    ensures
        is_envelope(r@, "health"@, payload@),
{
    ws_envelope("health", payload)
}

/// The configuration that the manager asked for, as it stands.
pub fn config_response_message(config: Json) -> (r: Json)
    ensures
        is_envelope(r@, "config_response"@, config@),
{
    ws_envelope("config_response", config)
}

/// What the manager is told of a command.
pub open spec fn ack_payload(
    command_id: Seq<char>,
    success: bool,
    data: Option<JsonView>,
    error: Option<Seq<char>>,
) -> Map<Seq<char>, JsonView> {
    let m = Map::empty().insert("command_id"@, JsonView::Text(command_id)).insert(
        "success"@,
        JsonView::Bool(success),
    );
    let m = health::put(m, "data"@, data);
    health::put(
        m,
        "error"@,
        match error {
            Some(e) => Some(JsonView::Text(e)),
            None => None,
        },
    )
}

fn make_ack_payload(command_id: &str, success: bool, data: Option<Json>, error: Option<&str>) -> (r:
    Object)
    ensures
        r@ == ack_payload(
            command_id@,
            success,
            match data {
                Some(d) => Some(d@),
                None => None,
            },
            json::text_view(error),
        ),
{
    let mut o = Object::new();
    o.set("command_id", Json::from_text(command_id));
    o.set("success", Json::Bool(success));
    match data {
        Some(d) => {
            o.set("data", d);
        },
        None => {},
    }
    match error {
        Some(e) => {
            o.set("error", Json::from_text(e));
        },
        None => {},
    }
    o
}

/// What became of a command.
pub fn command_ack(command_id: &str, success: bool, data: Option<Json>, error: Option<&str>) -> (r:
    Json)
    ensures
        is_envelope(
            r@,
            "command_ack"@,
            JsonView::Object(
                ack_payload(
                    command_id@,
                    success,
                    match data {
                        Some(d) => Some(d@),
                        None => None,
                    },
                    json::text_view(error),
                ),
            ),
        ),
{
    let o = make_ack_payload(command_id, success, data, error);
    ws_envelope("command_ack", Json::Object(o))
}

/// What the manager is told of a command that failed: the code of the error as well.
pub open spec fn failure_payload(
    command_id: Seq<char>,
    data: Option<JsonView>,
    error: Option<Seq<char>>,
    code: Seq<char>,
) -> Map<Seq<char>, JsonView> {
    ack_payload(command_id, false, data, error).insert("error_code"@, JsonView::Text(code))
}

/// What became of a command that failed, with the code of the error.
pub fn command_failed(command_id: &str, data: Option<Json>, error: Option<&str>, code: &str) -> (r:
    Json)
    ensures
        is_envelope(
            r@,
            "command_ack"@,
            JsonView::Object(
                failure_payload(
                    command_id@,
                    match data {
                        Some(d) => Some(d@),
                        None => None,
                    },
                    json::text_view(error),
                    code@,
                ),
            ),
        ),
{
    let mut o = make_ack_payload(command_id, false, data, error);
    o.set("error_code", Json::from_text(code));
    ws_envelope("command_ack", Json::Object(o))
}

/// What became of a command that was refused, with the code of the error.
pub fn command_refused(command_id: &str, error: &CommandError) -> (r: Json)
    ensures
        is_envelope(
            r@,
            "command_ack"@,
            JsonView::Object(
                failure_payload(command_id@, None, Some(error@.message()), error@.code()),
            ),
        ),
{
    let message = error.message();
    let code = error.code();
    command_failed(command_id, None, Some(message.as_str()), code.as_str())
}

/// An event.
pub fn event_message(payload: Json) -> (r: Json)
    ensures
        is_envelope(r@, "event"@, payload@),
{
    ws_envelope("event", payload)
}

/// The answer to a ping.
pub fn pong_message() -> (r: Json)
    ensures
        is_envelope(r@, "pong"@, json::no_members()),
{
    ws_envelope("pong", Json::empty())
}

} // verus!

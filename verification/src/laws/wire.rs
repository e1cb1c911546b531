//! What goes to the unit and to the manager, and what their answers mean.

use vstd::prelude::*;

use crate::appear_x::jsonrpc::{
    self, CallView, ClientView, Endpoint, FaultView, JsonRpcClient, PostView, ProgressView, ReplyView,
    RequestView, Stage,
};
use crate::clock::{self, Moment};
use crate::config::AppearXConfig;
use crate::credentials::CredentialsView;
use crate::event::{EventSeverity, PartView};
use crate::json::{self, Exact, Json, JsonView, Number};
use crate::laws::values;
use crate::text;
use crate::upgrade::{self, AllowedSigner, UpgradeEvent, UpgradeProfile};
use crate::ws::client::{self, AuthFault, ConnectResult, HandlerView, ManagerView};
use crate::ws::message;
use crate::ws::tls::{self, ModeView};

verus! {

/// Tells the words apart by their length and some of their letters.
spec fn mark(name: Seq<char>) -> int {
    ((name.len() as int) * 256 + values::letter(name, 0)) * 256 + values::letter(name, 1)
}

proof fn lemma_names()
    ensures
        mark("type"@) == 291961,
        mark("timestamp"@) == 619625,
        mark("payload"@) == 487521,
        mark("registration_token"@) == 1208933,
        mark("software_version"@) == 1078127,
        mark("protocol_version"@) == 1077362,
        mark("device_type"@) == 746597,
        mark("node_id"@) == 487023,
        mark("node_secret"@) == 749167,
        mark("command_id"@) == 680815,
        mark("success"@) == 488309,
        mark("data"@) == 287841,
        mark("error"@) == 353650,
        mark("error_code"@) == 681330,
        mark("status"@) == 422772,
        mark("version"@) == 489061,
        mark("_msg_type"@) == 614253,
        mark("health"@) == 419941,
        mark("stats"@) == 357236,
        mark("command"@) == 484207,
        mark("ping"@) == 290921,
        mark("register_ack"@) == 815717,
        mark("auth_ok"@) == 483701,
        mark("auth_error"@) == 680309,
        mark("jsonrpc"@) == 486003,
        mark("method"@) == 421221,
        mark("params"@) == 421985,
        mark("id"@) == 158052,
        mark("local"@) == 355439,
        mark("username"@) == 554355,
        mark("password"@) == 553057,
        mark("from_version"@) == 812658,
        mark("to_version"@) == 685167,
        mark("channel"@) == 484200,
        mark("size_bytes"@) == 684905,
        mark("critical"@) == 549746,
        mark("major"@) == 355681,
        mark("minor"@) == 355689,
        mark("auth"@) == 287093,
{
    assert(mark("type"@) == 291961) by {
        reveal_strlit("type");
    }
    assert(mark("timestamp"@) == 619625) by {
        reveal_strlit("timestamp");
    }
    assert(mark("payload"@) == 487521) by {
        reveal_strlit("payload");
    }
    assert(mark("registration_token"@) == 1208933) by {
        reveal_strlit("registration_token");
    }
    assert(mark("software_version"@) == 1078127) by {
        reveal_strlit("software_version");
    }
    assert(mark("protocol_version"@) == 1077362) by {
        reveal_strlit("protocol_version");
    }
    assert(mark("device_type"@) == 746597) by {
        reveal_strlit("device_type");
    }
    assert(mark("node_id"@) == 487023) by {
        reveal_strlit("node_id");
    }
    assert(mark("node_secret"@) == 749167) by {
        reveal_strlit("node_secret");
    }
    assert(mark("command_id"@) == 680815) by {
        reveal_strlit("command_id");
    }
    assert(mark("success"@) == 488309) by {
        reveal_strlit("success");
    }
    assert(mark("data"@) == 287841) by {
        reveal_strlit("data");
    }
    assert(mark("error"@) == 353650) by {
        reveal_strlit("error");
    }
    assert(mark("error_code"@) == 681330) by {
        reveal_strlit("error_code");
    }
    assert(mark("status"@) == 422772) by {
        reveal_strlit("status");
    }
    assert(mark("version"@) == 489061) by {
        reveal_strlit("version");
    }
    assert(mark("_msg_type"@) == 614253) by {
        reveal_strlit("_msg_type");
    }
    assert(mark("health"@) == 419941) by {
        reveal_strlit("health");
    }
    assert(mark("stats"@) == 357236) by {
        reveal_strlit("stats");
    }
    assert(mark("command"@) == 484207) by {
        reveal_strlit("command");
    }
    assert(mark("ping"@) == 290921) by {
        reveal_strlit("ping");
    }
    assert(mark("register_ack"@) == 815717) by {
        reveal_strlit("register_ack");
    }
    assert(mark("auth_ok"@) == 483701) by {
        reveal_strlit("auth_ok");
    }
    assert(mark("auth_error"@) == 680309) by {
        reveal_strlit("auth_error");
    }
    assert(mark("jsonrpc"@) == 486003) by {
        reveal_strlit("jsonrpc");
    }
    assert(mark("method"@) == 421221) by {
        reveal_strlit("method");
    }
    assert(mark("params"@) == 421985) by {
        reveal_strlit("params");
    }
    assert(mark("id"@) == 158052) by {
        reveal_strlit("id");
    }
    assert(mark("local"@) == 355439) by {
        reveal_strlit("local");
    }
    assert(mark("username"@) == 554355) by {
        reveal_strlit("username");
    }
    assert(mark("password"@) == 553057) by {
        reveal_strlit("password");
    }
    assert(mark("from_version"@) == 812658) by {
        reveal_strlit("from_version");
    }
    assert(mark("to_version"@) == 685167) by {
        reveal_strlit("to_version");
    }
    assert(mark("channel"@) == 484200) by {
        reveal_strlit("channel");
    }
    assert(mark("size_bytes"@) == 684905) by {
        reveal_strlit("size_bytes");
    }
    assert(mark("critical"@) == 549746) by {
        reveal_strlit("critical");
    }
    assert(mark("major"@) == 355681) by {
        reveal_strlit("major");
    }
    assert(mark("minor"@) == 355689) by {
        reveal_strlit("minor");
    }
    assert(mark("auth"@) == 287093) by {
        reveal_strlit("auth");
    }
}

/// Whether a value is a message of a type with its payload and the time it was made, and no more.
pub open spec fn message_of(value: JsonView, kind: Seq<char>, payload: JsonView) -> bool {
    let told = Some(value);
    &&& values::under(told, "type"@) == Some(JsonView::Text(kind))
    &&& values::under(told, "payload"@) == Some(payload)
    &&& exists|at: Moment| #[trigger]
        at.valid() && values::under(told, "timestamp"@) == Some(
            JsonView::Text(clock::rfc3339(at.secs, at.nanos)),
        )
    &&& forall|key: Seq<char>| #[trigger]
        values::under(told, key) is Some ==> key == "type"@ || key == "payload"@ || key
            == "timestamp"@
}

/// What is sent to the manager has the type, the payload and the time.
pub proof fn law_envelope(value: JsonView, kind: Seq<char>, payload: JsonView)
    ensures
        message::is_envelope(value, kind, payload) ==> message_of(value, kind, payload),
{
    lemma_names();
    if message::is_envelope(value, kind, payload) {
        let at = choose|at: Moment|
            at.valid() && value == #[trigger] message::envelope(kind, payload, at);
        assert(at.valid());
    }
}

/// Each kind of message has its type.
pub proof fn law_message_types(payload: Json, r: Json)
    ensures
        call_ensures(message::stats_message, (payload,), r) ==> message_of(r@, "stats"@, payload@),
        call_ensures(message::health_message, (payload,), r) ==> message_of(
            r@,
            "health"@,
            payload@,
        ),
        call_ensures(message::event_message, (payload,), r) ==> message_of(r@, "event"@, payload@),
        call_ensures(message::config_response_message, (payload,), r) ==> message_of(
            r@,
            "config_response"@,
            payload@,
        ),
        call_ensures(message::pong_message, (), r) ==> message_of(
            r@,
            "pong"@,
            JsonView::Object(Map::empty()),
        ),
{
    law_envelope(r@, "stats"@, payload@);
    law_envelope(r@, "health"@, payload@);
    law_envelope(r@, "event"@, payload@);
    law_envelope(r@, "config_response"@, payload@);
    law_envelope(r@, "pong"@, JsonView::Object(Map::empty()));
}

/// Whether a payload says what the gateway is.
pub open spec fn says_what(told: Option<JsonView>) -> bool {
    &&& values::under(told, "software_version"@) == Some(JsonView::Text("0.4.0"@))
    &&& values::under(told, "protocol_version"@) == Some(values::number(1))
    &&& values::under(told, "device_type"@) == Some(JsonView::Text("appear_x"@))
}

/// A gateway that has a name and a secret tells them; one that has not tells its token; one that has
/// neither cannot say who it is.
pub proof fn law_who_it_is(creds: CredentialsView)
    ensures
        match client::auth_payload(creds) {
            Ok(payload) => {
                let told = Some(payload);
                &&& says_what(told)
                &&& creds.node_id is Some && creds.node_secret is Some ==> {
                    &&& values::under(told, "node_id"@) == values::maybe_text(creds.node_id)
                    &&& values::under(told, "node_secret"@) == values::maybe_text(creds.node_secret)
                    &&& forall|key: Seq<char>| #[trigger]
                        values::under(told, key) is Some ==> key == "node_id"@ || key
                            == "node_secret"@ || key == "software_version"@ || key
                            == "protocol_version"@ || key == "device_type"@
                }
                &&& creds.node_id is None || creds.node_secret is None ==> {
                    &&& creds.registration_token is Some
                    &&& values::under(told, "registration_token"@) == values::maybe_text(
                        creds.registration_token,
                    )
                    &&& forall|key: Seq<char>| #[trigger]
                        values::under(told, key) is Some ==> key == "registration_token"@ || key
                            == "software_version"@ || key == "protocol_version"@ || key
                            == "device_type"@
                }
            },
            Err(e) => {
                &&& e is NoCredentials
                &&& creds.registration_token is None
                &&& creds.node_id is None || creds.node_secret is None
            },
        },
{
    lemma_names();
}

/// Both ways to say who the gateway is are messages of one type.
pub proof fn law_auth_messages(token: &str, node_id: &str, node_secret: &str, r: Json)
    ensures
        call_ensures(message::auth_register, (token,), r) ==> {
            &&& message_of(r@, "auth"@, message::register_payload(token@))
            &&& says_what(Some(message::register_payload(token@)))
            &&& values::under(Some(message::register_payload(token@)), "registration_token"@)
                == Some(JsonView::Text(token@))
        },
        call_ensures(message::auth_reconnect, (node_id, node_secret), r) ==> {
            let payload = message::reconnect_payload(node_id@, node_secret@);
            &&& message_of(r@, "auth"@, payload)
            &&& says_what(Some(payload))
            &&& values::under(Some(payload), "node_id"@) == Some(JsonView::Text(node_id@))
            &&& values::under(Some(payload), "node_secret"@) == Some(JsonView::Text(node_secret@))
        },
{
    lemma_names();
    law_envelope(r@, "auth"@, message::register_payload(token@));
    law_envelope(r@, "auth"@, message::reconnect_payload(node_id@, node_secret@));
}

/// What the manager's answer means, by its type.
pub proof fn law_auth_answer(reply: JsonView, creds: CredentialsView)
    ensures
        ({
            let kind = values::text_in(values::under(Some(reply), "type"@));
            let payload = values::under(Some(reply), "payload"@);
            let id = values::text_in(values::under(payload, "node_id"@));
            let secret = values::text_in(values::under(payload, "node_secret"@));
            let out = client::auth_outcome(reply, creds);
            &&& kind == Some("register_ack"@) && id is None ==> out is Err && out->Err_0 is NoNodeId
            &&& kind == Some("register_ack"@) && id is Some && secret is None ==> out is Err
                && out->Err_0 is NoNodeSecret
            &&& kind == Some("register_ack"@) && id is Some && secret is Some ==> {
                &&& out is Ok
                &&& out->Ok_0.0 is Registered
                &&& out->Ok_0.1.node_id == id
                &&& out->Ok_0.1.node_secret == secret
                &&& out->Ok_0.1.registration_token is None
            }
            &&& kind == Some("auth_ok"@) ==> out is Ok && out->Ok_0.0 is Authenticated
                && out->Ok_0.1 == creds
            &&& kind == Some("auth_error"@) ==> out == Err::<
                (ConnectResult, CredentialsView),
                AuthFault,
            >(AuthFault::Refused(values::text_or(values::under(payload, "error"@), "unknown"@)))
            &&& kind != Some("register_ack"@) && kind != Some("auth_ok"@) && kind != Some(
                "auth_error"@,
            ) ==> out == Err::<(ConnectResult, CredentialsView), AuthFault>(
                AuthFault::Unexpected(
                    match kind {
                        Some(s) => s,
                        None => Seq::empty(),
                    },
                ),
            )
        }),
{
    lemma_names();
    reveal_strlit("");
    assert(""@ == Seq::<char>::empty());
}

/// An answer that cannot be read says so; any other means what it holds.
pub proof fn law_auth_text(s: Seq<char>, creds: CredentialsView)
    ensures
        json::parsed(s) is None ==> client::auth_text_outcome(s, creds) == Err::<
            (ConnectResult, CredentialsView),
            AuthFault,
        >(AuthFault::Unreadable),
        json::parsed(s) matches Some(reply) ==> client::auth_text_outcome(s, creds)
            == client::auth_outcome(reply, creds),
{
}

/// Why the manager did not accept the gateway, in words.
pub proof fn law_auth_faults(e: AuthFault)
    ensures
        e.message() == match e {
            AuthFault::NoCredentials => "No credentials or registration token available"@,
            AuthFault::NoNodeId => "register_ack missing node_id"@,
            AuthFault::NoNodeSecret => "register_ack missing node_secret"@,
            AuthFault::Refused(s) => "Authentication failed: "@ + s,
            AuthFault::Unexpected(s) => "Unexpected auth response type: "@ + s,
            AuthFault::Unreadable => "Auth response is not JSON"@,
        },
{
}

/// Measurements go out as such unless they are marked as a sign of life; the mark itself stays here.
pub proof fn law_outgoing(stats: JsonView)
    ensures
        client::outgoing(stats).0 == (if values::under(Some(stats), "_msg_type"@) == Some(
            JsonView::Text("health"@),
        ) {
            "health"@
        } else {
            "stats"@
        }),
        values::under(Some(client::outgoing(stats).1), "_msg_type"@) is None,
        forall|key: Seq<char>|
            key != "_msg_type"@ ==> #[trigger] values::under(Some(client::outgoing(stats).1), key)
                == values::under(Some(stats), key),
        stats is Object <==> client::outgoing(stats).1 is Object,
        stats !is Object ==> client::outgoing(stats).1 == stats,
{
}

/// What an idle gateway says: that it is well, and its version.
pub proof fn law_heartbeat(r: Json)
    ensures
        call_ensures(client::heartbeat_message, (), r) ==> message_of(
            r@,
            "health"@,
            client::heartbeat(),
        ),
        values::under(Some(client::heartbeat()), "status"@) == Some(JsonView::Text("ok"@)),
        values::under(Some(client::heartbeat()), "version"@) == Some(JsonView::Text("0.4.0"@)),
        forall|key: Seq<char>| #[trigger]
            values::under(Some(client::heartbeat()), key) is Some ==> key == "status"@ || key
                == "version"@,
{
    lemma_names();
    law_envelope(r@, "health"@, client::heartbeat());
}

/// What the manager wants: a command has its identifier and what to do; a ping wants an answer; nothing
/// else is known.
pub proof fn law_wanted(envelope: JsonView)
    ensures
        ({
            let kind = values::under(Some(envelope), "type"@);
            let payload = values::under(Some(envelope), "payload"@);
            &&& kind == Some(JsonView::Text("command"@)) ==> client::wanted(envelope)
                == ManagerView::Command {
                command_id: values::text_or(values::under(payload, "command_id"@), Seq::empty()),
                action: match values::under(payload, "action"@) {
                    Some(a) => a,
                    None => JsonView::Null,
                },
            }
            &&& kind == Some(JsonView::Text("ping"@)) ==> client::wanted(envelope) is Ping
            &&& kind != Some(JsonView::Text("command"@)) && kind != Some(JsonView::Text("ping"@))
                ==> client::wanted(envelope) is Unknown
        }),
{
    lemma_names();
    reveal_strlit("");
    assert(""@ == Seq::<char>::empty());
}

/// Whether a payload answers a command and says no more than the rest of the arguments.
pub open spec fn answers(
    told: Option<JsonView>,
    command_id: Seq<char>,
    success: bool,
    data: Option<JsonView>,
    error: Option<Seq<char>>,
    code: Option<Seq<char>>,
) -> bool {
    &&& values::under(told, "command_id"@) == Some(JsonView::Text(command_id))
    &&& values::under(told, "success"@) == Some(JsonView::Bool(success))
    &&& values::under(told, "data"@) == data
    &&& values::under(told, "error"@) == values::maybe_text(error)
    &&& values::under(told, "error_code"@) == values::maybe_text(code)
    &&& forall|key: Seq<char>| #[trigger]
        values::under(told, key) is Some ==> key == "command_id"@ || key == "success"@ || key
            == "data"@ || key == "error"@ || key == "error_code"@
}

/// A command is answered with what came back: success only where it was said to succeed, with its data
/// and its error, and otherwise with its code or, without one, that of a failed call.
pub proof fn law_command_answer(command_id: Seq<char>, reply: HandlerView)
    ensures
        ({
            let told = Some(client::ack_of(command_id, reply));
            match reply {
                HandlerView::Answered(j) => {
                    let success = values::under(Some(j), "success"@) == Some(JsonView::Bool(true));
                    answers(
                        told,
                        command_id,
                        success,
                        values::under(Some(j), "data"@),
                        values::text_in(values::under(Some(j), "error"@)),
                        if success {
                            None
                        } else {
                            Some(
                                values::text_or(
                                    values::under(Some(j), "error_code"@),
                                    "vendor_api_error"@,
                                ),
                            )
                        },
                    )
                },
                HandlerView::TimedOut => answers(
                    told,
                    command_id,
                    false,
                    None,
                    Some("Command handler timeout"@),
                    Some("vendor_api_error"@),
                ),
                HandlerView::Unavailable => answers(
                    told,
                    command_id,
                    false,
                    None,
                    Some("Command handler not available"@),
                    Some("vendor_api_error"@),
                ),
            }
        }),
{
    lemma_names();
}

/// What answers a command says what it was given.
pub proof fn lemma_answers(
    command_id: Seq<char>,
    success: bool,
    data: Option<JsonView>,
    error: Option<Seq<char>>,
    code: Seq<char>,
)
    ensures
        answers(
            Some(JsonView::Object(message::ack_payload(command_id, success, data, error))),
            command_id,
            success,
            data,
            error,
            None,
        ),
        answers(
            Some(JsonView::Object(message::failure_payload(command_id, data, error, code))),
            command_id,
            false,
            data,
            error,
            Some(code),
        ),
{
    lemma_names();
}

/// The configuration is asked for by one type of command.
pub proof fn law_config_request(action: JsonView)
    ensures
        client::asks_config(action) <==> values::under(Some(action), "type"@) == Some(
            JsonView::Text("get_config"@),
        ),
{
}

/// How long the gateway waits: for an answer to who it is, for a command, and between signs of life.
pub proof fn law_times()
    ensures
        client::AUTH_TIMEOUT_SECS == 10,
        client::COMMAND_TIMEOUT_SECS == 10,
        client::HEARTBEAT_SECS == 300,
        client::MAX_BACKOFF == 30,
{
}

/// Whether a value is a call with the given number and no more than that.
pub open spec fn is_call(body: JsonView, method: Seq<char>, params: JsonView, id: u64) -> bool {
    let told = Some(body);
    &&& values::under(told, "jsonrpc"@) == Some(JsonView::Text("2.0"@))
    &&& values::under(told, "method"@) == Some(JsonView::Text(method))
    &&& values::under(told, "params"@) == Some(params)
    &&& values::under(told, "id"@) == Some(values::number(id as nat))
    &&& forall|key: Seq<char>| #[trigger]
        values::under(told, key) is Some ==> key == "jsonrpc"@ || key == "method"@ || key
            == "params"@ || key == "id"@
}

/// Where the unit takes calls.
pub open spec fn place(base: Seq<char>, endpoint: Endpoint) -> Seq<char> {
    match endpoint {
        Endpoint::Mmi => base + "/mmi/api/jsonrpc"@,
        Endpoint::Board(slot) => base + "/board/"@ + text::hex_upper(slot as nat) + "/api/jsonrpc"@,
    }
}

/// Whether a request opens a session with a name and a password.
pub open spec fn opens_session(p: PostView, c: ClientView) -> bool {
    &&& p.url == c.base_url + "/mmi/api/jsonrpc"@
    &&& p.bearer is None
    &&& is_call(
        p.body,
        "mmi:1.0/authentication/BeginSession"@,
        JsonView::Object(
            Map::empty().insert(
                "local"@,
                JsonView::Object(
                    Map::empty().insert("username"@, JsonView::Text(c.username)).insert(
                        "password"@,
                        JsonView::Text(c.password),
                    ),
                ),
            ),
        ),
        c.request_id,
    )
}

/// The number after another. After the last it starts again.
pub open spec fn next_number(id: u64) -> u64 {
    if id < 0xffff_ffff_ffff_ffff {
        (id + 1) as u64
    } else {
        0
    }
}

/// What a call sends: within a session the call itself, under the session's token and with the next
/// number, and without one the request that opens it.
pub proof fn law_call_is_sent(c: ClientView, request: RequestView)
    ensures
        ({
            let call = jsonrpc::begin(c, request);
            let p = jsonrpc::post_of(call, c);
            let after = jsonrpc::sent(call, c);
            &&& after.1 == ClientView { request_id: next_number(c.request_id), ..c }
            &&& c.token is None ==> {
                &&& call.stage is Login
                &&& opens_session(p, c)
                &&& after.0 == call
            }
            &&& c.token matches Some(token) ==> {
                &&& call.stage is Ask
                &&& p.url == place(c.base_url, request.endpoint)
                &&& p.bearer == Some(token)
                &&& is_call(p.body, request.method, request.params, c.request_id)
                &&& after.0 == CallView { payload: p.body, ..call }
            }
        }),
{
    lemma_names();
}

/// What is wrong, as the unit tells it.
pub open spec fn complaint(error: Option<JsonView>, short_counts: bool) -> Seq<char> {
    let long = values::text_in(values::under(values::under(error, "data"@), "message"@));
    let short = values::text_in(values::under(error, "message"@));
    if long is Some {
        long->0
    } else if short_counts && short is Some {
        short->0
    } else {
        "unknown error"@
    }
}

/// A session is open exactly if the answer has no error and a token; the token is kept.
pub proof fn law_session(c: ClientView, reply: ReplyView)
    ensures
        match reply {
            ReplyView::NotSent => jsonrpc::token_of(reply) == Err::<Seq<char>, FaultView>(
                FaultView::Exchange(Some("BeginSession request failed"@)),
            ),
            ReplyView::Unreadable => jsonrpc::token_of(reply) == Err::<Seq<char>, FaultView>(
                FaultView::Exchange(None),
            ),
            ReplyView::Answer { status, body } => {
                let error = values::under(Some(body), "error"@);
                let token = values::under(values::under(Some(body), "result"@), "accessToken"@);
                if error is Some {
                    jsonrpc::token_of(reply) == Err::<Seq<char>, FaultView>(
                        FaultView::Message("BeginSession failed: "@ + complaint(error, false)),
                    )
                } else {
                    match token {
                        Some(JsonView::Text(t)) => jsonrpc::token_of(reply) == Ok::<
                            Seq<char>,
                            FaultView,
                        >(t),
                        _ => jsonrpc::token_of(reply) == Err::<Seq<char>, FaultView>(
                            FaultView::Message("BeginSession response missing accessToken"@),
                        ),
                    }
                }
            },
        },
        c.after_session(reply) == (ClientView {
            token: match jsonrpc::token_of(reply) {
                Ok(t) => Some(t),
                Err(_) => c.token,
            },
            ..c
        }),
{
}

/// Whether an answer says that the session is over: by its status or by the code of its error.
pub open spec fn says_over(status: u16, body: JsonView) -> bool {
    ||| status == 401
    ||| match values::under(values::under(Some(body), "error"@), "code"@) {
        Some(JsonView::Number(Number { exact: Exact::Negative(n), reading })) => n == -32600,
        _ => false,
    }
}

/// What an answer gives: its result, or the unit's complaint.
pub open spec fn gives(body: JsonView, method: Seq<char>) -> Result<JsonView, FaultView> {
    let error = values::under(Some(body), "error"@);
    if error is Some {
        Err(FaultView::Message("RPC "@ + method + " failed: "@ + complaint(error, true)))
    } else {
        match values::under(Some(body), "result"@) {
            Some(r) => Ok(r),
            None => Ok(JsonView::Null),
        }
    }
}

/// What an answer to a call means. Where the session is over another is opened once; every other answer
/// ends the call.
pub proof fn law_call_is_answered(call: CallView, c: ClientView, reply: ReplyView)
    requires
        call.stage is Ask || call.stage is AskAgain,
    ensures
        jsonrpc::client_after(c, call, reply) == c,
        match reply {
            ReplyView::NotSent => jsonrpc::answered(call, reply) == ProgressView::Finished(
                Err(
                    FaultView::Exchange(
                        if call.stage is Ask {
                            Some("RPC call to "@ + call.method + " failed"@)
                        } else {
                            None
                        },
                    ),
                ),
            ),
            ReplyView::Unreadable => jsonrpc::answered(call, reply) == ProgressView::Finished(
                Err(FaultView::Exchange(None)),
            ),
            ReplyView::Answer { status, body } => if call.stage is Ask && says_over(status, body) {
                jsonrpc::answered(call, reply) == ProgressView::Again(
                    CallView { stage: Stage::Renew, ..call },
                )
            } else {
                jsonrpc::answered(call, reply) == ProgressView::Finished(gives(body, call.method))
            },
        },
{
}

/// A call is made under the token of the session, and under an empty one without a session. Made again it
/// is the same, without a number of its own.
pub proof fn law_call_is_made(call: CallView, c: ClientView)
    ensures
        call.stage is Ask || call.stage is AskAgain ==> {
            let p = jsonrpc::post_of(call, c);
            &&& p.url == call.url
            &&& p.bearer == Some(
                match c.token {
                    Some(t) => t,
                    None => Seq::empty(),
                },
            )
            &&& call.stage is Ask ==> is_call(p.body, call.method, call.payload, c.request_id)
            &&& call.stage is AskAgain ==> p.body == call.payload && jsonrpc::sent(call, c) == (
                call,
                c,
            )
        },
{
    lemma_names();
}

/// What an answer to the opening of a session means for the call that needs it: the call is made, or
/// made again as it was, under the new token; without a token it ends.
pub proof fn law_session_is_answered(call: CallView, c: ClientView, reply: ReplyView)
    requires
        call.stage is Login || call.stage is Renew,
    ensures
        opens_session(jsonrpc::post_of(call, c), c),
        jsonrpc::client_after(c, call, reply) == c.after_session(reply),
        match jsonrpc::token_of(reply) {
            Err(e) => jsonrpc::answered(call, reply) == ProgressView::Finished(Err(e)),
            Ok(token) => {
                let after = jsonrpc::client_after(c, call, reply);
                &&& jsonrpc::answered(call, reply) matches ProgressView::Again(next)
                &&& next.url == call.url
                &&& next.method == call.method
                &&& next.payload == call.payload
                &&& jsonrpc::post_of(next, after).url == call.url
                &&& jsonrpc::post_of(next, after).bearer == Some(token)
                &&& call.stage is Login ==> next.stage is Ask && is_call(
                    jsonrpc::post_of(next, after).body,
                    call.method,
                    call.payload,
                    after.request_id,
                )
                &&& call.stage is Renew ==> next.stage is AskAgain && jsonrpc::post_of(
                    next,
                    after,
                ).body == call.payload && jsonrpc::sent(next, after) == (next, after)
            },
        },
{
    lemma_names();
}

/// A new client reaches the unit at its address over a secure connection, has no session and counts
/// from one.
pub proof fn law_new_client(config: &AppearXConfig, r: JsonRpcClient)
    requires
        call_ensures(JsonRpcClient::new, (config,), r),
    ensures
        r@.base_url == "https://"@ + config.address@,
        r@.username == config.username@,
        r@.password == config.password@,
        r@.token is None,
        r@.request_id == 1,
{
}

/// The name of a method: the interface with its version, the module and the command.
pub proof fn law_method_name(
    interface: Seq<char>,
    version: Seq<char>,
    module: Seq<char>,
    command: Seq<char>,
)
    ensures
        jsonrpc::method_name(interface, version, module, command) == interface + ":"@ + version
            + "/"@ + module + "/"@ + command,
{
}

/// Which certificates are trusted: with a fingerprint only the one it is of; without one, any where the
/// settings ask for it and the environment confirms it, else those that an authority signed. Unconfirmed,
/// it is refused.
pub proof fn law_trust(
    accept_self_signed: bool,
    fingerprint: Option<Seq<char>>,
    allow_insecure: Option<Seq<char>>,
)
    ensures
        ({
            let mode = tls::tls_mode(accept_self_signed, fingerprint, allow_insecure);
            let given = fingerprint is Some && fingerprint->0.len() > 0;
            &&& given ==> mode == Ok::<ModeView, Seq<char>>(
                ModeView::Pinned { expected_fingerprint: text::lowercased(fingerprint->0) },
            )
            &&& !given && !accept_self_signed ==> mode == Ok::<ModeView, Seq<char>>(
                ModeView::Standard,
            )
            &&& !given && accept_self_signed && allow_insecure == Some("1"@) ==> mode == Ok::<
                ModeView,
                Seq<char>,
            >(ModeView::Insecure)
            &&& !given && accept_self_signed && allow_insecure != Some("1"@) ==> mode == Err::<
                ModeView,
                Seq<char>,
            >(
                "accept_self_signed_cert is enabled but BILBYCAST_ALLOW_INSECURE=1 is not set. Set this environment variable to confirm you understand the security implications."@,
            )
        }),
{
}

/// Which certificates of the unit are trusted.
pub proof fn law_unit_trust(fingerprint: Option<Seq<char>>, accept_self_signed: bool)
    ensures
        ({
            let mode = tls::unit_mode(fingerprint, accept_self_signed);
            &&& fingerprint is Some && fingerprint->0.len() > 0 ==> mode == (ModeView::Pinned {
                expected_fingerprint: text::lowercased(fingerprint->0),
            })
            &&& fingerprint is Some && fingerprint->0.len() == 0 ==> mode is Standard
            &&& fingerprint is None && accept_self_signed ==> mode is Insecure
            &&& fingerprint is None && !accept_self_signed ==> mode is Standard
        }),
{
}

/// A digit of sixteen, in lower case.
pub open spec fn low_digit(d: int) -> char {
    seq!['0', '1', '2', '3', '4', '5', '6', '7', '8', '9', 'a', 'b', 'c', 'd', 'e', 'f'][d]
}

/// The fingerprint has two digits for each byte, the high one first, and a colon between two bytes.
pub proof fn law_fingerprint_digits(bytes: Seq<u8>, i: int)
    requires
        0 <= i < bytes.len(),
    ensures
        tls::fingerprint(bytes).len() == 3 * bytes.len() - 1,
        tls::fingerprint(bytes)[3 * i] == low_digit(bytes[i] as int / 16),
        tls::fingerprint(bytes)[3 * i + 1] == low_digit(bytes[i] as int % 16),
        i + 1 < bytes.len() ==> tls::fingerprint(bytes)[3 * i + 2] == ':',
    decreases bytes.len(),
{
    if bytes.len() > 1 {
        let fewer = bytes.drop_last();
        law_fingerprint_digits(
            fewer,
            if i < fewer.len() {
                i
            } else {
                0
            },
        );
        let f = tls::fingerprint(fewer);
        assert(tls::fingerprint(bytes) == f + seq![':'] + tls::hex_byte(bytes.last()));
        if i < fewer.len() {
            assert(fewer[i] == bytes[i]);
            if i + 1 == fewer.len() {
                assert(tls::fingerprint(bytes)[3 * i + 2] == ':');
            }
        }
    }
}

/// A certificate is accepted exactly if its fingerprint is the expected one.
pub proof fn law_certificate(certificate: &[u8], expected: &str, r: Result<(), String>)
    requires
        call_ensures(tls::verify_fingerprint, (certificate, expected), r),
    ensures
        r is Ok <==> tls::certificate_fingerprint(certificate@) == expected@,
        r matches Err(e) ==> e@ == "Certificate fingerprint mismatch. Expected: "@ + expected@
            + ", Got: "@ + tls::certificate_fingerprint(certificate@)
            + ". This could indicate a MITM attack or certificate rotation."@,
{
}

/// An event of an upgrade has the severity it names, its words and its code, and tells what it knows of
/// the versions.
pub proof fn law_upgrade_event(e: UpgradeEvent)
    ensures
        ({
            let sent = upgrade::upgrade_event_view(e);
            let severity = e.severity@;
            &&& severity == "critical"@ ==> sent.severity == EventSeverity::Critical
            &&& severity == "major"@ ==> sent.severity == EventSeverity::Major
            &&& severity == "minor"@ ==> sent.severity == EventSeverity::Minor
            &&& severity != "critical"@ && severity != "major"@ && severity != "minor"@
                ==> sent.severity == EventSeverity::Info
            &&& sent.category == "upgrade"@
            &&& sent.message == seq![PartView::Text(e.message@)]
            &&& sent.error_code == Some(e.error_code@)
            &&& values::under(sent.details, "error_code"@) == Some(JsonView::Text(e.error_code@))
            &&& values::under(sent.details, "from_version"@) == values::maybe_text(
                json::string_view(e.from_version),
            )
            &&& values::under(sent.details, "to_version"@) == values::maybe_text(
                json::string_view(e.to_version),
            )
            &&& values::under(sent.details, "channel"@) == values::maybe_text(
                json::string_view(e.channel),
            )
            &&& values::under(sent.details, "size_bytes"@) == match e.size_bytes {
                Some(n) => Some(values::number(n as nat)),
                None => None,
            }
            &&& forall|key: Seq<char>| #[trigger]
                values::under(sent.details, key) is Some ==> key == "error_code"@ || key
                    == "from_version"@ || key == "to_version"@ || key == "channel"@ || key
                    == "size_bytes"@
        }),
{
    lemma_names();
}

/// Whether somebody may sign what the gateway is upgraded to.
pub open spec fn may_sign(s: AllowedSigner) -> bool {
    &&& s.issuer@ == "https://token.actions.githubusercontent.com"@
    &&& s.repo@ == "https://github.com/Bilbycast/bilbycast-appear-x-api-gateway"@
    &&& s.ref_pattern@ == "refs/tags/v*"@
    &&& s.workflow@
        == "https://github.com/Bilbycast/bilbycast-appear-x-api-gateway/.github/workflows/nightly-release.yml"@
}

/// What the gateway is upgraded to comes from one place, and one may sign it.
pub proof fn law_upgrade_profile(r: UpgradeProfile, signers: Vec<AllowedSigner>)
    ensures
        call_ensures(upgrade::profile, (), r) ==> {
            &&& r.repo@ == "Bilbycast/bilbycast-appear-x-api-gateway"@
            &&& r.binary_name@ == "bilbycast-appear-x-api-gateway"@
            &&& r.device_type@ == "appear_x"@
            &&& r.allowed_signers@.len() == 1
            &&& may_sign(r.allowed_signers@[0])
        },
        call_ensures(upgrade::allowed_signers, (), signers) ==> signers@.len() == 1 && may_sign(
            signers@[0],
        ),
{
}

} // verus!

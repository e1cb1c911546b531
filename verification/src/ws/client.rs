//! The conversation with the manager.

use vstd::prelude::*;

use crate::config::ManagerConfig;
use crate::credentials::{Credentials, CredentialsView};
use crate::json::{self, Json, JsonView, Object};
use crate::text;
use crate::ws::message::{self, CommandMessage};

verus! {

/// The longest wait between two connections, in seconds.
pub const MAX_BACKOFF: u64 = 30;

/// How long to wait for the answer to the first message, in seconds.
pub const AUTH_TIMEOUT_SECS: u64 = 10;

/// How long to wait for the result of a command, in seconds.
pub const COMMAND_TIMEOUT_SECS: u64 = 10;

/// How often the plain heartbeat is sent, in seconds. It is kept rare, since the manager would
/// otherwise forget the state of the unit that the health payloads tell.
pub const HEARTBEAT_SECS: u64 = 300;

/// Where to connect to next and how long to wait before.
#[derive(Debug)]
pub struct Reconnect {
    step: usize,
    url: usize,
}

/// What a [`Reconnect`] holds.
#[verifier::ext_equal]
pub struct ReconnectView {
    /// How many connections in a row the manager did not accept, up to the longest wait.
    pub step: nat,
    pub url: nat,
}

impl View for Reconnect {
    type V = ReconnectView;

    closed spec fn view(&self) -> ReconnectView {
        ReconnectView { step: self.step as nat, url: self.url as nat }
    }
}

/// The step with the longest wait.
pub open spec fn last_step() -> nat {
    4
}

/// The wait at a step, in seconds.
pub open spec fn wait_secs(step: nat) -> u64 {
    if step == 0 {
        1
    } else if step == 1 {
        2
    } else if step == 2 {
        5
    } else if step == 3 {
        10
    } else {
        MAX_BACKOFF
    }
}

impl ReconnectView {
    /// Before the first connection.
    pub open spec fn fresh() -> ReconnectView {
        ReconnectView { step: 0, url: 0 }
    }

    /// What always holds, given the number of addresses.
    pub open spec fn valid(self, urls: nat) -> bool {
        self.step <= last_step() && self.url < urls
    }

    /// The step at which a connection ended. One that the manager had accepted starts over.
    pub open spec fn step_at_end(self, accepted: bool) -> nat {
        if accepted {
            0
        } else {
            self.step
        }
    }

    /// How long to wait after a connection ended.
    pub open spec fn wait(self, accepted: bool) -> u64 {
        wait_secs(self.step_at_end(accepted))
    }

    /// After a connection ended: the next wait is longer and the next address has its turn.
    pub open spec fn after(self, accepted: bool, urls: nat) -> ReconnectView {
        let step = self.step_at_end(accepted);
        ReconnectView {
            step: if step < last_step() {
                step + 1
            } else {
                step
            },
            url: if self.url + 1 < urls {
                self.url + 1
            } else {
                0
            },
        }
    }
}

impl Reconnect {
    /// Before the first connection.
    pub fn new() -> (r: Reconnect)
        ensures
            r@ == ReconnectView::fresh(),
    {
        Reconnect { step: 0, url: 0 }
    }

    /// The address to connect to.
    pub fn url<'a>(&self, config: &'a ManagerConfig) -> (r: &'a String)
        requires
            self@.valid(config.urls@.len()),
        ensures
            *r == config.urls@[self@.url as int],
    {
        &config.urls[self.url]
    }

    /// Takes note of the end of a connection, and whether the manager had accepted it. Returns how
    /// long to wait.
    pub fn ended(&mut self, accepted: bool, config: &ManagerConfig) -> (r: u64)
        requires
            old(self)@.valid(config.urls@.len()),
        ensures
            r == old(self)@.wait(accepted),
            final(self)@ == old(self)@.after(accepted, config.urls@.len()),
            final(self)@.valid(config.urls@.len()),
    {
        if accepted {
            self.step = 0;
        }
        let wait: u64 = match self.step {
            0 => 1,
            1 => 2,
            2 => 5,
            3 => 10,
            _ => MAX_BACKOFF,
        };
        if self.step < 4 {
            self.step = self.step + 1;
        }
        let last: usize = config.urls.len() - 1;
        self.url =
        if self.url < last {
            self.url + 1
        } else {
            0
        };
        wait
    }
}

/// After connections that ended, given for each whether the manager had accepted it.
pub open spec fn reconnect_after(r: ReconnectView, ends: Seq<bool>, urls: nat) -> ReconnectView
    decreases ends.len(),
{
    if ends.len() == 0 {
        r
    } else {
        reconnect_after(r, ends.drop_last(), urls).after(ends.last(), urls)
    }
}

/// After connections that all failed the waits are 1, 2, 5, 10 and then always 30 seconds; after one
/// that the manager had accepted it is the first again.
pub proof fn law_backoff(ends: Seq<bool>, urls: nat)
    requires
        urls > 0,
        forall|i: int| 0 <= i < ends.len() ==> !#[trigger] ends[i],
    ensures
        ({
            let r = reconnect_after(ReconnectView::fresh(), ends, urls);
            let n = ends.len();
            &&& r.valid(urls)
            &&& r.wait(false) == if n == 0 {
                1u64
            } else if n == 1 {
                2
            } else if n == 2 {
                5
            } else if n == 3 {
                10
            } else {
                30
            }
            &&& r.wait(true) == 1
        }),
    decreases ends.len(),
{
    if ends.len() > 0 {
        let fewer = ends.drop_last();
        assert forall|i: int| 0 <= i < fewer.len() implies !#[trigger] fewer[i] by {
            assert(fewer[i] == ends[i]);
        }
        law_backoff(fewer, urls);
        assert(!ends[ends.len() - 1]);
        assert(ends.len() == fewer.len() + 1);
    }
}

/// The addresses have their turns one after the other, whatever became of the connections.
pub proof fn law_urls_take_turns(ends: Seq<bool>, urls: nat)
    requires
        urls > 0,
    ensures
        reconnect_after(ReconnectView::fresh(), ends, urls).url == ends.len() % urls,
    decreases ends.len(),
{
    if ends.len() > 0 {
        let fewer = ends.drop_last();
        law_urls_take_turns(fewer, urls);
        let k = fewer.len();
        assert(ends.len() == k + 1);
        assert((k + 1) % urls == if k % urls + 1 < urls {
            k % urls + 1
        } else {
            0
        }) by (nonlinear_arith)
            requires
                urls > 0,
        ;
    } else {
        assert(0nat % urls == 0) by (nonlinear_arith)
            requires
                urls > 0,
        ;
    }
}

/// Why a connection could not be used.
#[derive(Debug)]
pub enum AuthError {
    /// There is nothing to say who the gateway is.
    NoCredentials,
    /// The answer to the registration holds no name.
    NoNodeId,
    /// The answer to the registration holds no secret.
    NoNodeSecret,
    /// The manager refused.
    Refused(String),
    /// The answer is of another type.
    Unexpected(String),
    /// The answer cannot be read.
    Unreadable,
}

/// What an [`AuthError`] holds.
#[verifier::ext_equal]
pub enum AuthFault {
    NoCredentials,
    NoNodeId,
    NoNodeSecret,
    Refused(Seq<char>),
    Unexpected(Seq<char>),
    Unreadable,
}

impl View for AuthError {
    type V = AuthFault;

    open spec fn view(&self) -> AuthFault {
        match *self {
            AuthError::NoCredentials => AuthFault::NoCredentials,
            AuthError::NoNodeId => AuthFault::NoNodeId,
            AuthError::NoNodeSecret => AuthFault::NoNodeSecret,
            AuthError::Refused(s) => AuthFault::Refused(s@),
            AuthError::Unexpected(s) => AuthFault::Unexpected(s@),
            AuthError::Unreadable => AuthFault::Unreadable,
        }
    }
}

impl AuthFault {
    /// The error in words.
    pub open spec fn message(self) -> Seq<char> {
        match self {
            AuthFault::NoCredentials => "No credentials or registration token available"@,
            AuthFault::NoNodeId => "register_ack missing node_id"@,
            AuthFault::NoNodeSecret => "register_ack missing node_secret"@,
            AuthFault::Refused(s) => "Authentication failed: "@ + s,
            AuthFault::Unexpected(s) => "Unexpected auth response type: "@ + s,
            AuthFault::Unreadable => "Auth response is not JSON"@,
        }
    }
}

impl AuthError {
    /// The error in words.
    pub fn message(&self) -> (r: String)
        ensures
            r@ == self@.message(),
    {
        match self {
            AuthError::NoCredentials => "No credentials or registration token available".to_owned(),
            AuthError::NoNodeId => "register_ack missing node_id".to_owned(),
            AuthError::NoNodeSecret => "register_ack missing node_secret".to_owned(),
            AuthError::Refused(s) => {
                let mut out = "Authentication failed: ".to_owned();
                out.append(s.as_str());
                out
            },
            AuthError::Unexpected(s) => {
                let mut out = "Unexpected auth response type: ".to_owned();
                out.append(s.as_str());
                out
            },
            AuthError::Unreadable => "Auth response is not JSON".to_owned(),
        }
    }
}

/// What the first message says of who the gateway is.
pub open spec fn auth_payload(creds: CredentialsView) -> Result<JsonView, AuthFault> {
    if creds.complete() {
        Ok(message::reconnect_payload(creds.node_id->0, creds.node_secret->0))
    } else {
        match creds.registration_token {
            Some(token) => Ok(message::register_payload(token)),
            None => Err(AuthFault::NoCredentials),
        }
    }
}

/// The first message on a connection.
pub fn auth_message(creds: &Credentials) -> (r: Result<Json, AuthError>)
    ensures
        match r {
            Ok(j) => auth_payload(creds@) is Ok && message::is_envelope(
                j@,
                "auth"@,
                auth_payload(creds@)->Ok_0,
            ),
            Err(e) => auth_payload(creds@) == Err::<JsonView, AuthFault>(e@),
        },
{
    if let Some(id) = &creds.node_id {
        if let Some(secret) = &creds.node_secret {
            return Ok(message::auth_reconnect(id.as_str(), secret.as_str()));
        }
    }
    match &creds.registration_token {
        Some(token) => Ok(message::auth_register(token.as_str())),
        None => Err(AuthError::NoCredentials),
    }
}

/// How the manager accepted a connection.
#[derive(Clone, Copy, Debug, PartialEq, Eq, Structural)]
pub enum ConnectResult {
    /// It gave the gateway a name and a secret, which have to be kept.
    Registered,
    /// It knew the gateway.
    Authenticated,
}

/// How the manager accepted a connection, and who the gateway is then.
pub open spec fn auth_outcome(reply: JsonView, creds: CredentialsView) -> Result<
    (ConnectResult, CredentialsView),
    AuthFault,
> {
    let kind = json::text_or(json::text_of(reply.get("type"@)), ""@);
    let payload = reply.get("payload"@);
    if kind == "register_ack"@ {
        match json::text_of(json::member_of(payload, "node_id"@)) {
            Some(id) => match json::text_of(json::member_of(payload, "node_secret"@)) {
                Some(secret) => Ok((ConnectResult::Registered, creds.registered(id, secret))),
                None => Err(AuthFault::NoNodeSecret),
            },
            None => Err(AuthFault::NoNodeId),
        }
    } else if kind == "auth_ok"@ {
        Ok((ConnectResult::Authenticated, creds))
    } else if kind == "auth_error"@ {
        Err(
            AuthFault::Refused(
                json::text_or(json::text_of(json::member_of(payload, "error"@)), "unknown"@),
            ),
        )
    } else {
        Err(AuthFault::Unexpected(kind))
    }
}

/// Takes the answer to the first message.
pub fn auth_answered(reply: &Json, creds: &mut Credentials) -> (r: Result<ConnectResult, AuthError>)
    ensures
        match r {
            Ok(how) => auth_outcome(reply@, old(creds)@) == Ok::<
                (ConnectResult, CredentialsView),
                AuthFault,
            >((how, final(creds)@)),
            Err(e) => auth_outcome(reply@, old(creds)@) == Err::<
                (ConnectResult, CredentialsView),
                AuthFault,
            >(e@) && final(creds)@ == old(creds)@,
        },
{
    let kind = json::string_or(reply.get("type"), "");
    let payload = reply.get("payload");
    if text::str_eq(kind.as_str(), "register_ack") {
        let id = match json::str_in(json::get_in(payload, "node_id")) {
            Some(s) => s,
            None => {
                return Err(AuthError::NoNodeId);
            },
        };
        let secret = match json::str_in(json::get_in(payload, "node_secret")) {
            Some(s) => s,
            None => {
                return Err(AuthError::NoNodeSecret);
            },
        };
        creds.register(id, secret);
        Ok(ConnectResult::Registered)
    } else if text::str_eq(kind.as_str(), "auth_ok") {
        Ok(ConnectResult::Authenticated)
    } else if text::str_eq(kind.as_str(), "auth_error") {
        Err(AuthError::Refused(json::string_or(json::get_in(payload, "error"), "unknown")))
    } else {
        Err(AuthError::Unexpected(kind))
    }
}

/// How the manager accepted a connection, given the text of its answer.
pub open spec fn auth_text_outcome(text: Seq<char>, creds: CredentialsView) -> Result<
    (ConnectResult, CredentialsView),
    AuthFault,
> {
    match json::parsed(text) {
        Some(reply) => auth_outcome(reply, creds),
        None => Err(AuthFault::Unreadable),
    }
}

/// Takes the text of the answer to the first message.
pub fn auth_text_answered(text: &str, creds: &mut Credentials) -> (r: Result<
    ConnectResult,
    AuthError,
>)
    ensures
        match r {
            Ok(how) => auth_text_outcome(text@, old(creds)@) == Ok::<
                (ConnectResult, CredentialsView),
                AuthFault,
            >((how, final(creds)@)),
            Err(e) => auth_text_outcome(text@, old(creds)@) == Err::<
                (ConnectResult, CredentialsView),
                AuthFault,
            >(e@) && final(creds)@ == old(creds)@,
        },
{
    match json::parse(text) {
        Some(reply) => auth_answered(&reply, creds),
        None => Err(AuthError::Unreadable),
    }
}

/// What is sent for something that a poll found: its type and its content.
pub open spec fn outgoing(stats: JsonView) -> (Seq<char>, JsonView) {
    (
        if json::text_of(stats.get("_msg_type"@)) == Some("health"@) {
            "health"@
        } else {
            "stats"@
        },
        match stats {
            JsonView::Object(m) => JsonView::Object(m.remove("_msg_type"@)),
            _ => stats,
        },
    )
}

/// The message for something that a poll found. Its member `_msg_type`, which is not sent, tells a
/// heartbeat from a snapshot.
pub fn outgoing_message(stats: &Json) -> (r: Json)
    ensures
        message::is_envelope(r@, outgoing(stats@).0, outgoing(stats@).1),
{
    let is_health = match json::str_in(stats.get("_msg_type")) {
        Some(t) => text::str_eq(t, "health"),
        None => false,
    };
    let payload = match stats {
        Json::Object(o) => {
            let mut rest = o.copy();
            rest.remove("_msg_type");
            Json::Object(rest)
        },
        other => other.copy(),
    };
    if is_health {
        message::health_message(payload)
    } else {
        message::stats_message(payload)
    }
}

/// The content of the heartbeat that is sent whatever the polls find.
pub open spec fn heartbeat() -> JsonView {
    JsonView::Object(
        Map::empty().insert("status"@, JsonView::Text("ok"@)).insert(
            "version"@,
            JsonView::Text(message::version_text()),
        ),
    )
}

/// The heartbeat that is sent whatever the polls find.
pub fn heartbeat_message() -> (r: Json)
    ensures
        message::is_envelope(r@, "health"@, heartbeat()),
{
    let mut o = Object::new();
    o.set("status", Json::from_text("ok"));
    o.set("version", Json::from_text(message::software_version()));
    message::health_message(Json::Object(o))
}

/// What the manager wants.
#[derive(Debug)]
pub enum ManagerRequest {
    /// A command.
    Command(CommandMessage),
    /// A sign of life.
    Ping,
    /// Nothing that is known.
    Unknown,
}

/// What a [`ManagerRequest`] holds.
#[verifier::ext_equal]
pub enum ManagerView {
    Command { command_id: Seq<char>, action: JsonView },
    Ping,
    Unknown,
}

impl View for ManagerRequest {
    type V = ManagerView;

    open spec fn view(&self) -> ManagerView {
        match *self {
            ManagerRequest::Command(c) => ManagerView::Command {
                command_id: c.command_id@,
                action: c.action@,
            },
            ManagerRequest::Ping => ManagerView::Ping,
            ManagerRequest::Unknown => ManagerView::Unknown,
        }
    }
}

/// What the manager wants.
pub open spec fn wanted(envelope: JsonView) -> ManagerView {
    let kind = json::text_of(envelope.get("type"@));
    if kind == Some("command"@) {
        let payload = envelope.get("payload"@);
        ManagerView::Command {
            command_id: json::text_or(
                json::text_of(json::member_of(payload, "command_id"@)),
                ""@,
            ),
            action: json::value_or(json::member_of(payload, "action"@), JsonView::Null),
        }
    } else if kind == Some("ping"@) {
        ManagerView::Ping
    } else {
        ManagerView::Unknown
    }
}

/// What the manager wants.
pub fn handle_manager_message(envelope: &Json) -> (r: ManagerRequest)
    ensures
        r@ == wanted(envelope@),
{
    match json::str_in(envelope.get("type")) {
        Some(kind) => if text::str_eq(kind, "command") {
            let payload = envelope.get("payload");
            ManagerRequest::Command(
                CommandMessage {
                    command_id: json::string_or(json::get_in(payload, "command_id"), ""),
                    action: json::copy_or(json::get_in(payload, "action"), Json::Null),
                },
            )
        } else if text::str_eq(kind, "ping") {
            ManagerRequest::Ping
        } else {
            ManagerRequest::Unknown
        },
        None => ManagerRequest::Unknown,
    }
}

/// What the manager wants with a text that it sent. One that cannot be read asks for nothing, and
/// nothing is sent back.
pub fn handle_manager_text(text: &str) -> (r: Option<ManagerRequest>)
    ensures
        (match r {
            Some(w) => Some(w@),
            None => None,
        }) == (match json::parsed(text@) {
            Some(e) => Some(wanted(e)),
            None => None,
        }),
{
    match json::parse(text) {
        Some(envelope) => Some(handle_manager_message(&envelope)),
        None => None,
    }
}

/// What came of handing a command on.
#[derive(Debug)]
pub enum HandlerReply {
    /// It was carried out or refused.
    Answered(Json),
    /// Nothing came back in time.
    TimedOut,
    /// There was nobody to take it.
    Unavailable,
}

/// What a [`HandlerReply`] holds.
#[verifier::ext_equal]
pub enum HandlerView {
    Answered(JsonView),
    TimedOut,
    Unavailable,
}

impl View for HandlerReply {
    type V = HandlerView;

    open spec fn view(&self) -> HandlerView {
        match *self {
            HandlerReply::Answered(j) => HandlerView::Answered(j@),
            HandlerReply::TimedOut => HandlerView::TimedOut,
            HandlerReply::Unavailable => HandlerView::Unavailable,
        }
    }
}

/// Whether an answer says that a command was carried out.
pub open spec fn succeeded(answer: JsonView) -> bool {
    match answer.get("success"@) {
        Some(b) => b.truth() == Some(true),
        None => false,
    }
}

/// The code of the error for an answer that does not say that a command was carried out: the one
/// that the answer names, or that of a call to the unit that failed.
pub open spec fn failure_code(answer: JsonView) -> Seq<char> {
    match json::text_of(answer.get("error_code"@)) {
        Some(code) => code,
        None => "vendor_api_error"@,
    }
}

/// What the manager is told of a command, given what came of it. It is told the code of the error
/// exactly if the command was not carried out.
pub open spec fn ack_of(command_id: Seq<char>, reply: HandlerView) -> JsonView {
    JsonView::Object(
        match reply {
            HandlerView::Answered(j) => if succeeded(j) {
                message::ack_payload(
                    command_id,
                    true,
                    j.get("data"@),
                    json::text_of(j.get("error"@)),
                )
            } else {
                message::failure_payload(
                    command_id,
                    j.get("data"@),
                    json::text_of(j.get("error"@)),
                    failure_code(j),
                )
            },
            HandlerView::TimedOut => message::failure_payload(
                command_id,
                None,
                Some("Command handler timeout"@),
                "vendor_api_error"@,
            ),
            HandlerView::Unavailable => message::failure_payload(
                command_id,
                None,
                Some("Command handler not available"@),
                "vendor_api_error"@,
            ),
        },
    )
}

/// The message about a command, given what came of it.
pub fn ack_message(command_id: &str, reply: HandlerReply) -> (r: Json)
    ensures
        message::is_envelope(r@, "command_ack"@, ack_of(command_id@, reply@)),
{
    match reply {
        HandlerReply::Answered(j) => {
            let success = match j.get("success") {
                Some(b) => match b.as_bool() {
                    Some(v) => v,
                    None => false,
                },
                None => false,
            };
            let data = match j.get("data") {
                Some(d) => Some(d.copy()),
                None => None,
            };
            let error = json::str_in(j.get("error"));
            if success {
                message::command_ack(command_id, true, data, error)
            } else {
                let code = match json::str_in(j.get("error_code")) {
                    Some(c) => c,
                    None => "vendor_api_error",
                };
                message::command_failed(command_id, data, error, code)
            }
        },
        HandlerReply::TimedOut => message::command_failed(
            command_id,
            None,
            Some("Command handler timeout"),
            "vendor_api_error",
        ),
        HandlerReply::Unavailable => message::command_failed(
            command_id,
            None,
            Some("Command handler not available"),
            "vendor_api_error",
        ),
    }
}

/// Every acknowledgement of a command that was not carried out names the code of an error, and no
/// other acknowledgement does.
pub proof fn law_failures_carry_a_code(command_id: Seq<char>, reply: HandlerView)
    ensures
        ack_of(command_id, reply).get("success"@) == Some(JsonView::Bool(true))
            || ack_of(command_id, reply).get("success"@) == Some(JsonView::Bool(false)),
        ack_of(command_id, reply).get("success"@) == Some(JsonView::Bool(false))
            <==> ack_of(command_id, reply).get("error_code"@) is Some,
        ack_of(command_id, reply).get("error_code"@) matches Some(c) ==> c is Text,
{
    reveal_strlit("command_id");
    reveal_strlit("success");
    reveal_strlit("data");
    reveal_strlit("error");
    reveal_strlit("error_code");
    assert("success"@.len() == 7 && "command_id"@.len() == 10 && "data"@.len() == 4);
    assert("error"@.len() == 5 && "error_code"@.len() == 10);
    assert("command_id"@[0] == 'c' && "error_code"@[0] == 'e');
}

/// Whether a command asks for the configuration.
pub open spec fn asks_config(action: JsonView) -> bool {
    json::text_of(action.get("type"@)) == Some("get_config"@)
}

/// Whether a command asks for the configuration.
pub fn is_config_request(action: &Json) -> (r: bool)
    ensures
        r == asks_config(action@),
{
    match json::str_in(action.get("type")) {
        Some(kind) => text::str_eq(kind, "get_config"),
        None => false,
    }
}

/// The answer to a command that asks for the configuration: the command is acknowledged first and
/// the configuration follows, since the manager forgets what it knew of the configuration with every
/// acknowledgement.
pub fn config_replies(command_id: &str, config: Json) -> (r: Vec<Json>)
    ensures
        r@.len() == 2,
        message::is_envelope(
            r@[0]@,
            "command_ack"@,
            JsonView::Object(message::ack_payload(command_id@, true, None, None)),
        ),
        message::is_envelope(r@[1]@, "config_response"@, config@),
{
    let mut out: Vec<Json> = Vec::new();
    out.push(message::command_ack(command_id, true, None, None));
    out.push(message::config_response_message(config));
    out
}

/// After the manager registered the gateway it comes back under the name that it was given.
pub proof fn law_registered_gateway_reconnects(
    reply: JsonView,
    creds: CredentialsView,
    after: CredentialsView,
)
    requires
        auth_outcome(reply, creds) == Ok::<(ConnectResult, CredentialsView), AuthFault>(
            (ConnectResult::Registered, after),
        ),
    ensures
        after.complete(),
        after.registration_token is None,
        auth_payload(after) == Ok::<JsonView, AuthFault>(
            message::reconnect_payload(after.node_id->0, after.node_secret->0),
        ),
{
}

} // verus!

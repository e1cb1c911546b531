//! Calls to the unit: what is sent, what a reply means and when a call is made again.
//!
//! A call is a sequence of exchanges. [`Call::request`] says what to send next and
//! [`Call::answer`] takes what came back, until the call is finished.

use vstd::prelude::*;

use crate::config::AppearXConfig;
use crate::json::{self, Json, JsonView, Object};
use crate::text;

verus! {

/// The method that opens a session.
pub open spec fn session_method() -> Seq<char> {
    "mmi:1.0/authentication/BeginSession"@
}

/// The error code by which the unit says that a session is over.
pub const SESSION_OVER: i64 = -32600;

/// The HTTP status by which the unit says that a session is over.
pub const UNAUTHORIZED: u16 = 401;

/// `<interface>:<version>/<module>/<command>`
pub open spec fn method_name(
    interface: Seq<char>,
    version: Seq<char>,
    module: Seq<char>,
    command: Seq<char>,
) -> Seq<char> {
    interface + ":"@ + version + "/"@ + module + "/"@ + command
}

/// `<interface>:<version>/<module>/<command>`
pub fn make_method_name(interface: &str, version: &str, module: &str, command: &str) -> (r: String)
    ensures
        r@ == method_name(interface@, version@, module@, command@),
{
    let mut out = interface.to_owned();
    out.append(":");
    out.append(version);
    out.append("/");
    out.append(module);
    out.append("/");
    out.append(command);
    out
}

/// Which part of the unit a call goes to.
#[derive(Clone, Copy, Debug, PartialEq, Eq, Structural)]
pub enum Endpoint {
    /// The chassis.
    Mmi,
    /// The card in a slot.
    Board(u32),
}

/// A call to make.
#[derive(Debug)]
pub struct Request {
    pub endpoint: Endpoint,
    pub method: String,
    pub params: Json,
}

/// What a [`Request`] holds.
pub struct RequestView {
    pub endpoint: Endpoint,
    pub method: Seq<char>,
    pub params: JsonView,
}

impl View for Request {
    type V = RequestView;

    open spec fn view(&self) -> RequestView {
        RequestView { endpoint: self.endpoint, method: self.method@, params: self.params@ }
    }
}

/// The address that calls to a part of the unit go to.
pub open spec fn url_of(base: Seq<char>, endpoint: Endpoint) -> Seq<char> {
    match endpoint {
        Endpoint::Mmi => base + "/mmi/api/jsonrpc"@,
        Endpoint::Board(slot) => base + "/board/"@ + text::hex_upper(slot as nat)
            + "/api/jsonrpc"@,
    }
}

/// The body of a call.
pub open spec fn call_body(method: Seq<char>, params: JsonView, id: u64) -> JsonView {
    JsonView::Object(
        Map::empty().insert("jsonrpc"@, JsonView::Text("2.0"@)).insert(
            "method"@,
            JsonView::Text(method),
        ).insert("params"@, params).insert("id"@, JsonView::of_unsigned(id as nat)),
    )
}

fn make_call_body(method: &str, params: Json, id: u64) -> (r: Json)
    ensures
        r@ == call_body(method@, params@, id),
{
    let mut o = Object::new();
    o.set("jsonrpc", Json::from_text("2.0"));
    o.set("method", Json::from_text(method));
    o.set("params", params);
    o.set("id", Json::from_u64(id));
    Json::Object(o)
}

/// The parameters that open a session.
pub open spec fn session_params(username: Seq<char>, password: Seq<char>) -> JsonView {
    JsonView::Object(
        Map::empty().insert(
            "local"@,
            JsonView::Object(
                Map::empty().insert("username"@, JsonView::Text(username)).insert(
                    "password"@,
                    JsonView::Text(password),
                ),
            ),
        ),
    )
}

fn make_session_params(username: &str, password: &str) -> (r: Json)
    ensures
        r@ == session_params(username@, password@),
{
    let mut local = Object::new();
    local.set("username", Json::from_text(username));
    local.set("password", Json::from_text(password));
    let mut o = Object::new();
    o.set("local", Json::Object(local));
    Json::Object(o)
}

/// Something to send to the unit by HTTP.
#[derive(Debug)]
pub struct Post {
    pub url: String,
    /// The token for the `Authorization` header. The request that opens a session has none.
    pub bearer: Option<String>,
    pub body: Json,
}

/// What a [`Post`] holds.
pub struct PostView {
    pub url: Seq<char>,
    pub bearer: Option<Seq<char>>,
    pub body: JsonView,
}

impl View for Post {
    type V = PostView;

    open spec fn view(&self) -> PostView {
        PostView { url: self.url@, bearer: json::string_view(self.bearer), body: self.body@ }
    }
}

/// What came of sending a [`Post`].
#[derive(Debug)]
pub enum Reply {
    /// It could not be sent, or no answer came.
    NotSent,
    /// The answer was not JSON.
    Unreadable,
    /// The unit answered.
    Answer { status: u16, body: Json },
}

/// What a [`Reply`] holds.
pub enum ReplyView {
    NotSent,
    Unreadable,
    Answer { status: u16, body: JsonView },
}

impl View for Reply {
    type V = ReplyView;

    open spec fn view(&self) -> ReplyView {
        match *self {
            Reply::NotSent => ReplyView::NotSent,
            Reply::Unreadable => ReplyView::Unreadable,
            Reply::Answer { status, body } => ReplyView::Answer { status, body: body@ },
        }
    }
}

/// Why a call failed.
#[derive(Debug)]
pub enum RpcFault {
    /// For the given reason.
    Message(String),
    /// The exchange failed. The text goes before the reason that the exchange has.
    Exchange(Option<String>),
}

/// What an [`RpcFault`] holds.
pub enum FaultView {
    Message(Seq<char>),
    Exchange(Option<Seq<char>>),
}

impl View for RpcFault {
    type V = FaultView;

    open spec fn view(&self) -> FaultView {
        match *self {
            RpcFault::Message(s) => FaultView::Message(s@),
            RpcFault::Exchange(o) => FaultView::Exchange(json::string_view(o)),
        }
    }
}

/// The reason that the unit gives for an error, preferably the detailed one.
pub open spec fn error_message(error: JsonView, detailed_only: bool) -> Seq<char> {
    let detailed = json::text_of(json::member_of(error.get("data"@), "message"@));
    let plain = if detailed_only {
        None
    } else {
        json::text_of(error.get("message"@))
    };
    match detailed {
        Some(s) => s,
        None => json::text_or(plain, "unknown error"@),
    }
}

fn make_error_message(error: &Json, detailed_only: bool) -> (r: String)
    ensures
        r@ == error_message(error@, detailed_only),
{
    match json::str_in(json::get_in(error.get("data"), "message")) {
        Some(s) => s.to_owned(),
        None => if detailed_only {
            "unknown error".to_owned()
        } else {
            json::string_or(error.get("message"), "unknown error")
        },
    }
}

/// What an answer to a call means.
pub open spec fn result_of(response: JsonView, method: Seq<char>) -> Result<JsonView, FaultView> {
    match response.get("error"@) {
        Some(error) => Err(
            FaultView::Message(
                "RPC "@ + method + " failed: "@ + error_message(error, false),
            ),
        ),
        None => Ok(json::value_or(response.get("result"@), JsonView::Null)),
    }
}

/// What a result of a call holds.
pub open spec fn outcome_view(r: Result<Json, RpcFault>) -> Result<JsonView, FaultView> {
    match r {
        Ok(j) => Ok(j@),
        Err(e) => Err(e@),
    }
}

/// The result in an answer to a call, or the error in it.
pub fn extract_result(response: &Json, method: &str) -> (r: Result<Json, RpcFault>)
    ensures
        outcome_view(r) == result_of(response@, method@),
{
    match response.get("error") {
        Some(error) => {
            let mut out = "RPC ".to_owned();
            out.append(method);
            out.append(" failed: ");
            out.append(make_error_message(error, false).as_str());
            Err(RpcFault::Message(out))
        },
        None => Ok(json::copy_or(response.get("result"), Json::Null)),
    }
}

/// Whether an answer says that the session is over.
pub open spec fn session_over(status: u16, body: JsonView) -> bool {
    ||| status == UNAUTHORIZED
    ||| match json::member_of(body.get("error"@), "code"@) {
        Some(code) => code.signed() == Some(SESSION_OVER),
        None => false,
    }
}

/// Whether an answer says that the session is over.
pub fn is_session_over(status: u16, body: &Json) -> (r: bool)
    ensures
        r == session_over(status, body@),
{
    if status == UNAUTHORIZED {
        return true;
    }
    match json::get_in(body.get("error"), "code") {
        Some(code) => match code.as_i64() {
            Some(c) => c == SESSION_OVER,
            None => false,
        },
        None => false,
    }
}

/// What an answer to the request that opens a session means: the token, or why there is none.
pub open spec fn token_of(reply: ReplyView) -> Result<Seq<char>, FaultView> {
    match reply {
        ReplyView::NotSent => Err(FaultView::Exchange(Some("BeginSession request failed"@))),
        ReplyView::Unreadable => Err(FaultView::Exchange(None)),
        ReplyView::Answer { status, body } => match body.get("error"@) {
            Some(error) => Err(
                FaultView::Message("BeginSession failed: "@ + error_message(error, true)),
            ),
            None => match json::text_of(json::member_of(body.get("result"@), "accessToken"@)) {
                Some(token) => Ok(token),
                None => Err(FaultView::Message("BeginSession response missing accessToken"@)),
            },
        },
    }
}

/// What is kept between calls to a unit.
#[derive(Debug)]
pub struct JsonRpcClient {
    base_url: String,
    username: String,
    password: String,
    /// The token of the open session.
    token: Option<String>,
    /// The number of the next request.
    request_id: u64,
}

/// What a [`JsonRpcClient`] holds.
pub struct ClientView {
    pub base_url: Seq<char>,
    pub username: Seq<char>,
    pub password: Seq<char>,
    pub token: Option<Seq<char>>,
    pub request_id: u64,
}

impl View for JsonRpcClient {
    type V = ClientView;

    closed spec fn view(&self) -> ClientView {
        ClientView {
            base_url: self.base_url@,
            username: self.username@,
            password: self.password@,
            token: json::string_view(self.token),
            request_id: self.request_id,
        }
    }
}

/// The number after a request number.
pub open spec fn id_after(id: u64) -> u64 {
    if id == u64::MAX {
        0
    } else {
        (id + 1) as u64
    }
}

impl ClientView {
    /// The client after it has numbered one request.
    pub open spec fn numbered(self) -> ClientView {
        ClientView { request_id: id_after(self.request_id), ..self }
    }

    /// The client after the answer to the request that opens a session.
    pub open spec fn after_session(self, reply: ReplyView) -> ClientView {
        match token_of(reply) {
            Ok(token) => ClientView { token: Some(token), ..self },
            Err(_) => self,
        }
    }

    /// The request that opens a session.
    pub open spec fn session_post(self) -> PostView {
        PostView {
            url: url_of(self.base_url, Endpoint::Mmi),
            bearer: None,
            body: call_body(
                session_method(),
                session_params(self.username, self.password),
                self.request_id,
            ),
        }
    }
}

impl JsonRpcClient {
    /// A client for the unit that the settings name, without an open session.
    pub fn new(config: &AppearXConfig) -> (r: JsonRpcClient)
        ensures
            r@ == (ClientView {
                base_url: "https://"@ + config.address@,
                username: config.username@,
                password: config.password@,
                token: None,
                request_id: 1,
            }),
    {
        let mut base_url = "https://".to_owned();
        base_url.append(config.address.as_str());
        JsonRpcClient {
            base_url,
            username: config.username.clone(),
            password: config.password.clone(),
            token: None,
            request_id: 1,
        }
    }

    fn next_id(&mut self) -> (r: u64)
        ensures
            r == old(self)@.request_id,
            final(self)@ == old(self)@.numbered(),
    {
        let id: u64 = self.request_id;
        self.request_id =
        if id == u64::MAX {
            0
        } else {
            id + 1
        };
        id
    }

    fn url(&self, endpoint: Endpoint) -> (r: String)
        ensures
            r@ == url_of(self@.base_url, endpoint),
    {
        let mut out = self.base_url.clone();
        match endpoint {
            Endpoint::Mmi => {
                out.append("/mmi/api/jsonrpc");
            },
            Endpoint::Board(slot) => {
                out.append("/board/");
                out.append(text::hex_upper_of(slot as u64).as_str());
                out.append("/api/jsonrpc");
            },
        }
        out
    }

    /// The request that opens a session.
    pub fn authenticate(&mut self) -> (r: Post)
        ensures
            r@ == old(self)@.session_post(),
            final(self)@ == old(self)@.numbered(),
    {
        let id: u64 = self.next_id();
        let params = make_session_params(self.username.as_str(), self.password.as_str());
        Post {
            url: self.url(Endpoint::Mmi),
            bearer: None,
            body: make_call_body("mmi:1.0/authentication/BeginSession", params, id),
        }
    }

    /// Takes the answer to the request that opens a session and keeps the token in it.
    pub fn authenticated(&mut self, reply: Reply) -> (r: Result<(), RpcFault>)
        ensures
            final(self)@ == old(self)@.after_session(reply@),
            match r {
                Ok(_) => token_of(reply@) is Ok,
                Err(e) => token_of(reply@) == Err::<Seq<char>, FaultView>(e@),
            },
    {
        match reply {
            Reply::NotSent => Err(
                RpcFault::Exchange(Some("BeginSession request failed".to_owned())),
            ),
            Reply::Unreadable => Err(RpcFault::Exchange(None)),
            Reply::Answer { status, body } => {
                if let Some(error) = body.get("error") {
                    let mut out = "BeginSession failed: ".to_owned();
                    out.append(make_error_message(error, true).as_str());
                    return Err(RpcFault::Message(out));
                }
                match json::str_in(json::get_in(body.get("result"), "accessToken")) {
                    Some(token) => {
                        self.token = Some(token.to_owned());
                        Ok(())
                    },
                    None => Err(
                        RpcFault::Message("BeginSession response missing accessToken".to_owned()),
                    ),
                }
            },
        }
    }

    /// A call to the chassis.
    pub fn call_mmi(&self, method: &str, params: Json) -> (r: Call)
        ensures
            r@ == begin(
                self@,
                RequestView { endpoint: Endpoint::Mmi, method: method@, params: params@ },
            ),
    {
        self.call(Request { endpoint: Endpoint::Mmi, method: method.to_owned(), params })
    }

    /// A call to the card in a slot.
    pub fn call_board(&self, slot: u32, method: &str, params: Json) -> (r: Call)
        ensures
            r@ == begin(
                self@,
                RequestView { endpoint: Endpoint::Board(slot), method: method@, params: params@ },
            ),
    {
        self.call(Request { endpoint: Endpoint::Board(slot), method: method.to_owned(), params })
    }

    /// A call.
    pub fn call(&self, request: Request) -> (r: Call)
        ensures
            r@ == begin(self@, request@),
    {
        Call {
            url: self.url(request.endpoint),
            method: request.method,
            payload: request.params,
            stage: if self.token.is_some() {
                Stage::Ask
            } else {
                Stage::Login
            },
        }
    }
}

/// What a call waits for.
#[derive(Clone, Copy, Debug, PartialEq, Eq, Structural)]
pub enum Stage {
    /// The first session has to be opened.
    Login,
    /// The request has to be made.
    Ask,
    /// The session is over and another one has to be opened.
    Renew,
    /// The same request has to be made a second time.
    AskAgain,
}

impl Stage {
    /// How many exchanges there can be from here on.
    pub open spec fn exchanges_left(self) -> nat {
        match self {
            Stage::Login => 4,
            Stage::Ask => 3,
            Stage::Renew => 2,
            Stage::AskAgain => 1,
        }
    }
}

/// A call under way.
#[derive(Debug)]
pub struct Call {
    url: String,
    method: String,
    /// The parameters until the request is made, the body of the request from then on.
    payload: Json,
    stage: Stage,
}

/// What a [`Call`] holds.
pub struct CallView {
    pub url: Seq<char>,
    pub method: Seq<char>,
    pub payload: JsonView,
    pub stage: Stage,
}

impl View for Call {
    type V = CallView;

    closed spec fn view(&self) -> CallView {
        CallView {
            url: self.url@,
            method: self.method@,
            payload: self.payload@,
            stage: self.stage,
        }
    }
}

/// A call before its first exchange.
pub open spec fn begin(client: ClientView, request: RequestView) -> CallView {
    CallView {
        url: url_of(client.base_url, request.endpoint),
        method: request.method,
        payload: request.params,
        stage: if client.token is Some {
            Stage::Ask
        } else {
            Stage::Login
        },
    }
}

/// What a call sends next.
pub open spec fn post_of(call: CallView, client: ClientView) -> PostView {
    match call.stage {
        Stage::Login | Stage::Renew => client.session_post(),
        Stage::Ask => PostView {
            url: call.url,
            bearer: Some(json::text_or(client.token, Seq::empty())),
            body: call_body(call.method, call.payload, client.request_id),
        },
        Stage::AskAgain => PostView {
            url: call.url,
            bearer: Some(json::text_or(client.token, Seq::empty())),
            body: call.payload,
        },
    }
}

/// A call after it said what it sends next, and the client after that.
pub open spec fn sent(call: CallView, client: ClientView) -> (CallView, ClientView) {
    match call.stage {
        Stage::Login | Stage::Renew => (call, client.numbered()),
        Stage::Ask => (
            CallView {
                payload: call_body(call.method, call.payload, client.request_id),
                ..call
            },
            client.numbered(),
        ),
        Stage::AskAgain => (call, client),
    }
}

/// Where a call stands after an exchange.
pub enum ProgressView {
    /// There is another exchange to make.
    Again(CallView),
    /// The call is finished.
    Finished(Result<JsonView, FaultView>),
}

/// Where a call stands after an exchange.
#[derive(Debug)]
pub enum Progress {
    /// There is another exchange to make.
    Again(Call),
    /// The call is finished.
    Finished(Result<Json, RpcFault>),
}

impl View for Progress {
    type V = ProgressView;

    open spec fn view(&self) -> ProgressView {
        match *self {
            Progress::Again(c) => ProgressView::Again(c@),
            Progress::Finished(r) => ProgressView::Finished(outcome_view(r)),
        }
    }
}

/// Where a call stands after what it sent was answered.
pub open spec fn answered(call: CallView, reply: ReplyView) -> ProgressView {
    match call.stage {
        Stage::Login => match token_of(reply) {
            Ok(_) => ProgressView::Again(CallView { stage: Stage::Ask, ..call }),
            Err(e) => ProgressView::Finished(Err(e)),
        },
        Stage::Ask => match reply {
            ReplyView::NotSent => ProgressView::Finished(
                Err(FaultView::Exchange(Some("RPC call to "@ + call.method + " failed"@))),
            ),
            ReplyView::Unreadable => ProgressView::Finished(Err(FaultView::Exchange(None))),
            ReplyView::Answer { status, body } => if session_over(status, body) {
                ProgressView::Again(CallView { stage: Stage::Renew, ..call })
            } else {
                ProgressView::Finished(result_of(body, call.method))
            },
        },
        Stage::Renew => match token_of(reply) {
            Ok(_) => ProgressView::Again(CallView { stage: Stage::AskAgain, ..call }),
            Err(e) => ProgressView::Finished(Err(e)),
        },
        Stage::AskAgain => match reply {
            ReplyView::NotSent => ProgressView::Finished(Err(FaultView::Exchange(None))),
            ReplyView::Unreadable => ProgressView::Finished(Err(FaultView::Exchange(None))),
            ReplyView::Answer { status, body } => ProgressView::Finished(
                result_of(body, call.method),
            ),
        },
    }
}

/// The client after what a call sent was answered.
pub open spec fn client_after(client: ClientView, call: CallView, reply: ReplyView) -> ClientView {
    match call.stage {
        Stage::Login | Stage::Renew => client.after_session(reply),
        Stage::Ask | Stage::AskAgain => client,
    }
}

impl Call {
    /// What to send next.
    pub fn request(&mut self, client: &mut JsonRpcClient) -> (r: Post)
        ensures
            r@ == post_of(old(self)@, old(client)@),
            (final(self)@, final(client)@) == sent(old(self)@, old(client)@),
    {
        match self.stage {
            Stage::Login | Stage::Renew => client.authenticate(),
            Stage::Ask => {
                let id: u64 = client.next_id();
                let body = make_call_body(self.method.as_str(), self.payload.copy(), id);
                self.payload = body.copy();
                Post { url: self.url.clone(), bearer: Some(bearer_of(client)), body }
            },
            Stage::AskAgain => Post {
                url: self.url.clone(),
                bearer: Some(bearer_of(client)),
                body: self.payload.copy(),
            },
        }
    }

    /// Takes the answer to what was sent.
    pub fn answer(self, client: &mut JsonRpcClient, reply: Reply) -> (r: Progress)
        ensures
            r@ == answered(self@, reply@),
            final(client)@ == client_after(old(client)@, self@, reply@),
    {
        match self.stage {
            Stage::Login => match client.authenticated(reply) {
                Ok(_) => Progress::Again(Call { stage: Stage::Ask, ..self }),
                Err(e) => Progress::Finished(Err(e)),
            },
            Stage::Ask => match reply {
                Reply::NotSent => {
                    let mut out = "RPC call to ".to_owned();
                    out.append(self.method.as_str());
                    out.append(" failed");
                    Progress::Finished(Err(RpcFault::Exchange(Some(out))))
                },
                Reply::Unreadable => Progress::Finished(Err(RpcFault::Exchange(None))),
                Reply::Answer { status, body } => if is_session_over(status, &body) {
                    Progress::Again(Call { stage: Stage::Renew, ..self })
                } else {
                    Progress::Finished(extract_result(&body, self.method.as_str()))
                },
            },
            Stage::Renew => match client.authenticated(reply) {
                Ok(_) => Progress::Again(Call { stage: Stage::AskAgain, ..self }),
                Err(e) => Progress::Finished(Err(e)),
            },
            Stage::AskAgain => match reply {
                Reply::NotSent => Progress::Finished(Err(RpcFault::Exchange(None))),
                Reply::Unreadable => Progress::Finished(Err(RpcFault::Exchange(None))),
                Reply::Answer { status, body } => Progress::Finished(
                    extract_result(&body, self.method.as_str()),
                ),
            },
        }
    }
}

fn bearer_of(client: &JsonRpcClient) -> (r: String)
    ensures
        r@ == json::text_or(client@.token, Seq::empty()),
{
    match &client.token {
        Some(t) => t.clone(),
        None => String::new(),
    }
}

/// A call makes at most four exchanges, whatever is answered: each leaves fewer to make.
pub proof fn law_call_ends(call: CallView, reply: ReplyView)
    ensures
        1 <= call.stage.exchanges_left() <= 4,
        match answered(call, reply) {
            ProgressView::Again(next) => next.stage.exchanges_left() < call.stage.exchanges_left(),
            ProgressView::Finished(_) => true,
        },
{
}

/// Where the session turns out to be over, the call opens another one and makes the same request
/// a second time, with the new token; whatever is answered then is the result.
pub proof fn law_session_renewed(
    client: ClientView,
    call: CallView,
    status: u16,
    body: JsonView,
    token: Seq<char>,
    session_reply: ReplyView,
    reply: ReplyView,
)
    requires
        call.stage == Stage::Ask,
        session_over(status, body),
        token_of(session_reply) == Ok::<Seq<char>, FaultView>(token),
    ensures
        ({
            let first = post_of(call, client);
            let (asked, client1) = sent(call, client);
            answered(asked, ReplyView::Answer { status, body }) matches ProgressView::Again(renew)
                && {
                let session = post_of(renew, client1);
                let (renewing, client2) = sent(renew, client1);
                let client3 = client_after(client2, renewing, session_reply);
                &&& session == client1.session_post()
                &&& answered(renewing, session_reply) matches ProgressView::Again(again) && {
                    &&& post_of(again, client3) == (PostView { bearer: Some(token), ..first })
                    &&& answered(again, reply) is Finished
                }
            }
        }),
{
}

} // verus!

//! The life of a session: the handshake, the used request ids, the ping and
//! the shutdown, as rules from a state and a message to the next state and
//! what to do.

use crate::error::Error;
use crate::json::{str_eq, Json, JsonView};
use crate::protocol::error_codes::{
    INVALID_REQUEST, REQUEST_CANCELLED, SERVER_NOT_INITIALIZED,
};
use crate::protocol::message::{clone_opt, inserted, opt_view};
use crate::protocol::{
    opt_id_view, Message, MessageView, Method, Notification, NotificationView, Request, RequestId,
    RequestIdView, RequestView, Response, ResponseError, ResponseErrorView, ResponseView,
    UsedIds, JSONRPC_VERSION, PROTOCOL_VERSION,
};
use vstd::prelude::*;

verus! {

/// Where a peer is in the life of a session.
#[derive(Debug, Clone, Copy, PartialEq, Eq, Structural)]
pub enum Phase {
    /// Nothing has been exchanged.
    Uninitialized,
    /// `initialize` has been sent or answered, `initialized` not yet.
    Initializing,
    /// The handshake is complete.
    Active,
    /// `shutdown` has been sent or answered, `exit` not yet.
    ShuttingDown,
    /// The session is over.
    Exited,
}

/// The response that reports an error without structured detail.
pub open spec fn error_reply(code: i32, message: Seq<char>, id: RequestIdView) -> ResponseView {
    ResponseView {
        jsonrpc: JSONRPC_VERSION@,
        id,
        result: None,
        error: Some(ResponseErrorView { code, message, data: None }),
    }
}

/// The response that reports a result.
pub open spec fn success_reply(result: JsonView, id: RequestIdView) -> ResponseView {
    ResponseView { jsonrpc: JSONRPC_VERSION@, id, result: Some(result), error: None }
}

/// The protocol version that the parameters of `initialize` ask for;
/// `unknown` where they name none.
pub open spec fn requested_version(params: Option<JsonView>) -> Seq<char> {
    match params {
        Some(p) => match p.text_member("protocolVersion"@) {
            Some(v) => v,
            None => "unknown"@,
        },
        None => "unknown"@,
    }
}

/// The detail of the error that refuses a protocol version: the versions
/// that are supported, and the one that was asked for.
pub open spec fn mismatch_data(requested: Seq<char>) -> JsonView {
    JsonView::Object(
        Seq::empty().push(
            ("supported"@, JsonView::Array(Seq::empty().push(JsonView::Str(PROTOCOL_VERSION@)))),
        ).push(("requested"@, JsonView::Str(requested))),
    )
}

/// The response that refuses a protocol version.
pub open spec fn mismatch_reply(requested: Seq<char>, id: RequestIdView) -> ResponseView {
    ResponseView {
        jsonrpc: JSONRPC_VERSION@,
        id,
        result: None,
        error: Some(
            ResponseErrorView {
                code: INVALID_REQUEST,
                message: "Unsupported protocol version"@,
                data: Some(mismatch_data(requested)),
            },
        ),
    }
}

/// The result of `initialize`: the protocol version, and what the server
/// tells of itself.
pub open spec fn initialize_result(capabilities: JsonView, server_info: JsonView) -> JsonView {
    JsonView::Object(
        Seq::empty().push(("protocolVersion"@, JsonView::Str(PROTOCOL_VERSION@))).push(
            ("capabilities"@, capabilities),
        ).push(("serverInfo"@, server_info)),
    )
}

/// The parameters of `initialize`: the protocol version, and what the
/// client tells of itself.
pub open spec fn initialize_params(capabilities: JsonView, client_info: JsonView) -> JsonView {
    JsonView::Object(
        Seq::empty().push(("protocolVersion"@, JsonView::Str(PROTOCOL_VERSION@))).push(
            ("capabilities"@, capabilities),
        ).push(("clientInfo"@, client_info)),
    )
}

/// The member `key` of optional parameters.
pub open spec fn opt_member(params: Option<JsonView>, key: Seq<char>) -> Option<JsonView> {
    match params {
        Some(p) => p.member(key),
        None => None,
    }
}

/// The mathematical value of a [`Session`].
pub struct SessionView {
    /// Where the peer is in the life of the session.
    pub phase: Phase,
    /// The canonical texts of the ids of the requests that this peer has
    /// sent.
    pub sent: Set<Seq<char>>,
    /// The canonical texts of the ids of the requests that this peer has
    /// received.
    pub seen: Set<Seq<char>>,
    /// The id of the `initialize` or `shutdown` request that this peer has
    /// sent and that is not answered yet.
    pub awaiting: Option<RequestIdView>,
    /// What the peer told of its capabilities in the handshake.
    pub peer_capabilities: Option<JsonView>,
    /// What the peer told of its implementation in the handshake.
    pub peer_info: Option<JsonView>,
}

/// What a server does with a message.
#[derive(Debug, PartialEq, Eq)]
pub enum ServerStep {
    /// Send this response.
    Reply(Response),
    /// Hand the request to the handlers of the application; where none
    /// knows the method, answer that the method was not found.
    Dispatch,
    /// Hand the notification to the application as it is.
    Forward,
    /// Match the response with the request that this peer has sent.
    Deliver,
    /// Pass the message over.
    Nothing,
    /// Dispose of the session.
    Exit,
}

/// The mathematical value of a [`ServerStep`].
pub enum ServerStepView {
    Reply(ResponseView),
    Dispatch,
    Forward,
    Deliver,
    Nothing,
    Exit,
}

impl View for ServerStep {
    type V = ServerStepView;

    open spec fn view(&self) -> ServerStepView {
        match self {
            ServerStep::Reply(r) => ServerStepView::Reply(r@),
            ServerStep::Dispatch => ServerStepView::Dispatch,
            ServerStep::Forward => ServerStepView::Forward,
            ServerStep::Deliver => ServerStepView::Deliver,
            ServerStep::Nothing => ServerStepView::Nothing,
            ServerStep::Exit => ServerStepView::Exit,
        }
    }
}

impl SessionView {
    /// The session before anything was exchanged.
    pub open spec fn start() -> SessionView {
        SessionView {
            phase: Phase::Uninitialized,
            sent: Set::empty(),
            seen: Set::empty(),
            awaiting: None,
            peer_capabilities: None,
            peer_info: None,
        }
    }

    /// What a server does with a request whose id is new to the session.
    pub open spec fn served(
        self,
        request: RequestView,
        capabilities: JsonView,
        server_info: JsonView,
    ) -> (SessionView, ServerStepView) {
        if request.method == "initialize"@ {
            if self.phase != Phase::Uninitialized {
                (
                    self,
                    ServerStepView::Reply(
                        error_reply(INVALID_REQUEST, "Server already initialized"@, request.id),
                    ),
                )
            } else if requested_version(request.params) != PROTOCOL_VERSION@ {
                (
                    self,
                    ServerStepView::Reply(
                        mismatch_reply(requested_version(request.params), request.id),
                    ),
                )
            } else {
                (
                    SessionView {
                        phase: Phase::Initializing,
                        peer_capabilities: opt_member(request.params, "capabilities"@),
                        peer_info: opt_member(request.params, "clientInfo"@),
                        ..self
                    },
                    ServerStepView::Reply(
                        success_reply(initialize_result(capabilities, server_info), request.id),
                    ),
                )
            }
        } else if self.phase == Phase::Uninitialized || self.phase == Phase::Initializing {
            (
                self,
                ServerStepView::Reply(
                    error_reply(SERVER_NOT_INITIALIZED, "Server not initialized"@, request.id),
                ),
            )
        } else if self.phase == Phase::ShuttingDown {
            (
                self,
                ServerStepView::Reply(
                    error_reply(INVALID_REQUEST, "Server is shutting down"@, request.id),
                ),
            )
        } else if request.method == "shutdown"@ {
            (
                SessionView { phase: Phase::ShuttingDown, ..self },
                ServerStepView::Reply(success_reply(JsonView::Null, request.id)),
            )
        } else if request.method == "ping"@ {
            (
                self,
                ServerStepView::Reply(success_reply(JsonView::Object(Seq::empty()), request.id)),
            )
        } else {
            (self, ServerStepView::Dispatch)
        }
    }

    /// What a server does with a message. After the session has exited,
    /// nothing. A request whose id the session has seen before is refused
    /// as invalid; any other request has its id recorded and is served.
    /// `initialized` completes the handshake, `exit` ends the session, and
    /// any other notification is forwarded once the session is active. A
    /// response is delivered where it answers a request that this peer has
    /// sent, and passed over where it does not.
    pub open spec fn received(
        self,
        message: MessageView,
        capabilities: JsonView,
        server_info: JsonView,
    ) -> (SessionView, ServerStepView) {
        if self.phase == Phase::Exited {
            (self, ServerStepView::Nothing)
        } else {
            match message {
                MessageView::Request(request) => if !inserted(self.seen, request.id).0 {
                    (
                        self,
                        ServerStepView::Reply(
                            error_reply(
                                INVALID_REQUEST,
                                "Request ID has already been used"@,
                                request.id,
                            ),
                        ),
                    )
                } else {
                    (SessionView { seen: inserted(self.seen, request.id).1, ..self }).served(
                        request,
                        capabilities,
                        server_info,
                    )
                },
                MessageView::Notification(n) => if n.method == "exit"@ {
                    (SessionView { phase: Phase::Exited, ..self }, ServerStepView::Exit)
                } else if n.method == "initialized"@ {
                    if self.phase == Phase::Initializing {
                        (SessionView { phase: Phase::Active, ..self }, ServerStepView::Nothing)
                    } else {
                        (self, ServerStepView::Nothing)
                    }
                } else if self.phase == Phase::Active {
                    (self, ServerStepView::Forward)
                } else {
                    (self, ServerStepView::Nothing)
                },
                MessageView::Response(r) => if self.sent.contains(r.id.canonical()) {
                    (self, ServerStepView::Deliver)
                } else {
                    (self, ServerStepView::Nothing)
                },
            }
        }
    }
}

/// Whatever a server replies to a request carries the id of that request
/// and exactly one of result and error.
pub proof fn lemma_reply_pairs_with_request(
    session: SessionView,
    request: RequestView,
    capabilities: JsonView,
    server_info: JsonView,
)
    ensures
        session.received(MessageView::Request(request), capabilities, server_info).1
            matches ServerStepView::Reply(r) ==> r.id == request.id && r.one_outcome(),
{
}

/// A server that has answered `initialize` with success refuses a second
/// `initialize` as an invalid request, whatever its id.
pub proof fn lemma_second_initialize_refused(
    session: SessionView,
    request: RequestView,
    capabilities: JsonView,
    server_info: JsonView,
)
    requires
        session.phase != Phase::Uninitialized,
        session.phase != Phase::Exited,
        request.method == "initialize"@,
    ensures
        session.received(MessageView::Request(request), capabilities, server_info).1
            matches ServerStepView::Reply(r) && r.error matches Some(e) && e.code
            == INVALID_REQUEST,
        session.received(MessageView::Request(request), capabilities, server_info).0.phase
            == session.phase,
{
}

/// A server that has not seen `initialized` answers every request but
/// `initialize` with an error: that it is not initialized, or, for an id
/// that was used before, that the request is invalid.
pub proof fn lemma_uninitialized_refuses(
    session: SessionView,
    request: RequestView,
    capabilities: JsonView,
    server_info: JsonView,
)
    requires
        session.phase == Phase::Uninitialized || session.phase == Phase::Initializing,
        request.method != "initialize"@,
    ensures
        session.received(MessageView::Request(request), capabilities, server_info).1
            matches ServerStepView::Reply(r) && r.error matches Some(e) && (e.code
            == SERVER_NOT_INITIALIZED || e.code == INVALID_REQUEST),
        !session.seen.contains(request.id.canonical()) ==> session.received(
            MessageView::Request(request),
            capabilities,
            server_info,
        ).1 == ServerStepView::Reply(
            error_reply(SERVER_NOT_INITIALIZED, "Server not initialized"@, request.id),
        ),
{
}

/// The used ids of a session only grow.
pub proof fn lemma_ids_grow(
    session: SessionView,
    message: MessageView,
    capabilities: JsonView,
    server_info: JsonView,
)
    ensures
        session.seen.subset_of(session.received(message, capabilities, server_info).0.seen),
        session.sent.subset_of(session.received(message, capabilities, server_info).0.sent),
{
}

} // verus!

verus! {

/// Why a client may not send a request.
#[derive(Debug, Clone, Copy, PartialEq, Eq, Structural)]
pub enum SendFault {
    /// The session has used the id before.
    DuplicateId,
    /// `initialize` may only open a session.
    AlreadyInitialized,
    /// Only `initialize` may be sent before the handshake is complete, and
    /// nothing after `shutdown`.
    NotActive,
}

impl SendFault {
    /// What the fault says to a human reader.
    pub open spec fn spec_message(self) -> Seq<char> {
        match self {
            SendFault::DuplicateId => "Request ID has already been used in this session"@,
            SendFault::AlreadyInitialized => "Session is already initialized"@,
            SendFault::NotActive => "Session is not active"@,
        }
    }

    /// What the fault says to a human reader.
    pub fn message(&self) -> (r: &'static str)
        ensures
            r@ == self.spec_message(),
    {
        match self {
            SendFault::DuplicateId => "Request ID has already been used in this session",
            SendFault::AlreadyInitialized => "Session is already initialized",
            SendFault::NotActive => "Session is not active",
        }
    }
}

/// Why a client gives up the handshake.
#[derive(Debug, Clone, Copy, PartialEq, Eq, Structural)]
pub enum AbortReason {
    /// The server answered `initialize` with an error.
    Rejected,
    /// The server answered with another protocol version, or with none.
    VersionMismatch,
}

/// What a client does with a response.
#[derive(Debug, PartialEq, Eq)]
pub enum ClientStep {
    /// Pass the response over: it answers nothing that was sent.
    Drop,
    /// Hand the response to the caller that waits for it.
    Deliver,
    /// The handshake has succeeded: send this `initialized` notification.
    SendInitialized(Notification),
    /// The shutdown was granted: send this `exit` notification.
    SendExit(Notification),
    /// Give up the session, and send nothing.
    Abort(AbortReason),
}

/// The mathematical value of a [`ClientStep`].
pub enum ClientStepView {
    Drop,
    Deliver,
    SendInitialized(NotificationView),
    SendExit(NotificationView),
    Abort(AbortReason),
}

impl View for ClientStep {
    type V = ClientStepView;

    open spec fn view(&self) -> ClientStepView {
        match self {
            ClientStep::Drop => ClientStepView::Drop,
            ClientStep::Deliver => ClientStepView::Deliver,
            ClientStep::SendInitialized(n) => ClientStepView::SendInitialized(n@),
            ClientStep::SendExit(n) => ClientStepView::SendExit(n@),
            ClientStep::Abort(r) => ClientStepView::Abort(*r),
        }
    }
}

/// The notification of `method` without parameters.
pub open spec fn plain_notification(method: Seq<char>) -> NotificationView {
    NotificationView { jsonrpc: JSONRPC_VERSION@, method, params: None }
}

/// The protocol version that a result of `initialize` names.
pub open spec fn answered_version(result: Option<JsonView>) -> Option<Seq<char>> {
    match result {
        Some(r) => r.text_member("protocolVersion"@),
        None => None,
    }
}

impl SessionView {
    /// The session after a client has sent `request`, or why it may not
    /// send it. An id that the session has used is refused. `initialize`
    /// may only open the session; everything else needs an active session.
    /// `shutdown` begins the end of the session.
    pub open spec fn sending(self, request: RequestView) -> Result<SessionView, SendFault> {
        if !inserted(self.sent, request.id).0 {
            Err(SendFault::DuplicateId)
        } else if request.method == "initialize"@ {
            if self.phase == Phase::Uninitialized {
                Ok(
                    SessionView {
                        phase: Phase::Initializing,
                        sent: inserted(self.sent, request.id).1,
                        awaiting: Some(request.id),
                        ..self
                    },
                )
            } else {
                Err(SendFault::AlreadyInitialized)
            }
        } else if self.phase != Phase::Active {
            Err(SendFault::NotActive)
        } else if request.method == "shutdown"@ {
            Ok(
                SessionView {
                    phase: Phase::ShuttingDown,
                    sent: inserted(self.sent, request.id).1,
                    awaiting: Some(request.id),
                    ..self
                },
            )
        } else {
            Ok(SessionView { sent: inserted(self.sent, request.id).1, ..self })
        }
    }

    /// Whether the session waits for the answer to `initialize` or
    /// `shutdown` under an id with the text of `id`.
    pub open spec fn awaits(self, id: RequestIdView) -> bool {
        match self.awaiting {
            Some(a) => a.canonical() == id.canonical(),
            None => false,
        }
    }

    /// What a client does with a response. One that answers no request of
    /// this session is dropped. The answer to `initialize` completes the
    /// handshake where it is a result with the protocol version of this
    /// library, and ends the session where it is an error or names another
    /// version. The answer to `shutdown` ends the session where it is a
    /// result. Any other response is delivered.
    pub open spec fn answered(self, response: ResponseView) -> (SessionView, ClientStepView) {
        if !self.sent.contains(response.id.canonical()) {
            (self, ClientStepView::Drop)
        } else if !self.awaits(response.id) {
            (self, ClientStepView::Deliver)
        } else if self.phase == Phase::Initializing {
            if response.error is Some {
                (
                    SessionView { phase: Phase::Exited, awaiting: None, ..self },
                    ClientStepView::Abort(AbortReason::Rejected),
                )
            } else if answered_version(response.result) == Some(PROTOCOL_VERSION@) {
                (
                    SessionView {
                        phase: Phase::Active,
                        awaiting: None,
                        peer_capabilities: opt_member(response.result, "capabilities"@),
                        peer_info: opt_member(response.result, "serverInfo"@),
                        ..self
                    },
                    ClientStepView::SendInitialized(plain_notification("initialized"@)),
                )
            } else {
                (
                    SessionView { phase: Phase::Exited, awaiting: None, ..self },
                    ClientStepView::Abort(AbortReason::VersionMismatch),
                )
            }
        } else if self.phase == Phase::ShuttingDown {
            if response.error is Some {
                (
                    SessionView { phase: Phase::Active, awaiting: None, ..self },
                    ClientStepView::Deliver,
                )
            } else {
                (
                    SessionView { phase: Phase::Exited, awaiting: None, ..self },
                    ClientStepView::SendExit(plain_notification("exit"@)),
                )
            }
        } else {
            (self, ClientStepView::Deliver)
        }
    }
}

/// A client never sends `initialized` after an answer to `initialize` that
/// names another protocol version: it gives up the session.
pub proof fn lemma_version_mismatch_aborts(session: SessionView, response: ResponseView)
    requires
        session.phase == Phase::Initializing,
        session.awaits(response.id),
        session.sent.contains(response.id.canonical()),
        answered_version(response.result) != Some(PROTOCOL_VERSION@),
    ensures
        session.answered(response).1 matches ClientStepView::Abort(_),
        session.answered(response).0.phase == Phase::Exited,
{
}

/// A client may send a request with one id once: after it has sent one,
/// any request whose id has the same canonical text is refused.
pub proof fn lemma_second_send_refused(session: SessionView, first: RequestView, second: RequestView)
    requires
        session.sending(first) is Ok,
        second.id.canonical() == first.id.canonical(),
    ensures
        session.sending(first)->Ok_0.sending(second) == Err::<SessionView, SendFault>(
            SendFault::DuplicateId,
        ),
{
}

/// What a peer knows of a session.
pub struct Session {
    phase: Phase,
    sent: UsedIds,
    seen: UsedIds,
    awaiting: Option<RequestId>,
    peer_capabilities: Option<Json>,
    peer_info: Option<Json>,
}

impl View for Session {
    type V = SessionView;

    closed spec fn view(&self) -> SessionView {
        SessionView {
            phase: self.phase,
            sent: self.sent@,
            seen: self.seen@,
            awaiting: opt_id_view(self.awaiting),
            peer_capabilities: opt_view(self.peer_capabilities),
            peer_info: opt_view(self.peer_info),
        }
    }
}

/// The response that reports an error without structured detail.
fn reply_error(code: i32, message: &str, id: &RequestId) -> (r: Response)
    ensures
        r@ == error_reply(code, message@, id@),
{
    Response::error(ResponseError::new(code, message), id.clone())
}

/// A copy of the member `key` of optional parameters.
fn member_of(params: &Option<Json>, key: &str) -> (r: Option<Json>)
    ensures
        opt_view(r) == opt_member(opt_view(*params), key@),
{
    match params {
        Some(p) => match p.get(key) {
            Some(m) => Some(m.clone()),
            None => None,
        },
        None => None,
    }
}

/// The string member `key` of an optional value.
fn text_of(value: &Option<Json>, key: &str) -> (r: Option<String>)
    ensures
        match r {
            Some(s) => opt_view(*value) matches Some(v) && v.text_member(key@) == Some(s@),
            None => opt_view(*value) matches Some(v) ==> v.text_member(key@) is None,
        },
{
    match value {
        Some(v) => match v.get_str(key) {
            Some(s) => Some(s.clone()),
            None => None,
        },
        None => None,
    }
}

impl Session {
    /// A session in which nothing was exchanged.
    pub fn new() -> (r: Session)
        ensures
            r@ == SessionView::start(),
    {
        Session {
            phase: Phase::Uninitialized,
            sent: UsedIds::new(),
            seen: UsedIds::new(),
            awaiting: None,
            peer_capabilities: None,
            peer_info: None,
        }
    }

    /// Where the peer is in the life of the session.
    pub fn phase(&self) -> (r: Phase)
        ensures
            r == self@.phase,
    {
        self.phase
    }

    /// Whether the handshake is complete and the session not yet ending.
    pub fn is_initialized(&self) -> (r: bool)
        ensures
            r == (self@.phase == Phase::Active),
    {
        match self.phase {
            Phase::Active => true,
            _ => false,
        }
    }

    /// What the peer told of its capabilities in the handshake.
    pub fn peer_capabilities(&self) -> (r: Option<&Json>)
        ensures
            match r {
                Some(j) => self@.peer_capabilities == Some(j@),
                None => self@.peer_capabilities is None,
            },
    {
        self.peer_capabilities.as_ref()
    }

    /// What the peer told of its implementation in the handshake.
    pub fn peer_info(&self) -> (r: Option<&Json>)
        ensures
            match r {
                Some(j) => self@.peer_info == Some(j@),
                None => self@.peer_info is None,
            },
    {
        self.peer_info.as_ref()
    }

    /// Serves a request whose id was just recorded.
    fn serve(&mut self, request: &Request, capabilities: &Json, server_info: &Json) -> (r:
        ServerStep)
        ensures
            (final(self)@, r@) == old(self)@.served(request@, capabilities@, server_info@),
    {
        if str_eq(request.method.as_str(), "initialize") {
            match self.phase {
                Phase::Uninitialized => {},
                _ => {
                    return ServerStep::Reply(
                        reply_error(INVALID_REQUEST, "Server already initialized", &request.id),
                    );
                },
            }
            let requested = match text_of(&request.params, "protocolVersion") {
                Some(v) => v,
                None => "unknown".to_owned(),
            };
            if !str_eq(requested.as_str(), PROTOCOL_VERSION) {
                let mut supported: Vec<Json> = Vec::new();
                supported.push(Json::string(PROTOCOL_VERSION));
                let supported = Json::array(supported);
                assert(supported@->Array_0 =~= Seq::empty().push(JsonView::Str(PROTOCOL_VERSION@)));
                let mut members: Vec<(String, Json)> = Vec::new();
                members.push(("supported".to_owned(), supported));
                members.push(("requested".to_owned(), Json::Str(requested)));
                let data = Json::object(members);
                assert(data@->Object_0 =~= mismatch_data(requested@)->Object_0);
                let error = ResponseError {
                    code: INVALID_REQUEST,
                    message: "Unsupported protocol version".to_owned(),
                    data: Some(data),
                };
                return ServerStep::Reply(Response::error(error, request.id.clone()));
            }
            self.peer_capabilities = member_of(&request.params, "capabilities");
            self.peer_info = member_of(&request.params, "clientInfo");
            self.phase = Phase::Initializing;
            let mut members: Vec<(String, Json)> = Vec::new();
            members.push(("protocolVersion".to_owned(), Json::string(PROTOCOL_VERSION)));
            members.push(("capabilities".to_owned(), capabilities.clone()));
            members.push(("serverInfo".to_owned(), server_info.clone()));
            let result = Json::object(members);
            assert(result@->Object_0 =~= initialize_result(capabilities@, server_info@)->Object_0);
            return ServerStep::Reply(Response::success(result, request.id.clone()));
        }
        match self.phase {
            Phase::Uninitialized | Phase::Initializing => ServerStep::Reply(
                reply_error(SERVER_NOT_INITIALIZED, "Server not initialized", &request.id),
            ),
            Phase::ShuttingDown => ServerStep::Reply(
                reply_error(INVALID_REQUEST, "Server is shutting down", &request.id),
            ),
            _ => {
                if str_eq(request.method.as_str(), "shutdown") {
                    self.phase = Phase::ShuttingDown;
                    ServerStep::Reply(Response::success(Json::Null, request.id.clone()))
                } else if str_eq(request.method.as_str(), "ping") {
                    ServerStep::Reply(Response::success(Json::empty_object(), request.id.clone()))
                } else {
                    ServerStep::Dispatch
                }
            },
        }
    }

    /// Takes in a message on the server's side. `capabilities` and
    /// `server_info` are what the server tells of itself when it answers
    /// `initialize`.
    pub fn handle(&mut self, message: &Message, capabilities: &Json, server_info: &Json) -> (r:
        ServerStep)
        ensures
            (final(self)@, r@) == old(self)@.received(message@, capabilities@, server_info@),
    {
        match self.phase {
            Phase::Exited => {
                return ServerStep::Nothing;
            },
            _ => {},
        }
        match message {
            Message::Request(request) => {
                if !self.seen.insert(&request.id) {
                    assert(self.seen@ =~= old(self).seen@);
                    return ServerStep::Reply(
                        reply_error(
                            INVALID_REQUEST,
                            "Request ID has already been used",
                            &request.id,
                        ),
                    );
                }
                self.serve(request, capabilities, server_info)
            },
            Message::Notification(n) => {
                if str_eq(n.method.as_str(), "exit") {
                    self.phase = Phase::Exited;
                    ServerStep::Exit
                } else if str_eq(n.method.as_str(), "initialized") {
                    match self.phase {
                        Phase::Initializing => {
                            self.phase = Phase::Active;
                        },
                        _ => {},
                    }
                    ServerStep::Nothing
                } else {
                    match self.phase {
                        Phase::Active => ServerStep::Forward,
                        _ => ServerStep::Nothing,
                    }
                }
            },
            Message::Response(r) => {
                let text = r.id.canonical();
                if self.sent.contains(text.as_str()) {
                    ServerStep::Deliver
                } else {
                    ServerStep::Nothing
                }
            },
        }
    }
}

} // verus!

verus! {

impl Session {
    /// The `initialize` request of a client with the id `id`, which tells
    /// the protocol version and what the client says of itself.
    pub fn initialize_request(id: RequestId, capabilities: Json, client_info: Json) -> (r: Request)
        ensures
            r@ == (RequestView {
                jsonrpc: JSONRPC_VERSION@,
                method: "initialize"@,
                params: Some(initialize_params(capabilities@, client_info@)),
                id: id@,
            }),
    {
        let mut members: Vec<(String, Json)> = Vec::new();
        members.push(("protocolVersion".to_owned(), Json::string(PROTOCOL_VERSION)));
        members.push(("capabilities".to_owned(), capabilities));
        members.push(("clientInfo".to_owned(), client_info));
        let params = Json::object(members);
        assert(params@->Object_0 =~= initialize_params(capabilities@, client_info@)->Object_0);
        Request::new(Method::Initialize, Some(params), id)
    }

    /// Clears a request for sending on the client's side, before any byte
    /// of it is written. Where the request may not be sent, the session is
    /// left as it is and a protocol error names the fault.
    pub fn send_request(&mut self, request: &Request) -> (r: Result<(), Error>)
        ensures
            match old(self)@.sending(request@) {
                Ok(next) => r is Ok && final(self)@ == next,
                Err(f) => r matches Err(Error::Protocol(t)) && t@ == f.spec_message()
                    && final(self)@ == old(self)@,
            },
    {
        let text = request.id.canonical();
        if self.sent.contains(text.as_str()) {
            return Err(Error::Protocol(SendFault::DuplicateId.message().to_owned()));
        }
        if str_eq(request.method.as_str(), "initialize") {
            match self.phase {
                Phase::Uninitialized => {},
                _ => {
                    return Err(Error::Protocol(SendFault::AlreadyInitialized.message().to_owned()));
                },
            }
            self.sent.insert(&request.id);
            self.phase = Phase::Initializing;
            self.awaiting = Some(request.id.clone());
            return Ok(());
        }
        match self.phase {
            Phase::Active => {},
            _ => {
                return Err(Error::Protocol(SendFault::NotActive.message().to_owned()));
            },
        }
        self.sent.insert(&request.id);
        if str_eq(request.method.as_str(), "shutdown") {
            self.phase = Phase::ShuttingDown;
            self.awaiting = Some(request.id.clone());
        }
        Ok(())
    }

    /// Takes in a response on the client's side.
    pub fn receive_response(&mut self, response: &Response) -> (r: ClientStep)
        ensures
            (final(self)@, r@) == old(self)@.answered(response@),
    {
        let text = response.id.canonical();
        if !self.sent.contains(text.as_str()) {
            return ClientStep::Drop;
        }
        let awaited = match &self.awaiting {
            Some(id) => str_eq(id.canonical().as_str(), text.as_str()),
            None => false,
        };
        if !awaited {
            return ClientStep::Deliver;
        }
        match self.phase {
            Phase::Initializing => {
                if response.error.is_some() {
                    self.phase = Phase::Exited;
                    self.awaiting = None;
                    return ClientStep::Abort(AbortReason::Rejected);
                }
                let agreed = match text_of(&response.result, "protocolVersion") {
                    Some(v) => str_eq(v.as_str(), PROTOCOL_VERSION),
                    None => false,
                };
                if agreed {
                    self.peer_capabilities = member_of(&response.result, "capabilities");
                    self.peer_info = member_of(&response.result, "serverInfo");
                    self.phase = Phase::Active;
                    self.awaiting = None;
                    ClientStep::SendInitialized(Notification::new(Method::Initialized, None))
                } else {
                    self.phase = Phase::Exited;
                    self.awaiting = None;
                    ClientStep::Abort(AbortReason::VersionMismatch)
                }
            },
            Phase::ShuttingDown => {
                self.awaiting = None;
                if response.error.is_some() {
                    self.phase = Phase::Active;
                    ClientStep::Deliver
                } else {
                    self.phase = Phase::Exited;
                    ClientStep::SendExit(Notification::new(Method::Exit, None))
                }
            },
            _ => ClientStep::Deliver,
        }
    }
}

/// The milliseconds that a caller should wait for the answer to a ping.
pub const PING_TIMEOUT_MILLIS: u64 = 2000;

/// The `ping` request with the id `id`. It has no parameters.
pub fn ping_request(id: RequestId) -> (r: Request)
    ensures
        r@ == (RequestView {
            jsonrpc: JSONRPC_VERSION@,
            method: "ping"@,
            params: None,
            id: id@,
        }),
{
    Request::new(Method::Ping, None, id)
}

/// The answer to the ping `id`: success with the empty object.
pub fn pong(id: RequestId) -> (r: Response)
    ensures
        r@ == success_reply(JsonView::Object(Seq::empty()), id@),
        r@.one_outcome(),
{
    Response::success(Json::empty_object(), id)
}

/// What the caller of the ping `id` gets when no answer came in time: an
/// error that says that the request was cancelled. Nothing is sent.
pub fn ping_timeout(id: RequestId) -> (r: Response)
    ensures
        r@ == error_reply(REQUEST_CANCELLED, "Ping timeout"@, id@),
        r@.one_outcome(),
{
    Response::error(ResponseError::new(REQUEST_CANCELLED, "Ping timeout"), id)
}

/// The parameters of a cancellation: the id of the request, and the
/// reason where one is given.
pub open spec fn cancel_params(request_id: RequestIdView, reason: Option<Seq<char>>) -> JsonView {
    JsonView::Object(
        match reason {
            Some(text) => Seq::empty().push(("requestId"@, request_id.to_json())).push(
                ("reason"@, JsonView::Str(text)),
            ),
            None => Seq::empty().push(("requestId"@, request_id.to_json())),
        },
    )
}

/// The notification that asks the peer to cancel the request `request_id`.
pub fn cancel_notification(request_id: &RequestId, reason: Option<&str>) -> (r: Notification)
    ensures
        r@ == (NotificationView {
            jsonrpc: JSONRPC_VERSION@,
            method: "notifications/cancelled"@,
            params: Some(
                cancel_params(
                    request_id@,
                    match reason {
                        Some(text) => Some(text@),
                        None => None,
                    },
                ),
            ),
        }),
{
    let mut members: Vec<(String, Json)> = Vec::new();
    members.push(("requestId".to_owned(), request_id.to_json()));
    match reason {
        Some(text) => {
            members.push(("reason".to_owned(), Json::string(text)));
        },
        None => {},
    }
    let params = Json::object(members);
    assert(params@->Object_0 =~= cancel_params(
        request_id@,
        match reason {
            Some(text) => Some(text@),
            None => None,
        },
    )->Object_0);
    Notification::new(Method::Cancel, Some(params))
}

/// The answer to a request that was cancelled.
pub fn cancelled_reply(id: RequestId) -> (r: Response)
    ensures
        r@ == error_reply(REQUEST_CANCELLED, "Request cancelled"@, id@),
        r@.one_outcome(),
{
    Response::error(ResponseError::new(REQUEST_CANCELLED, "Request cancelled"), id)
}

/// The parameters of a progress notification.
pub open spec fn progress_params(token: JsonView, value: JsonView) -> JsonView {
    JsonView::Object(Seq::empty().push(("progressToken"@, token)).push(("value"@, value)))
}

/// The notification that reports the progress `value` under `token`.
pub fn progress_notification(token: Json, value: Json) -> (r: Notification)
    ensures
        r@ == (NotificationView {
            jsonrpc: JSONRPC_VERSION@,
            method: "$/progress"@,
            params: Some(progress_params(token@, value@)),
        }),
{
    let mut members: Vec<(String, Json)> = Vec::new();
    members.push(("progressToken".to_owned(), token));
    members.push(("value".to_owned(), value));
    let params = Json::object(members);
    assert(params@->Object_0 =~= progress_params(token@, value@)->Object_0);
    Notification::new(Method::Progress, Some(params))
}

/// The answer to a request whose method no handler knows.
pub fn method_not_found(id: RequestId) -> (r: Response)
    ensures
        r@ == error_reply(crate::protocol::error_codes::METHOD_NOT_FOUND, "Method not found"@, id@),
        r@.one_outcome(),
{
    Response::error(
        ResponseError::new(crate::protocol::error_codes::METHOD_NOT_FOUND, "Method not found"),
        id,
    )
}

/// The answer to a frame that broke a rule of the protocol, where its id
/// can be recovered: that the request is invalid. Where the frame is no
/// object, or has no id that is a string or an integer, there is nothing
/// to answer.
pub open spec fn rejection_of(frame: JsonView, reason: Seq<char>) -> Option<ResponseView> {
    match frame.member("id"@) {
        Some(raw) => match RequestIdView::of_json(raw) {
            Some(id) => Some(error_reply(INVALID_REQUEST, reason, id)),
            None => None,
        },
        None => None,
    }
}

/// The answer to a frame that broke a rule of the protocol, if it can be
/// answered.
pub fn rejection(frame: &Json, reason: &str) -> (r: Option<Response>)
    ensures
        match r {
            Some(response) => rejection_of(frame@, reason@) == Some(response@),
            None => rejection_of(frame@, reason@) is None,
        },
{
    match frame.get("id") {
        Some(raw) => match RequestId::from_json(raw) {
            Some(id) => Some(reply_error(INVALID_REQUEST, reason, &id)),
            None => None,
        },
        None => None,
    }
}

/// What a peer answers to a frame that is JSON but no message: that the
/// request is invalid, with the words of the fault, where the id of the
/// frame can be recovered. A frame that is a message gets no such answer.
pub open spec fn fault_reply(frame: JsonView) -> Option<ResponseView> {
    match MessageView::of_json(frame) {
        Err(f) => rejection_of(frame, f.spec_message()),
        Ok(_) => None,
    }
}

/// The answer to a frame that is JSON but no message, if it can be
/// answered.
pub fn reply_to_fault(frame: &Json) -> (r: Option<Response>)
    ensures
        match r {
            Some(response) => fault_reply(frame@) == Some(response@),
            None => fault_reply(frame@) is None,
        },
{
    match Message::from_json(frame) {
        Err(f) => rejection(frame, f.message()),
        Ok(_) => None,
    }
}

/// Whatever a client does, the ids that it has sent only grow.
pub proof fn lemma_sent_ids_grow(session: SessionView, request: RequestView, response: ResponseView)
    ensures
        session.sending(request) matches Ok(next) ==> session.sent.subset_of(next.sent)
            && next.sent.contains(request.id.canonical()),
        session.answered(response).0.sent == session.sent,
{
}

} // verus!

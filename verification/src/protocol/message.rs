//! The three message shapes of JSON-RPC 2.0, the method names that the
//! protocol knows, and the set of request ids that a session has used.

use super::{RequestId, RequestIdView, JSONRPC_VERSION};
use crate::json::{str_eq, Json, JsonView};
use vstd::prelude::*;

verus! {

/// The methods that the protocol knows by name.
#[derive(Debug, Clone, Copy, PartialEq, Eq, Structural)]
pub enum Method {
    Initialize,
    Initialized,
    Shutdown,
    Exit,
    Cancel,
    Ping,
    Progress,
    ListPrompts,
    GetPrompt,
    ExecutePrompt,
    ListResources,
    GetResource,
    CreateResource,
    UpdateResource,
    DeleteResource,
    SubscribeResource,
    UnsubscribeResource,
    ListTools,
    GetTool,
    ExecuteTool,
    CancelTool,
    ListRoots,
    GetRoot,
    SamplingRequest,
}

impl Method {
    /// The name of the method on the wire.
    pub open spec fn spec_name(self) -> Seq<char> {
        match self {
            Method::Initialize => "initialize"@,
            Method::Initialized => "initialized"@,
            Method::Shutdown => "shutdown"@,
            Method::Exit => "exit"@,
            Method::Cancel => "notifications/cancelled"@,
            Method::Ping => "ping"@,
            Method::Progress => "$/progress"@,
            Method::ListPrompts => "prompts/list"@,
            Method::GetPrompt => "prompts/get"@,
            Method::ExecutePrompt => "prompts/execute"@,
            Method::ListResources => "resources/list"@,
            Method::GetResource => "resources/get"@,
            Method::CreateResource => "resources/create"@,
            Method::UpdateResource => "resources/update"@,
            Method::DeleteResource => "resources/delete"@,
            Method::SubscribeResource => "resources/subscribe"@,
            Method::UnsubscribeResource => "resources/unsubscribe"@,
            Method::ListTools => "tools/list"@,
            Method::GetTool => "tools/get"@,
            Method::ExecuteTool => "tools/execute"@,
            Method::CancelTool => "tools/cancel"@,
            Method::ListRoots => "roots/list"@,
            Method::GetRoot => "roots/get"@,
            Method::SamplingRequest => "sampling/request"@,
        }
    }

    /// The name of the method on the wire.
    pub fn name(&self) -> (r: &'static str)
        ensures
            r@ == self.spec_name(),
    {
        match self {
            Method::Initialize => "initialize",
            Method::Initialized => "initialized",
            Method::Shutdown => "shutdown",
            Method::Exit => "exit",
            Method::Cancel => "notifications/cancelled",
            Method::Ping => "ping",
            Method::Progress => "$/progress",
            Method::ListPrompts => "prompts/list",
            Method::GetPrompt => "prompts/get",
            Method::ExecutePrompt => "prompts/execute",
            Method::ListResources => "resources/list",
            Method::GetResource => "resources/get",
            Method::CreateResource => "resources/create",
            Method::UpdateResource => "resources/update",
            Method::DeleteResource => "resources/delete",
            Method::SubscribeResource => "resources/subscribe",
            Method::UnsubscribeResource => "resources/unsubscribe",
            Method::ListTools => "tools/list",
            Method::GetTool => "tools/get",
            Method::ExecuteTool => "tools/execute",
            Method::CancelTool => "tools/cancel",
            Method::ListRoots => "roots/list",
            Method::GetRoot => "roots/get",
            Method::SamplingRequest => "sampling/request",
        }
    }

    /// The name of the method, as an owned string.
    pub fn to_string(&self) -> (r: String)
        ensures
            r@ == self.spec_name(),
    {
        self.name().to_owned()
    }

    /// Every method, in the order of the registry: the lifecycle, the
    /// utilities, the features of servers, the features of clients.
    pub open spec fn registry() -> Seq<Method> {
        seq![
            Method::Initialize,
            Method::Initialized,
            Method::Shutdown,
            Method::Exit,
            Method::Cancel,
            Method::Ping,
            Method::Progress,
            Method::ListPrompts,
            Method::GetPrompt,
            Method::ExecutePrompt,
            Method::ListResources,
            Method::GetResource,
            Method::CreateResource,
            Method::UpdateResource,
            Method::DeleteResource,
            Method::SubscribeResource,
            Method::UnsubscribeResource,
            Method::ListTools,
            Method::GetTool,
            Method::ExecuteTool,
            Method::CancelTool,
            Method::ListRoots,
            Method::GetRoot,
            Method::SamplingRequest,
        ]
    }

    /// The place of the method in the registry.
    pub open spec fn index(self) -> int {
        match self {
            Method::Initialize => 0,
            Method::Initialized => 1,
            Method::Shutdown => 2,
            Method::Exit => 3,
            Method::Cancel => 4,
            Method::Ping => 5,
            Method::Progress => 6,
            Method::ListPrompts => 7,
            Method::GetPrompt => 8,
            Method::ExecutePrompt => 9,
            Method::ListResources => 10,
            Method::GetResource => 11,
            Method::CreateResource => 12,
            Method::UpdateResource => 13,
            Method::DeleteResource => 14,
            Method::SubscribeResource => 15,
            Method::UnsubscribeResource => 16,
            Method::ListTools => 17,
            Method::GetTool => 18,
            Method::ExecuteTool => 19,
            Method::CancelTool => 20,
            Method::ListRoots => 21,
            Method::GetRoot => 22,
            Method::SamplingRequest => 23,
        }
    }

    /// Every method, in the order of the registry.
    pub fn all() -> (r: Vec<Method>)
        ensures
            r@ == Method::registry(),
            r@.len() == 24,
            forall|m: Method| 0 <= m.index() < 24 && r@[m.index()] == m,
    {
        let r = vec![
            Method::Initialize,
            Method::Initialized,
            Method::Shutdown,
            Method::Exit,
            Method::Cancel,
            Method::Ping,
            Method::Progress,
            Method::ListPrompts,
            Method::GetPrompt,
            Method::ExecutePrompt,
            Method::ListResources,
            Method::GetResource,
            Method::CreateResource,
            Method::UpdateResource,
            Method::DeleteResource,
            Method::SubscribeResource,
            Method::UnsubscribeResource,
            Method::ListTools,
            Method::GetTool,
            Method::ExecuteTool,
            Method::CancelTool,
            Method::ListRoots,
            Method::GetRoot,
            Method::SamplingRequest,
        ];
        proof {
            assert(r@ =~= Method::registry());
            assert forall|m: Method| 0 <= m.index() < 24 && r@[m.index()] == m by {
                match m {
                    Method::Initialize => {},
                    Method::Initialized => {},
                    Method::Shutdown => {},
                    Method::Exit => {},
                    Method::Cancel => {},
                    Method::Ping => {},
                    Method::Progress => {},
                    Method::ListPrompts => {},
                    Method::GetPrompt => {},
                    Method::ExecutePrompt => {},
                    Method::ListResources => {},
                    Method::GetResource => {},
                    Method::CreateResource => {},
                    Method::UpdateResource => {},
                    Method::DeleteResource => {},
                    Method::SubscribeResource => {},
                    Method::UnsubscribeResource => {},
                    Method::ListTools => {},
                    Method::GetTool => {},
                    Method::ExecuteTool => {},
                    Method::CancelTool => {},
                    Method::ListRoots => {},
                    Method::GetRoot => {},
                    Method::SamplingRequest => {},
                }
            }
        }
        r
    }

    /// The method that has the name `name`, if there is one.
    pub open spec fn named(name: Seq<char>) -> Option<Method> {
        if exists|m: Method| m.spec_name() == name {
            Some(choose|m: Method| m.spec_name() == name)
        } else {
            None
        }
    }

    /// The method that has the name `name`, if the registry knows it. Any
    /// other name is left to the handlers of the surrounding application.
    pub fn from_name(name: &str) -> (r: Option<Method>)
        ensures
            r == Method::named(name@),
            match r {
                Some(m) => m.spec_name() == name@,
                None => forall|m: Method| m.spec_name() != name@,
            },
    {
        let all = Method::all();
        let mut i: usize = 0;
        while i < all.len()
            invariant
                i <= all.len(),
                all@.len() == 24,
                forall|m: Method| 0 <= m.index() < 24 && all@[m.index()] == m,
                forall|k: int| 0 <= k < i ==> (#[trigger] all@[k]).spec_name() != name@,
            decreases all.len() - i,
        {
            let m = all[i];
            if str_eq(m.name(), name) {
                proof {
                    let c = choose|c: Method| c.spec_name() == name@;
                    lemma_method_names_distinct(c, m);
                }
                return Some(m);
            }
            i += 1;
        }
        proof {
            assert forall|m: Method| m.spec_name() != name@ by {
                assert(all@[m.index()].spec_name() != name@);
            }
        }
        None
    }
}

/// The canonical texts of the request ids that a session has used. Nothing
/// occurs twice, and nothing ever leaves.
pub struct UsedIds {
    ids: Vec<String>,
}

impl View for UsedIds {
    type V = Set<Seq<char>>;

    closed spec fn view(&self) -> Set<Seq<char>> {
        Set::new(|t: Seq<char>| exists|i: int| 0 <= i < self.ids@.len() && self.ids@[i]@ == t)
    }
}

impl UsedIds {
    /// Nothing occurs twice.
    #[verifier::type_invariant]
    spec fn distinct(&self) -> bool {
        forall|i: int, j: int|
            0 <= i < j < self.ids@.len() ==> self.ids@[i]@ != self.ids@[j]@
    }

    /// How many ids the set holds.
    pub closed spec fn spec_len(&self) -> nat {
        self.ids@.len()
    }

    /// The set of a session that has sent nothing yet.
    pub fn new() -> (r: UsedIds)
        ensures
            r@ == Set::<Seq<char>>::empty(),
            r.spec_len() == 0,
    {
        let r = UsedIds { ids: Vec::new() };
        assert(r@ =~= Set::<Seq<char>>::empty());
        r
    }

    /// How many ids the set holds.
    pub fn len(&self) -> (n: usize)
        ensures
            n == self.spec_len(),
    {
        self.ids.len()
    }

    /// Whether the set holds the text `text`.
    pub fn contains(&self, text: &str) -> (r: bool)
        ensures
            r == self@.contains(text@),
    {
        let mut i: usize = 0;
        while i < self.ids.len()
            invariant
                i <= self.ids.len(),
                forall|k: int| 0 <= k < i ==> self.ids@[k]@ != text@,
            decreases self.ids.len() - i,
        {
            if str_eq(self.ids[i].as_str(), text) {
                return true;
            }
            i += 1;
        }
        false
    }

    /// Puts the canonical text of `id` into the set. Says `true` when the
    /// text was not there before, `false` when it was; then the set is left
    /// as it is.
    pub fn insert(&mut self, id: &RequestId) -> (fresh: bool)
        ensures
            fresh == !old(self)@.contains(id@.canonical()),
            final(self)@ == old(self)@.insert(id@.canonical()),
            final(self).spec_len() == old(self).spec_len() + (if fresh {
                1nat
            } else {
                0nat
            }),
    {
        proof {
            use_type_invariant(&*self);
        }
        let text = id.canonical();
        if self.contains(text.as_str()) {
            assert(self@ =~= old(self)@.insert(id@.canonical()));
            false
        } else {
            let ghost before = self.ids@;
            let mut ids: Vec<String> = Vec::new();
            std::mem::swap(&mut ids, &mut self.ids);
            ids.push(text);
            proof {
                assert forall|i: int, j: int| 0 <= i < j < ids@.len() implies ids@[i]@
                    != ids@[j]@ by {
                    if j == before.len() {
                        assert(before[i]@ == ids@[i]@);
                        assert(old(self)@.contains(before[i]@));
                    }
                }
            }
            self.ids = ids;
            proof {
                assert forall|t: Seq<char>| self@.contains(t) == old(self)@.insert(
                    id@.canonical(),
                ).contains(t) by {
                    if old(self)@.contains(t) {
                        let i = choose|i: int| 0 <= i < before.len() && before[i]@ == t;
                        assert(self.ids@[i]@ == t);
                    }
                    if t == id@.canonical() {
                        assert(self.ids@[before.len() as int]@ == t);
                    }
                    if self@.contains(t) {
                        let i = choose|i: int| 0 <= i < self.ids@.len() && self.ids@[i]@ == t;
                        if i < before.len() {
                            assert(before[i]@ == t);
                        }
                    }
                }
                assert(self@ =~= old(self)@.insert(id@.canonical()));
            }
            true
        }
    }
}

/// What inserting an id makes of a set of used ids: whether the id was
/// fresh, and the set afterwards.
pub open spec fn inserted(used: Set<Seq<char>>, id: RequestIdView) -> (bool, Set<Seq<char>>) {
    (!used.contains(id.canonical()), used.insert(id.canonical()))
}

/// An id is fresh at most once in a session: after its first insertion,
/// every later insertion of an id with the same canonical text is refused,
/// whatever was inserted in between.
pub proof fn lemma_id_fresh_once(
    used: Set<Seq<char>>,
    id: RequestIdView,
    later: Set<Seq<char>>,
    again: RequestIdView,
)
    requires
        inserted(used, id).1.subset_of(later),
        again.canonical() == id.canonical(),
    ensures
        !used.contains(id.canonical()) ==> inserted(used, id).0,
        !inserted(later, again).0,
        used.subset_of(inserted(used, id).1),
{
    assert(inserted(used, id).1.contains(id.canonical()));
}

/// The integer `1` and the string `"1"` are the same id to a session.
pub proof fn lemma_one_collides()
    ensures
        RequestIdView::Number(1).canonical() == RequestIdView::String("1"@).canonical(),
{
    reveal_strlit("1");
    reveal_with_fuel(crate::text::nat_digits, 2);
    assert(crate::text::decimal(1) =~= "1"@);
}

} // verus!

verus! {

/// A method is found again under its own name.
pub proof fn lemma_method_named(m: Method)
    ensures
        Method::named(m.spec_name()) == Some(m),
{
    let c = choose|c: Method| c.spec_name() == m.spec_name();
    lemma_method_names_distinct(c, m);
}

/// The method that a name of the registry belongs to, told from the length
/// of the name and one or two of its characters.
pub open spec fn method_by_shape(s: Seq<char>) -> Method {
    let n = s.len();
    if n == 4 {
        if s[0] == 'e' {
            Method::Exit
        } else {
            Method::Ping
        }
    } else if n == 8 {
        Method::Shutdown
    } else if n == 9 {
        if s[0] == 't' {
            Method::GetTool
        } else {
            Method::GetRoot
        }
    } else if n == 10 {
        if s[0] == 'i' {
            Method::Initialize
        } else if s[0] == '$' {
            Method::Progress
        } else if s[0] == 't' {
            Method::ListTools
        } else {
            Method::ListRoots
        }
    } else if n == 11 {
        if s[0] == 'i' {
            Method::Initialized
        } else {
            Method::GetPrompt
        }
    } else if n == 12 {
        if s[0] == 'p' {
            Method::ListPrompts
        } else {
            Method::CancelTool
        }
    } else if n == 13 {
        if s[0] == 'r' {
            Method::GetResource
        } else {
            Method::ExecuteTool
        }
    } else if n == 14 {
        Method::ListResources
    } else if n == 15 {
        Method::ExecutePrompt
    } else if n == 16 {
        if s[0] == 's' {
            Method::SamplingRequest
        } else if s[10] == 'c' {
            Method::CreateResource
        } else if s[10] == 'u' {
            Method::UpdateResource
        } else {
            Method::DeleteResource
        }
    } else if n == 19 {
        Method::SubscribeResource
    } else if n == 21 {
        Method::UnsubscribeResource
    } else {
        Method::Cancel
    }
}

/// The shape of a method's name tells the method.
pub proof fn lemma_method_shape(m: Method)
    ensures
        method_by_shape(m.spec_name()) == m,
{
    match m {
        Method::Initialize => {
            reveal_strlit("initialize");
        },
        Method::Initialized => {
            reveal_strlit("initialized");
        },
        Method::Shutdown => {
            reveal_strlit("shutdown");
        },
        Method::Exit => {
            reveal_strlit("exit");
        },
        Method::Cancel => {
            reveal_strlit("notifications/cancelled");
        },
        Method::Ping => {
            reveal_strlit("ping");
        },
        Method::Progress => {
            reveal_strlit("$/progress");
        },
        Method::ListPrompts => {
            reveal_strlit("prompts/list");
        },
        Method::GetPrompt => {
            reveal_strlit("prompts/get");
        },
        Method::ExecutePrompt => {
            reveal_strlit("prompts/execute");
        },
        Method::ListResources => {
            reveal_strlit("resources/list");
        },
        Method::GetResource => {
            reveal_strlit("resources/get");
        },
        Method::CreateResource => {
            reveal_strlit("resources/create");
        },
        Method::UpdateResource => {
            reveal_strlit("resources/update");
        },
        Method::DeleteResource => {
            reveal_strlit("resources/delete");
        },
        Method::SubscribeResource => {
            reveal_strlit("resources/subscribe");
        },
        Method::UnsubscribeResource => {
            reveal_strlit("resources/unsubscribe");
        },
        Method::ListTools => {
            reveal_strlit("tools/list");
        },
        Method::GetTool => {
            reveal_strlit("tools/get");
        },
        Method::ExecuteTool => {
            reveal_strlit("tools/execute");
        },
        Method::CancelTool => {
            reveal_strlit("tools/cancel");
        },
        Method::ListRoots => {
            reveal_strlit("roots/list");
        },
        Method::GetRoot => {
            reveal_strlit("roots/get");
        },
        Method::SamplingRequest => {
            reveal_strlit("sampling/request");
        },
    }
}

/// No two methods share a name.
pub proof fn lemma_method_names_distinct(a: Method, b: Method)
    requires
        a.spec_name() == b.spec_name(),
    ensures
        a == b,
{
    lemma_method_shape(a);
    lemma_method_shape(b);
}

} // verus!

verus! {

/// The view of an optional JSON value.
pub open spec fn opt_view(o: Option<Json>) -> Option<JsonView> {
    match o {
        Some(j) => Some(j@),
        None => None,
    }
}

/// A copy of an optional JSON value.
pub fn clone_opt(o: &Option<Json>) -> (r: Option<Json>)
    ensures
        opt_view(r) == opt_view(*o),
{
    match o {
        Some(j) => Some(j.clone()),
        None => None,
    }
}

/// The error object of a response.
#[derive(Debug, PartialEq, Eq)]
pub struct ResponseError {
    /// A code of the table of error codes, or one of the application's own.
    pub code: i32,
    /// What went wrong, for a human reader.
    pub message: String,
    /// Structured detail, where there is any.
    pub data: Option<Json>,
}

/// The mathematical value of a [`ResponseError`].
pub struct ResponseErrorView {
    pub code: i32,
    pub message: Seq<char>,
    pub data: Option<JsonView>,
}

impl View for ResponseError {
    type V = ResponseErrorView;

    open spec fn view(&self) -> ResponseErrorView {
        ResponseErrorView { code: self.code, message: self.message@, data: opt_view(self.data) }
    }
}

impl Clone for ResponseError {
    fn clone(&self) -> (r: ResponseError)
        ensures
            r@ == self@,
    {
        ResponseError {
            code: self.code,
            message: self.message.clone(),
            data: clone_opt(&self.data),
        }
    }
}

impl ResponseError {
    /// An error object without structured detail.
    pub fn new(code: i32, message: &str) -> (r: ResponseError)
        ensures
            r@ == (ResponseErrorView { code, message: message@, data: None }),
    {
        ResponseError { code, message: message.to_owned(), data: None }
    }
}

/// A request: a method call that expects a response with the same id.
#[derive(Debug, PartialEq, Eq)]
pub struct Request {
    /// The JSON-RPC version, always `2.0`.
    pub jsonrpc: String,
    /// The name of the method.
    pub method: String,
    /// The parameters, where the method takes any.
    pub params: Option<Json>,
    /// The id under which the response will come.
    pub id: RequestId,
}

/// The mathematical value of a [`Request`].
pub struct RequestView {
    pub jsonrpc: Seq<char>,
    pub method: Seq<char>,
    pub params: Option<JsonView>,
    pub id: RequestIdView,
}

impl View for Request {
    type V = RequestView;

    open spec fn view(&self) -> RequestView {
        RequestView {
            jsonrpc: self.jsonrpc@,
            method: self.method@,
            params: opt_view(self.params),
            id: self.id@,
        }
    }
}

impl Clone for Request {
    fn clone(&self) -> (r: Request)
        ensures
            r@ == self@,
    {
        Request {
            jsonrpc: self.jsonrpc.clone(),
            method: self.method.clone(),
            params: clone_opt(&self.params),
            id: self.id.clone(),
        }
    }
}

impl Request {
    /// A request for `method` with the given parameters and id. Whether the
    /// id is new to the session is for `validate_id_uniqueness` to say.
    pub fn new(method: Method, params: Option<Json>, id: RequestId) -> (r: Request)
        ensures
            r@ == (RequestView {
                jsonrpc: JSONRPC_VERSION@,
                method: method.spec_name(),
                params: opt_view(params),
                id: id@,
            }),
    {
        Request { jsonrpc: JSONRPC_VERSION.to_owned(), method: method.to_string(), params, id }
    }

    /// Records the id of this request in the session's set of used ids.
    /// Says `true` when the id is new to the session, and `false` when an id
    /// with the same canonical text was recorded before.
    pub fn validate_id_uniqueness(&self, used_ids: &mut UsedIds) -> (fresh: bool)
        ensures
            fresh == inserted(old(used_ids)@, self.id@).0,
            final(used_ids)@ == inserted(old(used_ids)@, self.id@).1,
    {
        used_ids.insert(&self.id)
    }
}

/// A response: the outcome of one request, either a result or an error.
#[derive(Debug, PartialEq, Eq)]
pub struct Response {
    /// The JSON-RPC version, always `2.0`.
    pub jsonrpc: String,
    /// The id of the request that this answers.
    pub id: RequestId,
    /// The result, where the request succeeded.
    pub result: Option<Json>,
    /// The error, where it failed.
    pub error: Option<ResponseError>,
}

/// The view of an optional error object.
pub open spec fn opt_error_view(o: Option<ResponseError>) -> Option<ResponseErrorView> {
    match o {
        Some(e) => Some(e@),
        None => None,
    }
}

/// The mathematical value of a [`Response`].
pub struct ResponseView {
    pub jsonrpc: Seq<char>,
    pub id: RequestIdView,
    pub result: Option<JsonView>,
    pub error: Option<ResponseErrorView>,
}

impl ResponseView {
    /// Whether the response carries exactly one of result and error.
    pub open spec fn one_outcome(self) -> bool {
        (self.result is Some) != (self.error is Some)
    }
}

impl View for Response {
    type V = ResponseView;

    open spec fn view(&self) -> ResponseView {
        ResponseView {
            jsonrpc: self.jsonrpc@,
            id: self.id@,
            result: opt_view(self.result),
            error: opt_error_view(self.error),
        }
    }
}

impl Clone for Response {
    fn clone(&self) -> (r: Response)
        ensures
            r@ == self@,
    {
        let error = match &self.error {
            Some(e) => Some(e.clone()),
            None => None,
        };
        Response {
            jsonrpc: self.jsonrpc.clone(),
            id: self.id.clone(),
            result: clone_opt(&self.result),
            error,
        }
    }
}

impl Response {
    /// The response that reports `result` for the request `id`.
    pub fn success(result: Json, id: RequestId) -> (r: Response)
        ensures
            r@ == (ResponseView {
                jsonrpc: JSONRPC_VERSION@,
                id: id@,
                result: Some(result@),
                error: None,
            }),
            r@.one_outcome(),
    {
        Response { jsonrpc: JSONRPC_VERSION.to_owned(), id, result: Some(result), error: None }
    }

    /// The response that reports `error` for the request `id`.
    pub fn error(error: ResponseError, id: RequestId) -> (r: Response)
        ensures
            r@ == (ResponseView {
                jsonrpc: JSONRPC_VERSION@,
                id: id@,
                result: None,
                error: Some(error@),
            }),
            r@.one_outcome(),
    {
        Response { jsonrpc: JSONRPC_VERSION.to_owned(), id, result: None, error: Some(error) }
    }
}

/// A notification: a method call that expects no response, and so has no
/// id.
#[derive(Debug, PartialEq, Eq)]
pub struct Notification {
    /// The JSON-RPC version, always `2.0`.
    pub jsonrpc: String,
    /// The name of the method.
    pub method: String,
    /// The parameters, where the method takes any.
    pub params: Option<Json>,
}

/// The mathematical value of a [`Notification`].
pub struct NotificationView {
    pub jsonrpc: Seq<char>,
    pub method: Seq<char>,
    pub params: Option<JsonView>,
}

impl View for Notification {
    type V = NotificationView;

    open spec fn view(&self) -> NotificationView {
        NotificationView {
            jsonrpc: self.jsonrpc@,
            method: self.method@,
            params: opt_view(self.params),
        }
    }
}

impl Clone for Notification {
    fn clone(&self) -> (r: Notification)
        ensures
            r@ == self@,
    {
        Notification {
            jsonrpc: self.jsonrpc.clone(),
            method: self.method.clone(),
            params: clone_opt(&self.params),
        }
    }
}

impl Notification {
    /// A notification of `method` with the given parameters.
    pub fn new(method: Method, params: Option<Json>) -> (r: Notification)
        ensures
            r@ == (NotificationView {
                jsonrpc: JSONRPC_VERSION@,
                method: method.spec_name(),
                params: opt_view(params),
            }),
    {
        Notification { jsonrpc: JSONRPC_VERSION.to_owned(), method: method.to_string(), params }
    }
}

/// Any message that travels between the peers.
#[derive(Debug, PartialEq, Eq)]
pub enum Message {
    Request(Request),
    Response(Response),
    Notification(Notification),
}

/// The mathematical value of a [`Message`].
pub enum MessageView {
    Request(RequestView),
    Response(ResponseView),
    Notification(NotificationView),
}

impl MessageView {
    /// Whether the message may go on the wire: it carries the version tag
    /// `2.0`, and a response has exactly one of result and error.
    pub open spec fn wf(self) -> bool {
        match self {
            MessageView::Request(r) => r.jsonrpc == JSONRPC_VERSION@,
            MessageView::Response(r) => r.jsonrpc == JSONRPC_VERSION@ && r.one_outcome(),
            MessageView::Notification(n) => n.jsonrpc == JSONRPC_VERSION@,
        }
    }
}

impl View for Message {
    type V = MessageView;

    open spec fn view(&self) -> MessageView {
        match self {
            Message::Request(r) => MessageView::Request(r@),
            Message::Response(r) => MessageView::Response(r@),
            Message::Notification(n) => MessageView::Notification(n@),
        }
    }
}

impl Clone for Message {
    fn clone(&self) -> (r: Message)
        ensures
            r@ == self@,
    {
        match self {
            Message::Request(r) => Message::Request(r.clone()),
            Message::Response(r) => Message::Response(r.clone()),
            Message::Notification(n) => Message::Notification(n.clone()),
        }
    }
}

} // verus!

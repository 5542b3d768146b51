//! The wire form of messages: which JSON object stands for each message,
//! and which message, if any, a JSON value stands for.

use super::message::{
    clone_opt, opt_error_view, opt_view, Message, MessageView, Notification, NotificationView,
    Request, RequestView, Response, ResponseError, ResponseErrorView, ResponseView,
};
use super::{lemma_request_id_round_trip, RequestId, RequestIdView, JSONRPC_VERSION};
use crate::error::Error;
use crate::json::{
    built_tree, distinct_keys, json_of_text, lemma_object_view, lookup, str_eq, text_of_json,
    text_of_tree, Json, JsonView,
};
use crate::text::{decimal, lemma_numeral_of_decimal};
use vstd::prelude::*;

verus! {

/// `members`, and after them the member `key` where `value` is present.
pub open spec fn with_optional(
    members: Seq<(Seq<char>, JsonView)>,
    key: Seq<char>,
    value: Option<JsonView>,
) -> Seq<(Seq<char>, JsonView)> {
    match value {
        Some(v) => members.push((key, v)),
        None => members,
    }
}

impl ResponseErrorView {
    /// The object that stands for the error: `code`, `message`, and `data`
    /// where there is any.
    pub open spec fn to_json(self) -> JsonView {
        JsonView::Object(
            with_optional(
                Seq::empty().push(("code"@, JsonView::Number(decimal(self.code as int)))).push(
                    ("message"@, JsonView::Str(self.message)),
                ),
                "data"@,
                self.data,
            ),
        )
    }

    /// The error that a JSON value stands for: an object with an integer
    /// `code` of 32 bits and a string `message`.
    pub open spec fn of_json(v: JsonView) -> Option<ResponseErrorView> {
        match (v.member("code"@), v.member("message"@)) {
            (Some(c), Some(m)) => match (c.integer(), m.string()) {
                (Some(n), Some(s)) => if i32::MIN <= n <= i32::MAX {
                    Some(ResponseErrorView { code: n as i32, message: s, data: v.member("data"@) })
                } else {
                    None
                },
                _ => None,
            },
            _ => None,
        }
    }
}

impl RequestView {
    /// The object that stands for the request: `jsonrpc`, `method`, `params`
    /// where there are any, and `id`.
    pub open spec fn to_json(self) -> JsonView {
        JsonView::Object(
            with_optional(
                Seq::empty().push(("jsonrpc"@, JsonView::Str(self.jsonrpc))).push(
                    ("method"@, JsonView::Str(self.method)),
                ),
                "params"@,
                self.params,
            ).push(("id"@, self.id.to_json())),
        )
    }
}

/// The JSON form of an optional error object.
pub open spec fn opt_error_json(e: Option<ResponseErrorView>) -> Option<JsonView> {
    match e {
        Some(e) => Some(e.to_json()),
        None => None,
    }
}

impl ResponseView {
    /// The object that stands for the response: `jsonrpc`, `id`, and
    /// whichever of `result` and `error` is present.
    pub open spec fn to_json(self) -> JsonView {
        JsonView::Object(
            with_optional(
                with_optional(
                    Seq::empty().push(("jsonrpc"@, JsonView::Str(self.jsonrpc))).push(
                        ("id"@, self.id.to_json()),
                    ),
                    "result"@,
                    self.result,
                ),
                "error"@,
                opt_error_json(self.error),
            ),
        )
    }
}

impl NotificationView {
    /// The object that stands for the notification: `jsonrpc`, `method`, and
    /// `params` where there are any. It has no `id`.
    pub open spec fn to_json(self) -> JsonView {
        JsonView::Object(
            with_optional(
                Seq::empty().push(("jsonrpc"@, JsonView::Str(self.jsonrpc))).push(
                    ("method"@, JsonView::Str(self.method)),
                ),
                "params"@,
                self.params,
            ),
        )
    }
}

/// Why a JSON value is no message.
#[derive(Debug, Clone, Copy, PartialEq, Eq, Structural)]
pub enum Fault {
    /// The value is no object.
    NotAnObject,
    /// `jsonrpc` is missing, or is not the string `2.0`.
    Version,
    /// `id` is present, but is neither a string nor an integer.
    Id,
    /// `method` is present, but is no string.
    Method,
    /// There is neither `id` nor `method`.
    Shape,
    /// A response carries both `result` and `error`, or neither.
    Outcome,
    /// `error` is no error object.
    ErrorObject,
}

impl MessageView {
    /// The object that stands for the message.
    pub open spec fn to_json(self) -> JsonView {
        match self {
            MessageView::Request(r) => r.to_json(),
            MessageView::Response(r) => r.to_json(),
            MessageView::Notification(n) => n.to_json(),
        }
    }

    /// The message that a JSON value stands for. An object with `id` and
    /// `method` is a request; one with `id` and exactly one of `result` and
    /// `error` is a response; one with `method` and no `id` is a
    /// notification. Members that the message does not know are passed over.
    pub open spec fn of_json(v: JsonView) -> Result<MessageView, Fault> {
        if !(v is Object) {
            Err(Fault::NotAnObject)
        } else if v.member("jsonrpc"@) != Some(JsonView::Str(JSONRPC_VERSION@)) {
            Err(Fault::Version)
        } else {
            match v.member("id"@) {
                Some(raw) => match RequestIdView::of_json(raw) {
                    None => Err(Fault::Id),
                    Some(id) => match v.member("method"@) {
                        Some(m) => match m.string() {
                            Some(name) => Ok(
                                MessageView::Request(
                                    RequestView {
                                        jsonrpc: JSONRPC_VERSION@,
                                        method: name,
                                        params: v.member("params"@),
                                        id,
                                    },
                                ),
                            ),
                            None => Err(Fault::Method),
                        },
                        None => match (v.member("result"@), v.member("error"@)) {
                            (Some(r), None) => Ok(
                                MessageView::Response(
                                    ResponseView {
                                        jsonrpc: JSONRPC_VERSION@,
                                        id,
                                        result: Some(r),
                                        error: None,
                                    },
                                ),
                            ),
                            (None, Some(e)) => match ResponseErrorView::of_json(e) {
                                Some(error) => Ok(
                                    MessageView::Response(
                                        ResponseView {
                                            jsonrpc: JSONRPC_VERSION@,
                                            id,
                                            result: None,
                                            error: Some(error),
                                        },
                                    ),
                                ),
                                None => Err(Fault::ErrorObject),
                            },
                            _ => Err(Fault::Outcome),
                        },
                    },
                },
                None => match v.member("method"@) {
                    Some(m) => match m.string() {
                        Some(name) => Ok(
                            MessageView::Notification(
                                NotificationView {
                                    jsonrpc: JSONRPC_VERSION@,
                                    method: name,
                                    params: v.member("params"@),
                                },
                            ),
                        ),
                        None => Err(Fault::Method),
                    },
                    None => Err(Fault::Shape),
                },
            }
        }
    }
}

/// A lookup in members that end with a pushed member finds that member
/// under its key, and otherwise looks in the members before it.
pub proof fn lemma_lookup_push(
    members: Seq<(Seq<char>, JsonView)>,
    key: Seq<char>,
    value: JsonView,
    wanted: Seq<char>,
)
    ensures
        lookup(members.push((key, value)), wanted) == (if key == wanted {
            Some(value)
        } else {
            lookup(members, wanted)
        }),
{
    let all = members.push((key, value));
    assert(all.last() == (key, value));
    assert(all.drop_last() =~= members);
}

/// The two rules of a lookup, for every sequence of members at once.
proof fn lemma_lookups()
    ensures
        forall|members: Seq<(Seq<char>, JsonView)>, key: Seq<char>, value: JsonView, wanted: Seq<char>|
            #[trigger] lookup(members.push((key, value)), wanted) == (if key == wanted {
                Some(value)
            } else {
                lookup(members, wanted)
            }),
        forall|wanted: Seq<char>|
            (#[trigger] lookup(Seq::<(Seq<char>, JsonView)>::empty(), wanted)) is None,
{
    assert forall|
        members: Seq<(Seq<char>, JsonView)>,
        key: Seq<char>,
        value: JsonView,
        wanted: Seq<char>,
    | #[trigger]
        lookup(members.push((key, value)), wanted) == (if key == wanted {
            Some(value)
        } else {
            lookup(members, wanted)
        }) by {
        lemma_lookup_push(members, key, value, wanted);
    }
}

/// What tells the keys of the wire form apart: their lengths and first
/// characters.
proof fn lemma_keys()
    ensures
        "jsonrpc"@.len() == 7,
        "method"@.len() == 6 && "method"@[1] == 'e',
        "params"@.len() == 6 && "params"@[1] == 'a',
        "id"@.len() == 2,
        "result"@.len() == 6 && "result"@[0] == 'r',
        "error"@.len() == 5,
        "code"@.len() == 4 && "code"@[0] == 'c',
        "message"@.len() == 7 && "message"@[0] == 'm',
        "data"@.len() == 4 && "data"@[0] == 'd',
        "jsonrpc"@[0] == 'j',
        "method"@[0] == 'm',
        "params"@[0] == 'p',
{
    reveal_strlit("jsonrpc");
    reveal_strlit("method");
    reveal_strlit("params");
    reveal_strlit("id");
    reveal_strlit("result");
    reveal_strlit("error");
    reveal_strlit("code");
    reveal_strlit("message");
    reveal_strlit("data");
}

/// An error object written to JSON and read back is the same error object.
pub proof fn lemma_error_round_trip(e: ResponseErrorView)
    ensures
        ResponseErrorView::of_json(e.to_json()) == Some(e),
{
    lemma_lookups();
    lemma_keys();
    lemma_numeral_of_decimal(e.code as int);
}

/// A message that may go on the wire, written to JSON and read back, is the
/// same message.
pub proof fn lemma_message_round_trip(m: MessageView)
    requires
        m.wf(),
    ensures
        MessageView::of_json(m.to_json()) == Ok::<MessageView, Fault>(m),
{
    lemma_lookups();
    lemma_keys();
    match m {
        MessageView::Request(r) => {
            lemma_request_id_round_trip(r.id);
        },
        MessageView::Response(r) => {
            lemma_request_id_round_trip(r.id);
            if r.error is Some {
                lemma_error_round_trip(r.error->0);
            }
        },
        MessageView::Notification(n) => {},
    }
}

/// The object that stands for a notification has no member `id`.
pub proof fn lemma_notification_has_no_id(n: NotificationView)
    ensures
        n.to_json().member("id"@) is None,
{
    lemma_lookups();
    lemma_keys();
}

} // verus!

verus! {

impl Fault {
    /// What the fault says to a human reader.
    pub open spec fn spec_message(self) -> Seq<char> {
        match self {
            Fault::NotAnObject => "message is not a JSON object"@,
            Fault::Version => "jsonrpc must be \"2.0\""@,
            Fault::Id => "id must be a string or an integer"@,
            Fault::Method => "method must be a string"@,
            Fault::Shape => "message has neither id nor method"@,
            Fault::Outcome => "response must carry exactly one of result and error"@,
            Fault::ErrorObject => "error must carry an integer code and a string message"@,
        }
    }

    /// What the fault says to a human reader.
    pub fn message(&self) -> (r: &'static str)
        ensures
            r@ == self.spec_message(),
    {
        match self {
            Fault::NotAnObject => "message is not a JSON object",
            Fault::Version => "jsonrpc must be \"2.0\"",
            Fault::Id => "id must be a string or an integer",
            Fault::Method => "method must be a string",
            Fault::Shape => "message has neither id nor method",
            Fault::Outcome => "response must carry exactly one of result and error",
            Fault::ErrorObject => "error must carry an integer code and a string message",
        }
    }
}

impl ResponseError {
    /// The object that stands for the error.
    pub fn to_json(&self) -> (r: Json)
        ensures
            r@ == self@.to_json(),
    {
        let mut members: Vec<(String, Json)> = Vec::new();
        members.push(("code".to_owned(), Json::integer(self.code as i64)));
        members.push(("message".to_owned(), Json::Str(self.message.clone())));
        match &self.data {
            Some(d) => {
                members.push(("data".to_owned(), d.clone()));
            },
            None => {},
        }
        let r = Json::object(members);
        assert(r@->Object_0 =~= self@.to_json()->Object_0);
        r
    }

    /// The error that a JSON value stands for.
    pub fn from_json(value: &Json) -> (r: Option<ResponseError>)
        ensures
            match r {
                Some(e) => ResponseErrorView::of_json(value@) == Some(e@),
                None => ResponseErrorView::of_json(value@) is None,
            },
    {
        let code = match value.get("code") {
            Some(c) => match c.as_i64() {
                Some(n) => n,
                None => {
                    return None;
                },
            },
            None => {
                return None;
            },
        };
        let message = match value.get("message") {
            Some(m) => match m.as_str() {
                Some(s) => s.clone(),
                None => {
                    return None;
                },
            },
            None => {
                return None;
            },
        };
        if code < -2147483648i64 || code > 2147483647i64 {
            return None;
        }
        let data = match value.get("data") {
            Some(d) => Some(d.clone()),
            None => None,
        };
        Some(ResponseError { code: code as i32, message, data })
    }
}

impl Request {
    /// The object that stands for the request.
    pub fn to_json(&self) -> (r: Json)
        ensures
            r@ == self@.to_json(),
    {
        let mut members: Vec<(String, Json)> = Vec::new();
        members.push(("jsonrpc".to_owned(), Json::Str(self.jsonrpc.clone())));
        members.push(("method".to_owned(), Json::Str(self.method.clone())));
        match &self.params {
            Some(p) => {
                members.push(("params".to_owned(), p.clone()));
            },
            None => {},
        }
        members.push(("id".to_owned(), self.id.to_json()));
        let r = Json::object(members);
        assert(r@->Object_0 =~= self@.to_json()->Object_0);
        r
    }
}

impl Response {
    /// The object that stands for the response.
    pub fn to_json(&self) -> (r: Json)
        ensures
            r@ == self@.to_json(),
    {
        let mut members: Vec<(String, Json)> = Vec::new();
        members.push(("jsonrpc".to_owned(), Json::Str(self.jsonrpc.clone())));
        members.push(("id".to_owned(), self.id.to_json()));
        match &self.result {
            Some(v) => {
                members.push(("result".to_owned(), v.clone()));
            },
            None => {},
        }
        match &self.error {
            Some(e) => {
                members.push(("error".to_owned(), e.to_json()));
            },
            None => {},
        }
        let r = Json::object(members);
        assert(r@->Object_0 =~= self@.to_json()->Object_0);
        r
    }
}

impl Notification {
    /// The object that stands for the notification. It has no member `id`.
    pub fn to_json(&self) -> (r: Json)
        ensures
            r@ == self@.to_json(),
            r@.member("id"@) is None,
    {
        let mut members: Vec<(String, Json)> = Vec::new();
        members.push(("jsonrpc".to_owned(), Json::Str(self.jsonrpc.clone())));
        members.push(("method".to_owned(), Json::Str(self.method.clone())));
        match &self.params {
            Some(p) => {
                members.push(("params".to_owned(), p.clone()));
            },
            None => {},
        }
        let r = Json::object(members);
        assert(r@->Object_0 =~= self@.to_json()->Object_0);
        proof {
            lemma_notification_has_no_id(self@);
        }
        r
    }
}

/// The view of a decoded message.
pub open spec fn decoded_view(r: Result<Message, Fault>) -> Result<MessageView, Fault> {
    match r {
        Ok(m) => Ok(m@),
        Err(f) => Err(f),
    }
}

impl Message {
    /// The object that stands for the message.
    pub fn to_json(&self) -> (r: Json)
        ensures
            r@ == self@.to_json(),
    {
        match self {
            Message::Request(m) => m.to_json(),
            Message::Response(m) => m.to_json(),
            Message::Notification(m) => m.to_json(),
        }
    }

    /// The message that a JSON value stands for, or why it is none.
    pub fn from_json(value: &Json) -> (r: Result<Message, Fault>)
        ensures
            decoded_view(r) == MessageView::of_json(value@),
            r matches Ok(m) ==> m@.wf(),
    {
        match value {
            Json::Object(_) => {},
            _ => {
                return Err(Fault::NotAnObject);
            },
        }
        proof {
            lemma_object_view(*value);
        }
        let version_ok = match value.get("jsonrpc") {
            Some(v) => match v.as_str() {
                Some(s) => str_eq(s.as_str(), JSONRPC_VERSION),
                None => false,
            },
            None => false,
        };
        if !version_ok {
            return Err(Fault::Version);
        }
        let method: Option<&Json> = value.get("method");
        match value.get("id") {
            Some(raw) => {
                let id = match RequestId::from_json(raw) {
                    Some(id) => id,
                    None => {
                        return Err(Fault::Id);
                    },
                };
                match method {
                    Some(m) => match m.as_str() {
                        Some(name) => {
                            let params = match value.get("params") {
                                Some(p) => Some(p.clone()),
                                None => None,
                            };
                            Ok(
                                Message::Request(
                                    Request {
                                        jsonrpc: JSONRPC_VERSION.to_owned(),
                                        method: name.clone(),
                                        params,
                                        id,
                                    },
                                ),
                            )
                        },
                        None => Err(Fault::Method),
                    },
                    None => {
                        let result = value.get("result");
                        let error = value.get("error");
                        match (result, error) {
                            (Some(r), None) => Ok(
                                Message::Response(
                                    Response {
                                        jsonrpc: JSONRPC_VERSION.to_owned(),
                                        id,
                                        result: Some(r.clone()),
                                        error: None,
                                    },
                                ),
                            ),
                            (None, Some(e)) => match ResponseError::from_json(e) {
                                Some(error) => Ok(
                                    Message::Response(
                                        Response {
                                            jsonrpc: JSONRPC_VERSION.to_owned(),
                                            id,
                                            result: None,
                                            error: Some(error),
                                        },
                                    ),
                                ),
                                None => Err(Fault::ErrorObject),
                            },
                            _ => Err(Fault::Outcome),
                        }
                    },
                }
            },
            None => match method {
                Some(m) => match m.as_str() {
                    Some(name) => {
                        let params = match value.get("params") {
                            Some(p) => Some(p.clone()),
                            None => None,
                        };
                        Ok(
                            Message::Notification(
                                Notification {
                                    jsonrpc: JSONRPC_VERSION.to_owned(),
                                    method: name.clone(),
                                    params,
                                },
                            ),
                        )
                    },
                    None => Err(Fault::Method),
                },
                None => Err(Fault::Shape),
            },
        }
    }

    /// The compact JSON text of the message, as `serde_json` writes the
    /// object that stands for it.
    pub fn encode(&self) -> (r: Result<String, Error>)
        ensures
            match text_of_json(self@.to_json()) {
                Ok(s) => r matches Ok(t) && t@ == s,
                Err(m) => r matches Err(Error::Serialization(t)) && t@ == m,
            },
    {
        self.to_json().to_text()
    }

    /// The message that a JSON text stands for. A text that is no JSON
    /// gives a serialization error with the parser's words; JSON that is no
    /// message gives a protocol error that names the fault.
    pub fn decode(text: &str) -> (r: Result<Message, Error>)
        ensures
            match json_of_text(text@) {
                Err(m) => r matches Err(Error::Serialization(t)) && t@ == m,
                Ok(v) => match MessageView::of_json(v) {
                    Ok(m) => r matches Ok(got) && got@ == m,
                    Err(f) => r matches Err(Error::Protocol(t)) && t@ == f.spec_message(),
                },
            },
    {
        let value = Json::parse(text)?;
        Message::decoded(&value)
    }

    /// The message that a JSON value stands for; a protocol error that names
    /// the fault where it stands for none.
    pub fn decoded(value: &Json) -> (r: Result<Message, Error>)
        ensures
            match MessageView::of_json(value@) {
                Ok(m) => r matches Ok(got) && got@ == m && m.wf(),
                Err(f) => r matches Err(Error::Protocol(t)) && t@ == f.spec_message(),
            },
    {
        match Message::from_json(value) {
            Ok(m) => Ok(m),
            Err(f) => Err(Error::Protocol(f.message().to_owned())),
        }
    }
}

/// Whether an optional JSON value is absent or exact.
pub open spec fn opt_exact(value: Option<JsonView>) -> bool {
    match value {
        Some(v) => v.exact(),
        None => true,
    }
}

impl MessageView {
    /// Whether every payload of the message is exact: each number in it is
    /// the numeral of an integer of 64 bits, and no object in it has two
    /// members with one key.
    pub open spec fn plain(self) -> bool {
        match self {
            MessageView::Request(r) => opt_exact(r.params),
            MessageView::Response(r) => opt_exact(r.result) && (match r.error {
                Some(e) => opt_exact(e.data),
                None => true,
            }),
            MessageView::Notification(n) => opt_exact(n.params),
        }
    }
}

/// The wire form of an id is exact.
pub proof fn lemma_id_is_exact(id: RequestIdView)
    ensures
        id.to_json().exact(),
{
    match id {
        RequestIdView::String(_) => {},
        RequestIdView::Number(n) => {
            lemma_numeral_of_decimal(n as int);
        },
    }
}

/// The wire form of an error object with exact data is exact.
pub proof fn lemma_error_is_exact(e: ResponseErrorView)
    requires
        opt_exact(e.data),
    ensures
        e.to_json().exact(),
{
    lemma_keys();
    lemma_numeral_of_decimal(e.code as int);
    reveal_with_fuel(JsonView::exact, 2);
    let members = e.to_json()->Object_0;
    assert(JsonView::Number(decimal(e.code as int)).exact());
    assert(JsonView::Str(e.message).exact());
    assert(members[0] == ("code"@, JsonView::Number(decimal(e.code as int))));
    assert(members[1] == ("message"@, JsonView::Str(e.message)));
    if e.data is Some {
        assert(members[2] == ("data"@, e.data->0));
    }
    assert(distinct_keys(members));
    assert forall|i: int| 0 <= i < members.len() implies (#[trigger] members[i]).1.exact() by {
        if i == 0 {
        } else if i == 1 {
        } else {
        }
    }
}

/// What `serde_json` is given to write for a message with exact payloads is
/// the wire form of the message, member for member: nothing is added,
/// dropped or changed on the way. The written form of such a notification
/// therefore has no member `id`.
pub proof fn lemma_plain_message_is_written_as_it_is(m: MessageView)
    requires
        m.plain(),
    ensures
        m.to_json().exact(),
        built_tree(m.to_json()) == Ok::<JsonView, Seq<char>>(m.to_json()),
        text_of_json(m.to_json()) == text_of_tree(m.to_json()),
        m is Notification ==> m.to_json().member("id"@) is None,
{
    lemma_keys();
    reveal_with_fuel(JsonView::exact, 2);
    let members = m.to_json()->Object_0;
    match m {
        MessageView::Request(r) => {
            lemma_id_is_exact(r.id);
            assert(JsonView::Str(r.jsonrpc).exact());
            assert(JsonView::Str(r.method).exact());
            assert(members[0] == ("jsonrpc"@, JsonView::Str(r.jsonrpc)));
            assert(members[1] == ("method"@, JsonView::Str(r.method)));
            if r.params is Some {
                assert(members[2] == ("params"@, r.params->0));
                assert(members[3] == ("id"@, r.id.to_json()));
            } else {
                assert(members[2] == ("id"@, r.id.to_json()));
            }
            assert(distinct_keys(members));
            assert forall|i: int| 0 <= i < members.len() implies (#[trigger] members[i]).1.exact() by {
                if i == 0 {
                } else if i == 1 {
                } else if i == 2 {
                } else {
                }
            }
        },
        MessageView::Response(r) => {
            lemma_id_is_exact(r.id);
            assert(JsonView::Str(r.jsonrpc).exact());
            assert(members[0] == ("jsonrpc"@, JsonView::Str(r.jsonrpc)));
            assert(members[1] == ("id"@, r.id.to_json()));
            if r.error is Some {
                lemma_error_is_exact(r.error->0);
            }
            if r.result is Some {
                assert(members[2] == ("result"@, r.result->0));
                if r.error is Some {
                    assert(members[3] == ("error"@, r.error->0.to_json()));
                }
            } else if r.error is Some {
                assert(members[2] == ("error"@, r.error->0.to_json()));
            }
            assert(distinct_keys(members));
            assert forall|i: int| 0 <= i < members.len() implies (#[trigger] members[i]).1.exact() by {
                if i == 0 {
                } else if i == 1 {
                } else if i == 2 {
                } else {
                }
            }
        },
        MessageView::Notification(n) => {
            assert(JsonView::Str(n.jsonrpc).exact());
            assert(JsonView::Str(n.method).exact());
            assert(members[0] == ("jsonrpc"@, JsonView::Str(n.jsonrpc)));
            assert(members[1] == ("method"@, JsonView::Str(n.method)));
            if n.params is Some {
                assert(members[2] == ("params"@, n.params->0));
            }
            assert(distinct_keys(members));
            assert forall|i: int| 0 <= i < members.len() implies (#[trigger] members[i]).1.exact() by {
                if i == 0 {
                } else if i == 1 {
                } else {
                }
            }
            lemma_notification_has_no_id(n);
        },
    }
}

} // verus!

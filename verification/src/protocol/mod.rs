//! The protocol's vocabulary: version tags, request ids, capabilities and
//! roles.

use crate::error::Error;
use crate::json::{json_of_text, str_eq, text_of_json, Json, JsonView};
use crate::text::{decimal, i64_to_string, lemma_numeral_of_decimal};
use vstd::prelude::*;

pub mod capabilities;
pub mod codec;
pub mod error_codes;
pub mod message;

pub use capabilities::{
    ClientCapabilities, FeatureCapability, ImplementationInfo, ResourceCapability, RootCapability,
    ServerCapabilities,
};
pub use message::{
    Message, MessageView, Method, Notification, NotificationView, Request, RequestView, Response,
    ResponseError, ResponseErrorView, ResponseView, UsedIds,
};

verus! {

/// The protocol version that both peers must agree on.
pub const PROTOCOL_VERSION: &'static str = "2024-11-05";

/// The JSON-RPC version that every frame carries.
pub const JSONRPC_VERSION: &'static str = "2.0";

/// The identifier of a request: a string or an integer, never null and never
/// a fraction.
#[derive(Debug, PartialEq, Eq)]
pub enum RequestId {
    String(String),
    Number(i64),
}

/// The mathematical value of a [`RequestId`].
pub enum RequestIdView {
    String(Seq<char>),
    Number(i64),
}

impl View for RequestId {
    type V = RequestIdView;

    open spec fn view(&self) -> RequestIdView {
        match self {
            RequestId::String(s) => RequestIdView::String(s@),
            RequestId::Number(n) => RequestIdView::Number(*n),
        }
    }
}

impl RequestIdView {
    /// The text under which an id is remembered: a string as it is, an
    /// integer as its decimal numeral. The string `"1"` and the integer `1`
    /// have the same text.
    pub open spec fn canonical(self) -> Seq<char> {
        match self {
            RequestIdView::String(s) => s,
            RequestIdView::Number(n) => decimal(n as int),
        }
    }

    /// The JSON value that stands for the id on the wire.
    pub open spec fn to_json(self) -> JsonView {
        match self {
            RequestIdView::String(s) => JsonView::Str(s),
            RequestIdView::Number(n) => JsonView::Number(decimal(n as int)),
        }
    }

    /// The id that a JSON value stands for: a string, or a number whose
    /// literal is the numeral of a 64-bit integer. Nothing else is an id.
    pub open spec fn of_json(v: JsonView) -> Option<RequestIdView> {
        match v {
            JsonView::Str(s) => Some(RequestIdView::String(s)),
            JsonView::Number(_) => match v.integer() {
                Some(n) => Some(RequestIdView::Number(n)),
                None => None,
            },
            _ => None,
        }
    }
}

/// The view of an optional request id.
pub open spec fn opt_id_view(o: Option<RequestId>) -> Option<RequestIdView> {
    match o {
        Some(id) => Some(id@),
        None => None,
    }
}

/// An id written to JSON and read back is the same id.
pub proof fn lemma_request_id_round_trip(id: RequestIdView)
    ensures
        RequestIdView::of_json(id.to_json()) == Some(id),
{
    match id {
        RequestIdView::String(_) => {},
        RequestIdView::Number(n) => {
            lemma_numeral_of_decimal(n as int);
        },
    }
}

impl Clone for RequestId {
    fn clone(&self) -> (r: RequestId)
        ensures
            r@ == self@,
    {
        match self {
            RequestId::String(s) => RequestId::String(s.clone()),
            RequestId::Number(n) => RequestId::Number(*n),
        }
    }
}

impl RequestId {
    /// Whether two ids are the same: the same variant with the same content.
    /// The string `"1"` and the integer `1` are different ids.
    pub fn same_as(&self, other: &RequestId) -> (r: bool)
        ensures
            r == (self@ == other@),
    {
        match (self, other) {
            (RequestId::String(a), RequestId::String(b)) => str_eq(a.as_str(), b.as_str()),
            (RequestId::Number(a), RequestId::Number(b)) => *a == *b,
            _ => false,
        }
    }

    /// The text under which the id is remembered.
    pub fn canonical(&self) -> (r: String)
        ensures
            r@ == self@.canonical(),
    {
        match self {
            RequestId::String(s) => s.clone(),
            RequestId::Number(n) => i64_to_string(*n),
        }
    }

    /// The JSON value that stands for the id on the wire.
    pub fn to_json(&self) -> (r: Json)
        ensures
            r@ == self@.to_json(),
    {
        match self {
            RequestId::String(s) => Json::Str(s.clone()),
            RequestId::Number(n) => Json::integer(*n),
        }
    }

    /// The id that a JSON value stands for.
    pub fn from_json(value: &Json) -> (r: Option<RequestId>)
        ensures
            match r {
                Some(id) => RequestIdView::of_json(value@) == Some(id@),
                None => RequestIdView::of_json(value@) is None,
            },
    {
        match value {
            Json::Str(s) => Some(RequestId::String(s.clone())),
            Json::Number(_) => match value.as_i64() {
                Some(n) => Some(RequestId::Number(n)),
                None => None,
            },
            _ => None,
        }
    }
}

/// What the codec says of a JSON value that is no request id.
pub const NOT_AN_ID: &'static str = "id must be a string or an integer";

impl RequestId {
    /// The compact JSON text of the id.
    pub fn encode(&self) -> (r: Result<String, Error>)
        ensures
            match text_of_json(self@.to_json()) {
                Ok(s) => r matches Ok(t) && t@ == s,
                Err(m) => r matches Err(Error::Serialization(t)) && t@ == m,
            },
    {
        self.to_json().to_text()
    }

    /// The id that a JSON text stands for. A text that is no JSON gives a
    /// serialization error; JSON that is neither a string nor an integer
    /// gives a protocol error.
    pub fn decode(text: &str) -> (r: Result<RequestId, Error>)
        ensures
            match json_of_text(text@) {
                Err(m) => r matches Err(Error::Serialization(t)) && t@ == m,
                Ok(v) => match RequestIdView::of_json(v) {
                    Some(id) => r matches Ok(got) && got@ == id,
                    None => r matches Err(Error::Protocol(t)) && t@ == NOT_AN_ID@,
                },
            },
    {
        let value = Json::parse(text)?;
        match RequestId::from_json(&value) {
            Some(id) => Ok(id),
            None => Err(Error::Protocol(NOT_AN_ID.to_owned())),
        }
    }
}

/// The part that a participant plays.
#[derive(Debug, Clone, Copy, PartialEq, Eq, Structural)]
pub enum Role {
    /// The application that starts connections.
    Host,
    /// A connector inside the host.
    Client,
    /// A service that provides context and capabilities.
    Server,
}

} // verus!

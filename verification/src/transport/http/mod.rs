//! The HTTP transport: requests travel as POST bodies, and everything that
//! the server says travels as server-sent events.

use crate::error::Error;
use crate::json::{lemma_object_view, text_of_json, Json, JsonView};
use crate::text::{join, join3, nat_digits, u64_to_string};
use vstd::prelude::*;

pub mod client;
pub mod server;

pub use client::{HttpClient, HttpClientConfig};
pub use server::{AxumHttpServer, HttpServerConfig};

verus! {

/// The path under which the server streams events.
pub const EVENTS_PATH: &'static str = "/events";

/// The path under which the server takes messages.
pub const MESSAGES_PATH: &'static str = "/messages";

/// The header in which a client names itself when it posts a message.
pub const CLIENT_ID_HEADER: &'static str = "X-Client-ID";

/// The event that tells a new subscriber where to post and who it is.
pub const ENDPOINT_EVENT: &'static str = "endpoint";

/// The event that carries a message.
pub const MESSAGE_EVENT: &'static str = "message";

/// The text of the keep-alive frame.
pub const KEEP_ALIVE_TEXT: &'static str = "ping";

/// The seconds between two keep-alive frames.
pub const KEEP_ALIVE_SECONDS: u64 = 1;

/// The body of the reply to an accepted POST.
pub const MESSAGE_SENT: &'static str = "Message sent";

/// The URL to which the clients of the server at `addr` post.
pub fn messages_url(addr: &str) -> (r: String)
    ensures
        r@ == "http://"@ + addr@ + MESSAGES_PATH@,
{
    join3("http://", addr, MESSAGES_PATH)
}

/// The URL at which the server at `base_url` streams events.
pub fn events_url(base_url: &str) -> (r: String)
    ensures
        r@ == base_url@ + EVENTS_PATH@,
{
    join(base_url, EVENTS_PATH)
}

/// The object that the endpoint event carries: where to post, and the
/// client's id as a string.
pub open spec fn endpoint_object(endpoint: Seq<char>, client_id: u64) -> JsonView {
    JsonView::Object(
        Seq::empty().push(("endpoint"@, JsonView::Str(endpoint))).push(
            ("clientId"@, JsonView::Str(nat_digits(client_id as nat))),
        ),
    )
}

/// The data of the endpoint event for the client `client_id`: the compact
/// JSON text of the endpoint object.
pub fn endpoint_data(endpoint: &str, client_id: u64) -> (r: Result<String, Error>)
    ensures
        match text_of_json(endpoint_object(endpoint@, client_id)) {
            Ok(s) => r matches Ok(t) && t@ == s,
            Err(m) => r matches Err(Error::Serialization(t)) && t@ == m,
        },
{
    let mut members: Vec<(String, Json)> = Vec::new();
    members.push(("endpoint".to_owned(), Json::string(endpoint)));
    members.push(("clientId".to_owned(), Json::Str(u64_to_string(client_id))));
    let object = Json::Object(members);
    proof {
        lemma_object_view(object);
        assert(object@->Object_0 =~= endpoint_object(endpoint@, client_id)->Object_0);
    }
    object.to_text()
}

/// The frame of a server-sent event: the event's name, one line of data,
/// and the empty line that ends the event.
pub open spec fn event_frame(event: Seq<char>, data: Seq<char>) -> Seq<char> {
    "event: "@ + event + "\ndata: "@ + data + "\n\n"@
}

/// Renders a server-sent event.
pub fn render_event(event: &str, data: &str) -> (r: String)
    ensures
        r@ == event_frame(event@, data@),
{
    let head = join3("event: ", event, "\ndata: ");
    join3(head.as_str(), data, "\n\n")
}

} // verus!

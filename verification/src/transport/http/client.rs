//! The client half of the HTTP transport: it reads the event stream, learns
//! where to post, and posts.

use crate::error::Error;
use super::{event_frame, EVENTS_PATH};
use crate::json::{json_of_text, text_of_json, Json, JsonView};
use crate::protocol::{Message, MessageView};
use crate::text::{
    chars_of, contains, extend, find, find_from, find_line_with, first_at, first_line_with,
    has_char, is_space, join, lemma_line_end, lemma_trim_end_prefix, matches_at, nat_digits,
    occurs_at, opt_text, same, slice, starts_with, string_of, strip_cr, trim, trim_end,
    trim_start, trimmed, u64_to_string,
};
use vstd::prelude::*;

verus! {

/// The configuration of the client half.
#[derive(Debug, Clone, PartialEq, Eq)]
pub struct HttpClientConfig {
    /// The base URL of the server, without a trailing slash.
    pub base_url: String,
    /// The bearer token to send with every request, where the server wants
    /// one.
    pub auth_token: Option<String>,
}

/// Whether `c` may stand in the value of an HTTP header: a tab, or any
/// character from the space on but the delete character.
pub open spec fn is_header_char(c: char) -> bool {
    c == '\t' || (c as u32 >= 32 && c as u32 != 127)
}

/// Whether `s` may be the value of an HTTP header.
pub open spec fn is_header_text(s: Seq<char>) -> bool {
    forall|i: int| 0 <= i < s.len() ==> is_header_char(#[trigger] s[i])
}

/// What `reqwest::header::HeaderValue::from_str` says of a text that it
/// does not accept.
pub const BAD_HEADER: &'static str = "failed to parse header value";

/// Asks `reqwest::header::HeaderValue::from_str` whether it accepts
/// `value`, and hands back the words of its error where it does not. It
/// accepts a text of which every byte is a tab, or at least 32 and not 127;
/// the bytes of a character beyond ASCII are all above 127. That is what
/// its code admits, which is more than the set that its documentation
/// names. Its error has one text for every refusal.
#[verifier::external_body]
fn header_value_fault(value: &str) -> (r: Option<String>)
    ensures
        r is None <==> is_header_text(value@),
        r matches Some(m) ==> m@ == BAD_HEADER@,
{
    reqwest::header::HeaderValue::from_str(value).err().map(|e| e.to_string())
}

impl HttpClientConfig {
    /// The value of the `Authorization` header under this configuration:
    /// none without a token, `Bearer` and the token with one. A token that
    /// cannot stand in a header is a transport error.
    pub fn authorization(&self) -> (r: Result<Option<String>, Error>)
        ensures
            match self.auth_token {
                None => r matches Ok(None),
                Some(token) => if is_header_text("Bearer "@ + token@) {
                    r matches Ok(Some(v)) && v@ == "Bearer "@ + token@
                } else {
                    r matches Err(Error::Transport(t)) && t@ == BAD_HEADER@
                },
            },
    {
        match &self.auth_token {
            None => Ok(None),
            Some(token) => {
                let value = join("Bearer ", token.as_str());
                match header_value_fault(value.as_str()) {
                    None => Ok(Some(value)),
                    Some(words) => Err(Error::Transport(words)),
                }
            },
        }
    }
}

/// The string value of the member `key` of an object.
pub open spec fn string_member(v: JsonView, key: Seq<char>) -> Option<Seq<char>> {
    match v.member(key) {
        Some(m) => m.string(),
        None => None,
    }
}

/// What the data of an endpoint event tells: where to post, and the id that
/// the server gave this client. Both must be strings.
pub open spec fn endpoint_of_json(v: JsonView) -> Option<(Seq<char>, Seq<char>)> {
    match (string_member(v, "endpoint"@), string_member(v, "clientId"@)) {
        (Some(e), Some(c)) => Some((e, c)),
        _ => None,
    }
}

/// What an event tells if it is an endpoint event: an event that, white
/// space aside, begins with the line `event: endpoint` and a data line, and
/// whose first data line holds a JSON object with the strings `endpoint`
/// and `clientId`.
pub open spec fn endpoint_of_event(event: Seq<char>) -> Option<(Seq<char>, Seq<char>)> {
    if starts_with(trim(event), "event: endpoint\ndata:"@) {
        match first_line_with(event, "data:"@) {
            Some(line) => match json_of_text(trim(line.skip("data:"@.len() as int))) {
                Ok(v) => endpoint_of_json(v),
                Err(_) => None,
            },
            None => None,
        }
    } else {
        None
    }
}

/// The view of an optional pair of strings.
pub open spec fn pair_view(o: Option<(String, String)>) -> Option<(Seq<char>, Seq<char>)> {
    match o {
        Some((a, b)) => Some((a@, b@)),
        None => None,
    }
}

/// Reads what the data of an endpoint event tells.
pub fn endpoint_from_json(value: &Json) -> (r: Option<(String, String)>)
    ensures
        pair_view(r) == endpoint_of_json(value@),
{
    let endpoint = match value.get("endpoint") {
        Some(e) => match e.as_str() {
            Some(s) => Some(s.clone()),
            None => None,
        },
        None => None,
    };
    let client_id = match value.get("clientId") {
        Some(c) => match c.as_str() {
            Some(s) => Some(s.clone()),
            None => None,
        },
        None => None,
    };
    match (endpoint, client_id) {
        (Some(e), Some(c)) => Some((e, c)),
        _ => None,
    }
}

/// Reads an event as an endpoint event.
pub fn wait_for_endpoint(event: &str) -> (r: Option<(String, String)>)
    ensures
        pair_view(r) == endpoint_of_event(event@),
{
    let v = chars_of(event);
    let t = trimmed(&v);
    let head = chars_of("event: endpoint\ndata:");
    if !matches_at(&t, &head, 0) {
        return None;
    }
    let prefix = chars_of("data:");
    let line = match find_line_with(&v, &prefix) {
        Some(line) => line,
        None => {
            return None;
        },
    };
    let rest = slice(&line, prefix.len(), line.len());
    assert(rest@ =~= line@.skip("data:"@.len() as int));
    let data = string_of(&trimmed(&rest));
    match Json::parse(data.as_str()) {
        Ok(value) => endpoint_from_json(&value),
        Err(_) => None,
    }
}

} // verus!

verus! {

/// What one event of the stream does to the client.
#[derive(Debug, PartialEq, Eq)]
pub enum Effect {
    /// Nothing: a keep-alive frame, or an event that the client does not
    /// know or cannot read.
    Nothing,
    /// It tells where to post and who the client is.
    Endpoint(String, String),
    /// It brings a message for the inbound queue.
    Deliver(Message),
}

/// The mathematical value of an [`Effect`].
pub enum EffectView {
    Nothing,
    Endpoint(Seq<char>, Seq<char>),
    Deliver(MessageView),
}

impl View for Effect {
    type V = EffectView;

    open spec fn view(&self) -> EffectView {
        match self {
            Effect::Nothing => EffectView::Nothing,
            Effect::Endpoint(e, c) => EffectView::Endpoint(e@, c@),
            Effect::Deliver(m) => EffectView::Deliver(m@),
        }
    }
}

/// The message that the data of a message event stands for, if it stands
/// for one.
pub open spec fn message_of_data(data: Seq<char>) -> Option<MessageView> {
    match json_of_text(data) {
        Ok(v) => match MessageView::of_json(v) {
            Ok(m) => Some(m),
            Err(_) => None,
        },
        Err(_) => None,
    }
}

/// What an event that names `event: endpoint` tells, if it reads as an
/// endpoint event.
pub open spec fn told_endpoint(event: Seq<char>) -> Option<(Seq<char>, Seq<char>)> {
    if contains(event, "event: endpoint"@) {
        endpoint_of_event(event)
    } else {
        None
    }
}

/// What an event does. A keep-alive frame does nothing. An event that
/// names `event: endpoint` and reads as an endpoint event tells the
/// endpoint. Otherwise an event that names `event: message` delivers the
/// message on its first data line, if there is one and it can be read.
pub open spec fn event_effect(event: Seq<char>) -> EffectView {
    if trim(event) == "data: ping"@ {
        EffectView::Nothing
    } else {
        match told_endpoint(event) {
            Some((e, c)) => EffectView::Endpoint(e, c),
            None => if contains(event, "event: message"@) {
                match first_line_with(event, "data: "@) {
                    Some(line) => match message_of_data(line.skip("data: "@.len() as int)) {
                        Some(m) => EffectView::Deliver(m),
                        None => EffectView::Nothing,
                    },
                    None => EffectView::Nothing,
                }
            } else {
                EffectView::Nothing
            },
        }
    }
}

/// Reads one event of the stream.
pub fn read_event(event: &str) -> (r: Effect)
    ensures
        r@ == event_effect(event@),
{
    let v = chars_of(event);
    let t = trimmed(&v);
    let ping = chars_of("data: ping");
    if same(&t, &ping) {
        return Effect::Nothing;
    }
    let endpoint_mark = chars_of("event: endpoint");
    if find(&v, &endpoint_mark).is_some() {
        match wait_for_endpoint(event) {
            Some((e, c)) => {
                return Effect::Endpoint(e, c);
            },
            None => {},
        }
    }
    let message_mark = chars_of("event: message");
    if find(&v, &message_mark).is_some() {
        let prefix = chars_of("data: ");
        match find_line_with(&v, &prefix) {
            Some(line) => {
                let rest = slice(&line, prefix.len(), line.len());
                assert(rest@ =~= line@.skip("data: "@.len() as int));
                let data = string_of(&rest);
                match Message::decode(data.as_str()) {
                    Ok(m) => Effect::Deliver(m),
                    Err(_) => Effect::Nothing,
                }
            },
            None => Effect::Nothing,
        }
    } else {
        Effect::Nothing
    }
}

/// What the client half knows of the stream: the text that has arrived and
/// is not yet a whole event, and what the endpoint event told.
pub struct SseClient {
    buffer: Vec<char>,
    endpoint: Option<String>,
    client_id: Option<String>,
}

/// The mathematical value of an [`SseClient`].
pub struct SseClientView {
    pub buffer: Seq<char>,
    pub endpoint: Option<Seq<char>>,
    pub client_id: Option<Seq<char>>,
}

impl View for SseClient {
    type V = SseClientView;

    closed spec fn view(&self) -> SseClientView {
        SseClientView {
            buffer: self.buffer@,
            endpoint: opt_text(self.endpoint),
            client_id: opt_text(self.client_id),
        }
    }
}

/// The views of a sequence of messages.
pub open spec fn messages_view(messages: Seq<Message>) -> Seq<MessageView> {
    messages.map_values(|m: Message| m@)
}

/// Where the first empty line of `buffer` begins, if it has one. An empty
/// line ends an event.
pub open spec fn first_break(buffer: Seq<char>) -> Option<int> {
    if contains(buffer, "\n\n"@) {
        Some(choose|i: int| first_at(buffer, "\n\n"@, i))
    } else {
        None
    }
}

impl SseClientView {
    /// The client after one event.
    pub open spec fn after(self, rest: Seq<char>, effect: EffectView) -> SseClientView {
        match effect {
            EffectView::Endpoint(e, c) => SseClientView {
                buffer: rest,
                endpoint: Some(e),
                client_id: Some(c),
            },
            _ => SseClientView { buffer: rest, ..self },
        }
    }

    /// The client after every whole event in its buffer, and the messages
    /// that those events delivered, in their order.
    pub open spec fn drained(self) -> (SseClientView, Seq<MessageView>)
        decreases self.buffer.len(),
    {
        match first_break(self.buffer) {
            Some(i) => if 0 <= i && i + 2 <= self.buffer.len() {
                let effect = event_effect(self.buffer.take(i));
                let next = self.after(self.buffer.skip(i + 2), effect);
                let (end, later) = next.drained();
                match effect {
                    EffectView::Deliver(m) => (end, seq![m] + later),
                    _ => (end, later),
                }
            } else {
                (self, Seq::empty())
            },
            None => (self, Seq::empty()),
        }
    }

    /// The client after `chunk` has arrived.
    pub open spec fn fed(self, chunk: Seq<char>) -> (SseClientView, Seq<MessageView>) {
        (SseClientView { buffer: self.buffer + chunk, ..self }).drained()
    }
}

/// There is one first position at most.
pub proof fn lemma_first_at_unique(s: Seq<char>, p: Seq<char>, i: int, j: int)
    requires
        first_at(s, p, i),
        first_at(s, p, j),
    ensures
        i == j,
{
}

/// What the client says when it is asked to post before it knows where.
pub const NO_ENDPOINT: &'static str = "Message endpoint not initialized";

/// What the client says when it is asked to post before it knows who it
/// is.
pub const NO_CLIENT_ID: &'static str = "Client ID not initialized";

impl SseClient {
    /// A client that has read nothing yet.
    pub fn new() -> (r: SseClient)
        ensures
            r@ == (SseClientView { buffer: Seq::empty(), endpoint: None, client_id: None }),
    {
        SseClient { buffer: Vec::new(), endpoint: None, client_id: None }
    }

    /// Whether the endpoint event has arrived.
    pub fn has_endpoint(&self) -> (r: bool)
        ensures
            r == self@.endpoint is Some,
    {
        self.endpoint.is_some()
    }

    /// Takes in a chunk of the stream: handles every event that is now
    /// whole, in order, and gives the messages that they delivered. What
    /// follows the last whole event stays in the buffer.
    pub fn feed(&mut self, chunk: &str) -> (r: Vec<Message>)
        ensures
            (final(self)@, messages_view(r@)) == old(self)@.fed(chunk@),
    {
        let tail = chars_of(chunk);
        extend(&mut self.buffer, &tail);
        let sep = chars_of("\n\n");
        proof {
            reveal_strlit("\n\n");
        }
        let mut out: Vec<Message> = Vec::new();
        let mut pos: usize = 0;
        let ghost mut current = self@;
        assert(self.buffer@.skip(0) =~= self.buffer@);
        assert(messages_view(out@) =~= Seq::empty());
        loop
            invariant
                sep@ == "\n\n"@,
                sep@.len() == 2,
                pos <= self.buffer.len(),
                current == (SseClientView {
                    buffer: self.buffer@.skip(pos as int),
                    endpoint: opt_text(self.endpoint),
                    client_id: opt_text(self.client_id),
                }),
                old(self)@.fed(chunk@) == (
                    current.drained().0,
                    messages_view(out@) + current.drained().1,
                ),
            ensures
                first_break(current.buffer) is None,
            decreases self.buffer.len() - pos,
        {
            match find_from(&self.buffer, &sep, pos) {
                None => {
                    proof {
                        if contains(current.buffer, sep@) {
                            let i = choose|i: int| occurs_at(current.buffer, sep@, i);
                            assert(current.buffer.subrange(i, i + 2) =~= self.buffer@.subrange(
                                pos + i,
                                pos + i + 2,
                            ));
                            assert(occurs_at(self.buffer@, sep@, pos + i));
                        }
                        assert(first_break(current.buffer) is None);
                        assert(messages_view(out@) + Seq::<MessageView>::empty() =~= messages_view(
                            out@,
                        ));
                    }
                    break ;
                },
                Some(at) => {
                    let event_chars = slice(&self.buffer, pos, at);
                    let event = string_of(&event_chars);
                    let effect = read_event(event.as_str());
                    proof {
                        let i = at - pos;
                        assert(current.buffer.subrange(i, i + 2) =~= self.buffer@.subrange(
                            at as int,
                            at + 2,
                        ));
                        assert forall|j: int| 0 <= j < i implies !occurs_at(
                            current.buffer,
                            sep@,
                            j,
                        ) by {
                            if occurs_at(current.buffer, sep@, j) {
                                assert(current.buffer.subrange(j, j + 2) =~= self.buffer@.subrange(
                                    pos + j,
                                    pos + j + 2,
                                ));
                                assert(occurs_at(self.buffer@, sep@, pos + j));
                            }
                        }
                        assert(first_at(current.buffer, sep@, i));
                        let c = choose|c: int| first_at(current.buffer, sep@, c);
                        lemma_first_at_unique(current.buffer, sep@, i, c);
                        assert(first_break(current.buffer) == Some(i));
                        assert(current.buffer.take(i) =~= event@);
                        assert(current.buffer.skip(i + 2) =~= self.buffer@.skip(at + 2));
                    }
                    let ghost before = current;
                    let ghost gap = at - pos;
                    let ghost sent = messages_view(out@);
                    match effect {
                        Effect::Nothing => {},
                        Effect::Endpoint(e, c) => {
                            self.endpoint = Some(e);
                            self.client_id = Some(c);
                        },
                        Effect::Deliver(m) => {
                            out.push(m);
                            proof {
                                assert(messages_view(out@) =~= sent + seq![m@]);
                            }
                        },
                    }
                    pos = at + 2;
                    proof {
                        current = SseClientView {
                            buffer: self.buffer@.skip(pos as int),
                            endpoint: opt_text(self.endpoint),
                            client_id: opt_text(self.client_id),
                        };
                        assert(current == before.after(
                            before.buffer.skip(gap + 2),
                            event_effect(event@),
                        ));
                        assert(sent + (seq![effect@->Deliver_0] + current.drained().1) =~= (sent
                            + seq![effect@->Deliver_0]) + current.drained().1);
                    }
                },
            }
        }
        let rest = slice(&self.buffer, pos, self.buffer.len());
        assert(rest@ =~= self.buffer@.skip(pos as int));
        self.buffer = rest;
        proof {
            assert(self@ == current);
            assert(messages_view(out@) + Seq::<MessageView>::empty() =~= messages_view(out@));
        }
        out
    }
}

} // verus!

verus! {

/// Where and as whom a message is posted.
#[derive(Debug, PartialEq, Eq)]
pub struct PostTarget {
    /// The URL to post to.
    pub url: String,
    /// The value of the client id header.
    pub client_id: String,
}

impl SseClient {
    /// Where and as whom to post. Before the endpoint event has arrived
    /// there is nowhere to post: a transport error.
    pub fn post_target(&self) -> (r: Result<PostTarget, Error>)
        ensures
            match (self@.endpoint, self@.client_id) {
                (Some(e), Some(c)) => r matches Ok(t) && t.url@ == e && t.client_id@ == c,
                (None, _) => r matches Err(Error::Transport(t)) && t@ == NO_ENDPOINT@,
                (Some(_), None) => r matches Err(Error::Transport(t)) && t@ == NO_CLIENT_ID@,
            },
    {
        let url = match &self.endpoint {
            Some(e) => e.clone(),
            None => {
                return Err(Error::Transport(NO_ENDPOINT.to_owned()));
            },
        };
        let client_id = match &self.client_id {
            Some(c) => c.clone(),
            None => {
                return Err(Error::Transport(NO_CLIENT_ID.to_owned()));
            },
        };
        Ok(PostTarget { url, client_id })
    }

    /// Forgets the endpoint, the client id and what is buffered, as closing
    /// the transport does. A second time changes nothing.
    pub fn reset(&mut self)
        ensures
            final(self)@ == (SseClientView {
                buffer: Seq::empty(),
                endpoint: None,
                client_id: None,
            }),
    {
        self.buffer = Vec::new();
        self.endpoint = None;
        self.client_id = None;
    }
}

/// How many times the client looks for the endpoint event before it gives
/// up.
pub const ENDPOINT_RETRIES: u32 = 10;

/// The milliseconds between two looks.
pub const ENDPOINT_RETRY_MILLIS: u64 = 100;

/// How many messages the inbound queue holds.
pub const INBOUND_CAPACITY: usize = 32;

/// What the client says when the endpoint event did not come in time.
pub const NO_ENDPOINT_EVENT: &'static str = "Failed to receive endpoint event";

/// What the client says when it is asked for a message before it has
/// subscribed.
pub const NOT_SUBSCRIBED: &'static str = "SSE connection not established";

/// What the client says when the stream has ended.
pub const STREAM_ENDED: &'static str = "SSE connection closed";

/// What to do while waiting for the endpoint event.
#[derive(Debug, PartialEq, Eq)]
pub enum WaitStep {
    /// The endpoint is known: initialization is complete.
    Ready,
    /// Sleep for the retry interval, then look again.
    Sleep,
    /// Give up with this transport error.
    GiveUp(Error),
}

/// Decides the next step of the wait for the endpoint event, after
/// `retries` sleeps. The client is ready as soon as the endpoint is known,
/// sleeps while fewer than ten sleeps have passed, and gives up after the
/// tenth.
pub fn endpoint_wait(has_endpoint: bool, retries: u32) -> (r: WaitStep)
    ensures
        has_endpoint ==> r == WaitStep::Ready,
        !has_endpoint && retries < ENDPOINT_RETRIES ==> r == WaitStep::Sleep,
        !has_endpoint && retries >= ENDPOINT_RETRIES ==> (r matches WaitStep::GiveUp(
            Error::Transport(t),
        ) && t@ == NO_ENDPOINT_EVENT@),
{
    if has_endpoint {
        WaitStep::Ready
    } else if retries < ENDPOINT_RETRIES {
        WaitStep::Sleep
    } else {
        WaitStep::GiveUp(Error::Transport(NO_ENDPOINT_EVENT.to_owned()))
    }
}

/// Whether an HTTP status says that the server took the message.
pub open spec fn is_success(status: u16) -> bool {
    200 <= status < 300
}

/// Judges the status with which the server answered a POST: any status
/// outside the two hundreds is a transport error that names the status.
pub fn check_status(status: u16) -> (r: Result<(), Error>)
    ensures
        is_success(status) ==> r is Ok,
        !is_success(status) ==> (r matches Err(Error::Transport(t)) && t@
            == "HTTP status "@ + nat_digits(status as nat)),
{
    if 200 <= status && status < 300 {
        Ok(())
    } else {
        let code = u64_to_string(status as u64);
        Err(Error::Transport(join("HTTP status ", code.as_str())))
    }
}

} // verus!

verus! {

/// The frame of a message event whose data holds no line feed, read by a
/// client with an empty buffer, is one whole event: it delivers the message
/// that the data stands for, if it stands for one, and leaves the buffer
/// empty and the endpoint as it was.
pub proof fn lemma_message_frame_is_read(client: SseClientView, data: Seq<char>)
    requires
        client.buffer.len() == 0,
        !has_char(data, '\n'),
    ensures
        client.fed(event_frame("message"@, data)) == (
            client,
            match message_of_data(data) {
                Some(m) => seq![m],
                None => Seq::empty(),
            },
        ),
{
    reveal_strlit("event: ");
    reveal_strlit("message");
    reveal_strlit("\ndata: ");
    reveal_strlit("\n\n");
    reveal_strlit("data: ping");
    reveal_strlit("event: endpoint\ndata:");
    reveal_strlit("event: message");
    reveal_strlit("data: ");
    let head = "event: "@ + "message"@ + "\ndata: "@;
    let frame = event_frame("message"@, data);
    let event = head + data;
    let sep = "\n\n"@;
    let n = event.len() as int;
    assert(head.len() == 21);
    assert(frame =~= event + sep);
    assert(head =~= seq![
        'e', 'v', 'e', 'n', 't', ':', ' ', 'm', 'e', 's', 's', 'a', 'g', 'e', '\n', 'd', 'a', 't',
        'a', ':', ' ',
    ]);
    assert forall|k: int| 0 <= k < n implies (event[k] == '\n' <==> k == 14) by {
        if k < 21 {
            assert(event[k] == head[k]);
        } else {
            assert(event[k] == data[k - 21]);
        }
    }
    // The only empty line is the one that ends the frame.
    assert(frame.subrange(n, n + 2) =~= sep);
    assert forall|j: int| 0 <= j < n implies !occurs_at(frame, sep, j) by {
        if occurs_at(frame, sep, j) {
            let w = frame.subrange(j, j + 2);
            assert(w[0] == frame[j] && w[1] == frame[j + 1]);
            assert(w[0] == '\n' && w[1] == '\n');
            assert(frame[j] == event[j]);
            if j + 1 < n {
                assert(frame[j + 1] == event[j + 1]);
            }
        }
    }
    assert(first_at(frame, sep, n));
    let c = choose|c: int| first_at(frame, sep, c);
    lemma_first_at_unique(frame, sep, n, c);
    assert(first_break(frame) == Some(n));
    assert(frame.take(n) =~= event);
    assert(frame.skip(n + 2) =~= Seq::<char>::empty());
    // The event is no keep-alive frame and no endpoint event.
    assert(!is_space('e'));
    assert(event[0] == 'e');
    assert(trim_start(event) == event);
    lemma_trim_end_prefix(event);
    let t = trim(event);
    assert(t == trim_end(event));
    assert(t.len() > 0 && t[0] == 'e');
    assert("data: ping"@[0] == 'd');
    assert(t != "data: ping"@);
    let mark = "event: endpoint\ndata:"@;
    assert(mark[7] == 'e');
    if starts_with(t, mark) {
        assert(t.subrange(0, mark.len() as int)[7] == t[7]);
        assert(t[7] == event[7]);
        assert(event[7] == 'm');
    }
    assert(endpoint_of_event(event) is None);
    assert(told_endpoint(event) is None);
    // It names a message, and its first data line is the second line.
    assert(event.subrange(0, 14) =~= "event: message"@);
    assert(occurs_at(event, "event: message"@, 0));
    assert(contains(event, "event: message"@));
    lemma_line_end(event, 14);
    let first = event.take(14);
    assert(first.last() == 'e');
    assert(strip_cr(first) == first);
    assert(!starts_with(first, "data: "@)) by {
        if starts_with(first, "data: "@) {
            assert(first.subrange(0, 6)[0] == first[0]);
            assert("data: "@[0] == 'd');
        }
    }
    let rest = event.skip(15);
    assert(rest =~= "data: "@ + data);
    assert forall|k: int| 0 <= k < rest.len() implies rest[k] != '\n' by {
        assert(rest[k] == event[k + 15]);
    }
    lemma_line_end(rest, rest.len() as int);
    assert(rest.subrange(0, 6) =~= "data: "@);
    assert(starts_with(rest, "data: "@));
    assert(first_line_with(rest, "data: "@) == Some(rest));
    assert(first_line_with(event, "data: "@) == Some(rest));
    assert(rest.skip(6) =~= data);
    let effect = event_effect(event);
    assert(effect == match message_of_data(data) {
        Some(m) => EffectView::Deliver(m),
        None => EffectView::Nothing,
    });
    // Nothing is left after the event.
    let fed = SseClientView { buffer: client.buffer + frame, ..client };
    assert(fed.buffer =~= frame);
    let next = fed.after(frame.skip(n + 2), effect);
    assert(next.buffer =~= client.buffer);
    assert(next == client);
    assert(!contains(next.buffer, sep)) by {
        if contains(next.buffer, sep) {
            let i = choose|i: int| occurs_at(next.buffer, sep, i);
            assert(false);
        }
    }
    assert(first_break(next.buffer) is None);
    assert(next.drained() == (next, Seq::<MessageView>::empty()));
    match message_of_data(data) {
        Some(m) => {
            assert(seq![m] + Seq::<MessageView>::empty() =~= seq![m]);
        },
        None => {},
    }
}

/// The frame of an endpoint event whose data holds no line feed, read by
/// a client with an empty buffer, is one whole event: where its data, white
/// space aside, is the text of an object with the strings `endpoint` and
/// `clientId`, the client afterwards knows both, and nothing is delivered.
pub proof fn lemma_endpoint_frame_is_read(client: SseClientView, data: Seq<char>)
    requires
        client.buffer.len() == 0,
        !has_char(data, '\n'),
    ensures
        match json_of_text(trim(data)) {
            Ok(v) => match endpoint_of_json(v) {
                Some((e, c)) => client.fed(event_frame("endpoint"@, data)) == (
                    SseClientView { buffer: Seq::empty(), endpoint: Some(e), client_id: Some(c) },
                    Seq::<MessageView>::empty(),
                ),
                None => true,
            },
            Err(_) => true,
        },
{
    reveal_strlit("event: ");
    reveal_strlit("endpoint");
    reveal_strlit("\ndata: ");
    reveal_strlit("\n\n");
    reveal_strlit("data: ping");
    reveal_strlit("event: endpoint\ndata:");
    reveal_strlit("event: endpoint");
    reveal_strlit("data:");
    let head = "event: "@ + "endpoint"@ + "\ndata: "@;
    let frame = event_frame("endpoint"@, data);
    let event = head + data;
    let sep = "\n\n"@;
    let mark = "event: endpoint\ndata:"@;
    let n = event.len() as int;
    assert(head.len() == 22);
    assert(frame =~= event + sep);
    assert(head =~= seq![
        'e', 'v', 'e', 'n', 't', ':', ' ', 'e', 'n', 'd', 'p', 'o', 'i', 'n', 't', '\n', 'd', 'a',
        't', 'a', ':', ' ',
    ]);
    assert forall|k: int| 0 <= k < n implies (event[k] == '\n' <==> k == 15) by {
        if k < 22 {
            assert(event[k] == head[k]);
        } else {
            assert(event[k] == data[k - 22]);
        }
    }
    // The only empty line is the one that ends the frame.
    assert(frame.subrange(n, n + 2) =~= sep);
    assert forall|j: int| 0 <= j < n implies !occurs_at(frame, sep, j) by {
        if occurs_at(frame, sep, j) {
            let w = frame.subrange(j, j + 2);
            assert(w[0] == frame[j] && w[1] == frame[j + 1]);
            assert(w[0] == '\n' && w[1] == '\n');
            assert(frame[j] == event[j]);
            if j + 1 < n {
                assert(frame[j + 1] == event[j + 1]);
            }
        }
    }
    assert(first_at(frame, sep, n));
    let c0 = choose|c: int| first_at(frame, sep, c);
    lemma_first_at_unique(frame, sep, n, c0);
    assert(first_break(frame) == Some(n));
    assert(frame.take(n) =~= event);
    assert(frame.skip(n + 2) =~= Seq::<char>::empty());
    // The event is no keep-alive frame; trimmed, it begins as an endpoint
    // event does.
    assert(!is_space('e'));
    assert(!is_space(':'));
    assert(event[0] == 'e');
    assert(event[20] == ':');
    assert(trim_start(event) == event);
    lemma_trim_end_prefix(event);
    let t = trim(event);
    assert(t == trim_end(event));
    assert(t.len() > 20 && t[0] == 'e');
    assert("data: ping"@[0] == 'd');
    assert(t != "data: ping"@);
    assert(mark.len() == 21);
    assert(t.subrange(0, 21) =~= mark) by {
        assert forall|k: int| 0 <= k < 21 implies t[k] == mark[k] by {
            assert(t[k] == event[k]);
            assert(event[k] == head[k]);
        }
    }
    assert(starts_with(t, mark));
    assert(event.subrange(0, 15) =~= "event: endpoint"@);
    assert(occurs_at(event, "event: endpoint"@, 0));
    assert(contains(event, "event: endpoint"@));
    // Its first data line is the second line.
    lemma_line_end(event, 15);
    let first = event.take(15);
    assert(first.last() == 't');
    assert(strip_cr(first) == first);
    assert(!starts_with(first, "data:"@)) by {
        if starts_with(first, "data:"@) {
            assert(first.subrange(0, 5)[0] == first[0]);
            assert("data:"@[0] == 'd');
        }
    }
    let rest = event.skip(16);
    assert(rest =~= "data: "@ + data) by {
        reveal_strlit("data: ");
    }
    assert forall|k: int| 0 <= k < rest.len() implies rest[k] != '\n' by {
        assert(rest[k] == event[k + 16]);
    }
    lemma_line_end(rest, rest.len() as int);
    assert(rest.subrange(0, 5) =~= "data:"@) by {
        assert forall|k: int| 0 <= k < 5 implies rest[k] == "data:"@[k] by {
            assert(rest[k] == event[k + 16]);
            assert(event[k + 16] == head[k + 16]);
        }
    }
    assert(starts_with(rest, "data:"@));
    assert(first_line_with(rest, "data:"@) == Some(rest));
    assert(first_line_with(event, "data:"@) == Some(rest));
    let tail = rest.skip(5);
    assert(tail =~= seq![' '] + data);
    assert(is_space(' '));
    assert(tail.skip(1) =~= data);
    assert(trim_start(tail) == trim_start(data));
    assert(trim(tail) == trim(data));
    if json_of_text(trim(data)) matches Ok(v) && endpoint_of_json(v) matches Some((e, c)) {
        let v = json_of_text(trim(data))->Ok_0;
        let told = endpoint_of_json(v)->0;
        assert(endpoint_of_event(event) == Some(told));
        let effect = event_effect(event);
        assert(effect == EffectView::Endpoint(told.0, told.1));
        let fed = SseClientView { buffer: client.buffer + frame, ..client };
        assert(fed.buffer =~= frame);
        let next = fed.after(frame.skip(n + 2), effect);
        assert(next.buffer =~= Seq::<char>::empty());
        assert(!contains(next.buffer, sep)) by {
            if contains(next.buffer, sep) {
                let i = choose|i: int| occurs_at(next.buffer, sep, i);
                assert(false);
            }
        }
        assert(first_break(next.buffer) is None);
        assert(next.drained() == (next, Seq::<MessageView>::empty()));
        assert(next == (SseClientView {
            buffer: Seq::empty(),
            endpoint: Some(told.0),
            client_id: Some(told.1),
        }));
        assert(fed.drained() == (next, Seq::<MessageView>::empty()));
        assert(client.fed(frame) == fed.drained());
    }
}

/// What the client posts for a message.
#[derive(Debug, PartialEq, Eq)]
pub struct PostRequest {
    /// The URL to post to.
    pub url: String,
    /// The value of the client id header.
    pub client_id: String,
    /// The body: the compact JSON text of the message.
    pub body: String,
}

/// The mathematical value of an [`HttpClient`].
pub struct HttpClientView {
    /// The value of the `Authorization` header that goes with every
    /// request, if any.
    pub authorization: Option<Seq<char>>,
    /// Whether the client has subscribed to the event stream.
    pub subscribed: bool,
    /// What the client knows of the stream.
    pub stream: SseClientView,
}

/// The client half of the HTTP transport, without its connections. It
/// decides what is requested and posted, and what the stream means.
pub struct HttpClient {
    config: HttpClientConfig,
    authorization: Option<String>,
    subscribed: bool,
    stream: SseClient,
}

impl View for HttpClient {
    type V = HttpClientView;

    closed spec fn view(&self) -> HttpClientView {
        HttpClientView {
            authorization: opt_text(self.authorization),
            subscribed: self.subscribed,
            stream: self.stream@,
        }
    }
}

/// The stream of a client that has read nothing.
pub open spec fn empty_stream() -> SseClientView {
    SseClientView { buffer: Seq::empty(), endpoint: None, client_id: None }
}

impl HttpClient {
    /// The base URL of the server.
    pub closed spec fn spec_base_url(&self) -> Seq<char> {
        self.config.base_url@
    }

    /// A client for the server of `config`, which has not subscribed yet.
    /// With a token, every request carries `Bearer` and the token; a token
    /// that cannot stand in a header is a transport error.
    pub fn new(config: HttpClientConfig) -> (r: Result<HttpClient, Error>)
        ensures
            match config.auth_token {
                None => r matches Ok(c) && c@ == (HttpClientView {
                    authorization: None,
                    subscribed: false,
                    stream: empty_stream(),
                }) && c.spec_base_url() == config.base_url@,
                Some(token) => if is_header_text("Bearer "@ + token@) {
                    r matches Ok(c) && c@ == (HttpClientView {
                        authorization: Some("Bearer "@ + token@),
                        subscribed: false,
                        stream: empty_stream(),
                    }) && c.spec_base_url() == config.base_url@
                } else {
                    r matches Err(Error::Transport(t)) && t@ == BAD_HEADER@
                },
            },
    {
        let authorization = config.authorization()?;
        Ok(HttpClient { config, authorization, subscribed: false, stream: SseClient::new() })
    }

    /// The value of the `Authorization` header that goes with every
    /// request, if any.
    pub fn authorization(&self) -> (r: Option<&String>)
        ensures
            match r {
                Some(v) => self@.authorization == Some(v@),
                None => self@.authorization is None,
            },
    {
        self.authorization.as_ref()
    }

    /// The URL at which the client subscribes to the event stream.
    pub fn events_url(&self) -> (r: String)
        ensures
            r@ == self.spec_base_url() + EVENTS_PATH@,
    {
        join(self.config.base_url.as_str(), EVENTS_PATH)
    }

    /// Records that the server has accepted the subscription: from now on
    /// there is a stream to read from.
    pub fn subscribe(&mut self)
        ensures
            final(self)@ == (HttpClientView { subscribed: true, ..old(self)@ }),
            final(self).spec_base_url() == old(self).spec_base_url(),
    {
        self.subscribed = true;
    }

    /// Takes in a chunk of the stream, and gives the messages for the
    /// inbound queue.
    pub fn feed(&mut self, chunk: &str) -> (r: Vec<Message>)
        ensures
            final(self).spec_base_url() == old(self).spec_base_url(),
            final(self)@.authorization == old(self)@.authorization,
            final(self)@.subscribed == old(self)@.subscribed,
            (final(self)@.stream, messages_view(r@)) == old(self)@.stream.fed(chunk@),
    {
        self.stream.feed(chunk)
    }

    /// Decides the next step of the initialization, after `retries` sleeps:
    /// it is complete as soon as the endpoint event has arrived, and fails
    /// when the event has not arrived after the tenth sleep.
    pub fn initialize(&self, retries: u32) -> (r: WaitStep)
        ensures
            self@.stream.endpoint is Some ==> r == WaitStep::Ready,
            self@.stream.endpoint is None && retries < ENDPOINT_RETRIES ==> r == WaitStep::Sleep,
            self@.stream.endpoint is None && retries >= ENDPOINT_RETRIES ==> (r
                matches WaitStep::GiveUp(Error::Transport(t)) && t@ == NO_ENDPOINT_EVENT@),
    {
        endpoint_wait(self.stream.has_endpoint(), retries)
    }

    /// Decides what is posted for `message`: where, as whom, and the body.
    /// Before the endpoint event has arrived there is nowhere to post: a
    /// transport error, and nothing is to be posted.
    pub fn send(&self, message: &Message) -> (r: Result<PostRequest, Error>)
        ensures
            match (self@.stream.endpoint, self@.stream.client_id) {
                (None, _) => r matches Err(Error::Transport(t)) && t@ == NO_ENDPOINT@,
                (Some(_), None) => r matches Err(Error::Transport(t)) && t@ == NO_CLIENT_ID@,
                (Some(e), Some(c)) => match text_of_json(message@.to_json()) {
                    Ok(text) => r matches Ok(p) && p.url@ == e && p.client_id@ == c && p.body@
                        == text,
                    Err(m) => r matches Err(Error::Serialization(t)) && t@ == m,
                },
            },
    {
        let target = self.stream.post_target()?;
        let body = message.encode()?;
        Ok(PostRequest { url: target.url, client_id: target.client_id, body })
    }

    /// Decides what the caller gets from the inbound queue: the next
    /// message; a transport error before the client has subscribed, and
    /// when the queue has ended.
    pub fn receive(&self, next: Option<Message>) -> (r: Result<Message, Error>)
        ensures
            !self@.subscribed ==> (r matches Err(Error::Transport(t)) && t@ == NOT_SUBSCRIBED@),
            self@.subscribed ==> match next {
                Some(m) => r matches Ok(got) && got@ == m@,
                None => r matches Err(Error::Transport(t)) && t@ == STREAM_ENDED@,
            },
    {
        if !self.subscribed {
            return Err(Error::Transport(NOT_SUBSCRIBED.to_owned()));
        }
        match next {
            Some(m) => Ok(m),
            None => Err(Error::Transport(STREAM_ENDED.to_owned())),
        }
    }

    /// Forgets the subscription, the endpoint, the client id and what is
    /// buffered. A second close changes nothing.
    pub fn close(&mut self)
        ensures
            final(self).spec_base_url() == old(self).spec_base_url(),
            final(self)@ == (HttpClientView {
                authorization: old(self)@.authorization,
                subscribed: false,
                stream: empty_stream(),
            }),
    {
        self.subscribed = false;
        self.stream.reset();
    }
}

} // verus!

//! The pipe transport's framing: one JSON text per line.

use crate::error::Error;
use crate::json::text_of_json;
use crate::protocol::Message;
use crate::text::{chars_of, has_char, str_has_char, string_of};
use vstd::prelude::*;

pub mod client;
pub mod server;

pub use client::{StdioClient, StdioClientConfig};
pub use server::{StdioServer, StdioServerConfig};

verus! {

/// Whether `frame` holds exactly one line feed, at its end.
pub open spec fn is_one_line(frame: Seq<char>) -> bool {
    &&& frame.len() >= 1
    &&& forall|i: int| 0 <= i < frame.len() ==> (#[trigger] frame[i] == '\n' <==> i == frame.len() - 1)
}

/// The frame of a text without line feeds: the text, then one line feed.
pub open spec fn framed(text: Seq<char>) -> Seq<char> {
    text.push('\n')
}

/// The frame of a text without line feeds holds exactly one line feed, at
/// its end.
pub proof fn lemma_framed_is_one_line(text: Seq<char>)
    requires
        !has_char(text, '\n'),
    ensures
        is_one_line(framed(text)),
{
    let f = framed(text);
    assert forall|i: int| 0 <= i < f.len() implies (#[trigger] f[i] == '\n' <==> i == f.len() - 1) by {
        if i < text.len() {
            assert(f[i] == text[i]);
        }
    }
}

/// What the transport says of a text that holds a line feed.
pub open spec fn embedded_newline_error() -> Seq<char> {
    "Message contains embedded newlines"@
}

/// What sending a JSON text makes of it: its frame, or the refusal of a
/// text that holds a line feed.
pub open spec fn frame_outcome(text: Seq<char>) -> Result<Seq<char>, Seq<char>> {
    if has_char(text, '\n') {
        Err(embedded_newline_error())
    } else {
        Ok(framed(text))
    }
}

/// Frames a JSON text for the pipe. A text that holds a line feed is
/// refused, because the line feed is what ends a frame.
pub fn frame(text: &str) -> (r: Result<String, Error>)
    ensures
        match frame_outcome(text@) {
            Ok(f) => r matches Ok(got) && got@ == f && is_one_line(got@),
            Err(m) => r matches Err(Error::Transport(t)) && t@ == m,
        },
{
    if str_has_char(text, '\n') {
        Err(Error::Transport("Message contains embedded newlines".to_owned()))
    } else {
        let mut v = chars_of(text);
        v.push('\n');
        proof {
            lemma_framed_is_one_line(text@);
        }
        Ok(string_of(&v))
    }
}

/// The frame that carries `message` over the pipe: its compact JSON text
/// and one line feed. Nothing is to be written where this fails.
pub fn frame_message(message: &Message) -> (r: Result<String, Error>)
    ensures
        match text_of_json(message@.to_json()) {
            Err(m) => r matches Err(Error::Serialization(t)) && t@ == m,
            Ok(text) => match frame_outcome(text) {
                Ok(f) => r matches Ok(got) && got@ == f,
                Err(m) => r matches Err(Error::Transport(t)) && t@ == m,
            },
        },
        r matches Ok(got) ==> is_one_line(got@),
{
    let text = message.encode()?;
    frame(text.as_str())
}

} // verus!

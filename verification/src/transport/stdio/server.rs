//! The server half of the pipe transport: it speaks over its own standard
//! streams.

use crate::error::Error;
use super::{frame_message, frame_outcome, is_one_line};
use crate::json::{json_of_text, text_of_json};
use crate::protocol::{Message, MessageView};
use crate::text::join;
use vstd::prelude::*;

verus! {

/// The configuration of the server half.
#[derive(Debug, Clone, Copy, PartialEq, Eq, Structural)]
pub struct StdioServerConfig {
    /// The capacity with which a line is read.
    pub buffer_size: usize,
}

impl Default for StdioServerConfig {
    fn default() -> (r: StdioServerConfig)
        ensures
            r.buffer_size == 4096,
    {
        StdioServerConfig { buffer_size: 4096 }
    }
}

/// What the server half logs when it starts.
pub const STARTED: &'static str = "MCP server initialized";

/// What the server half logs when it closes.
pub const STOPPING: &'static str = "MCP server shutting down";

/// What the server half says when its input has ended.
pub const INPUT_ENDED: &'static str = "Client connection closed";

/// What a line read from standard input gives: the message on it, or the
/// transport error that ends the session. An empty read means that the
/// client has closed the pipe.
pub open spec fn received(line: Seq<char>) -> Result<MessageView, Seq<char>> {
    if line.len() == 0 {
        Err(INPUT_ENDED@)
    } else {
        match json_of_text(line) {
            Err(m) => Err("Invalid message format: "@ + m),
            Ok(v) => match MessageView::of_json(v) {
                Ok(m) => Ok(m),
                Err(f) => Err("Invalid message format: "@ + f.spec_message()),
            },
        }
    }
}

/// Reads the message on a line of standard input.
pub fn receive_line(line: &str) -> (r: Result<Message, Error>)
    ensures
        match received(line@) {
            Ok(m) => r matches Ok(got) && got@ == m,
            Err(e) => r matches Err(Error::Transport(t)) && t@ == e,
        },
{
    if line.is_empty() {
        return Err(Error::Transport(INPUT_ENDED.to_owned()));
    }
    match Message::decode(line) {
        Ok(m) => Ok(m),
        Err(Error::Serialization(m)) => Err(
            Error::Transport(join("Invalid message format: ", m.as_str())),
        ),
        Err(Error::Protocol(m)) => Err(
            Error::Transport(join("Invalid message format: ", m.as_str())),
        ),
        Err(_) => {
            assert(false);
            Err(Error::Transport(String::new()))
        },
    }
}

/// The server half of the pipe transport, without its streams. It decides
/// what is written to standard output and to standard error, and what a
/// line that was read means.
pub struct StdioServer {
    config: StdioServerConfig,
}

impl StdioServer {
    /// A server with the configuration `config`.
    pub fn new(config: StdioServerConfig) -> (r: StdioServer)
        ensures
            r.spec_config() == config,
    {
        StdioServer { config }
    }

    /// The configuration of the server.
    pub closed spec fn spec_config(&self) -> StdioServerConfig {
        self.config
    }

    /// The configuration of the server.
    pub fn config(&self) -> (r: StdioServerConfig)
        ensures
            r == self.spec_config(),
    {
        self.config
    }

    /// What is written to standard error for a log message: the message and
    /// one line feed. Nothing of it goes to standard output.
    pub fn log(&self, message: &str) -> (r: String)
        ensures
            r@ == message@.push('\n'),
    {
        let mut v = crate::text::chars_of(message);
        v.push('\n');
        crate::text::string_of(&v)
    }

    /// What the server logs when it starts.
    pub fn initialize(&self) -> (r: &'static str)
        ensures
            r@ == STARTED@,
    {
        STARTED
    }

    /// Decides what is written to standard output for `message`: its
    /// frame. Nothing is to be written to standard output where this fails.
    pub fn send(&self, message: &Message) -> (r: Result<String, Error>)
        ensures
            match text_of_json(message@.to_json()) {
                Err(m) => r matches Err(Error::Serialization(t)) && t@ == m,
                Ok(text) => match frame_outcome(text) {
                    Ok(f) => r matches Ok(got) && got@ == f && is_one_line(got@),
                    Err(m) => r matches Err(Error::Transport(t)) && t@ == m,
                },
            },
    {
        frame_message(message)
    }

    /// Reads the message on a line of standard input.
    pub fn receive(&self, line: &str) -> (r: Result<Message, Error>)
        ensures
            match received(line@) {
                Ok(m) => r matches Ok(got) && got@ == m,
                Err(e) => r matches Err(Error::Transport(t)) && t@ == e,
            },
    {
        receive_line(line)
    }

    /// What the server logs when it closes. Closing releases nothing: the
    /// process ends by itself.
    pub fn close(&self) -> (r: &'static str)
        ensures
            r@ == STOPPING@,
    {
        STOPPING
    }
}

} // verus!

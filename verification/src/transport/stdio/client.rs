//! The client half of the pipe transport: it owns the server as a child
//! process.

use crate::error::{Error, ErrorView};
use crate::json::json_of_text;
use super::{frame_message, frame_outcome, is_one_line};
use crate::json::text_of_json;
use crate::protocol::{Message, MessageView, UsedIds};
use crate::text::{chars_of, join, string_of, trim, trimmed};
use vstd::prelude::*;

verus! {

/// The configuration of the client half.
#[derive(Debug, Clone, PartialEq, Eq)]
pub struct StdioClientConfig {
    /// The path of the server's executable.
    pub server_path: String,
    /// The arguments that the server is started with.
    pub server_args: Vec<String>,
    /// The capacity with which a line is read.
    pub buffer_size: usize,
    /// Whether the server's standard error is captured and passed on to the
    /// host's log.
    pub capture_logs: bool,
}

impl Default for StdioClientConfig {
    fn default() -> (r: StdioClientConfig)
        ensures
            r.server_path@ == "mcp-server"@,
            r.server_args@.len() == 0,
            r.buffer_size == 4096,
            r.capture_logs,
    {
        StdioClientConfig {
            server_path: "mcp-server".to_owned(),
            server_args: Vec::new(),
            buffer_size: 4096,
            capture_logs: true,
        }
    }
}

/// What becomes of the child's standard error.
#[derive(Debug, Clone, Copy, PartialEq, Eq, Structural)]
pub enum StderrMode {
    /// It is read by the client.
    Piped,
    /// It goes where the client's own standard error goes.
    Inherited,
}

impl StdioClientConfig {
    /// What becomes of the child's standard error under this configuration.
    pub fn stderr_mode(&self) -> (r: StderrMode)
        ensures
            r == (if self.capture_logs {
                StderrMode::Piped
            } else {
                StderrMode::Inherited
            }),
    {
        if self.capture_logs {
            StderrMode::Piped
        } else {
            StderrMode::Inherited
        }
    }
}

/// Why the child could not be started.
#[derive(Debug, PartialEq, Eq)]
pub enum LaunchFault {
    /// The operating system refused to start it, with these words.
    Spawn(String),
    /// It was started without a pipe to its standard input.
    NoStdin,
    /// It was started without a pipe from its standard output.
    NoStdout,
}

/// What the transport says of a failed start.
pub open spec fn launch_error_text(fault: LaunchFault) -> Seq<char> {
    match fault {
        LaunchFault::Spawn(m) => "Failed to start server: "@ + m@,
        LaunchFault::NoStdin => "Failed to get server stdin handle"@,
        LaunchFault::NoStdout => "Failed to get server stdout handle"@,
    }
}

/// The transport error for a failed start.
pub fn launch_error(fault: &LaunchFault) -> (r: Error)
    ensures
        r matches Error::Transport(t) && t@ == launch_error_text(*fault),
{
    match fault {
        LaunchFault::Spawn(m) => Error::Transport(join("Failed to start server: ", m.as_str())),
        LaunchFault::NoStdin => Error::Transport("Failed to get server stdin handle".to_owned()),
        LaunchFault::NoStdout => Error::Transport("Failed to get server stdout handle".to_owned()),
    }
}

/// The line under which a line of the server's standard error goes to the
/// host's log: a tag, then the line without the white space around it.
pub fn log_line(line: &str) -> (r: String)
    ensures
        r@ == "[MCP Server] "@ + trim(line@),
{
    let v = chars_of(line);
    let t = string_of(&trimmed(&v));
    join("[MCP Server] ", t.as_str())
}

/// What the client says when it is used before the child was started.
pub const NOT_STARTED: &'static str = "Server process not initialized";

/// What the client says when the child's output has ended.
pub const OUTPUT_ENDED: &'static str = "Server process terminated";

/// Reads the message on a line of the child's standard output. An empty
/// read means that the child has closed its output: a transport error. A
/// line that is no JSON gives a serialization error, and JSON that is no
/// message a protocol error.
pub fn receive_line(line: &str) -> (r: Result<Message, Error>)
    ensures
        line@.len() == 0 ==> (r matches Err(Error::Transport(t)) && t@ == OUTPUT_ENDED@),
        line@.len() > 0 ==> match json_of_text(line@) {
            Err(m) => r matches Err(Error::Serialization(t)) && t@ == m,
            Ok(v) => match MessageView::of_json(v) {
                Ok(m) => r matches Ok(got) && got@ == m,
                Err(f) => r matches Err(Error::Protocol(t)) && t@ == f.spec_message(),
            },
        },
{
    if line.is_empty() {
        return Err(Error::Transport(OUTPUT_ENDED.to_owned()));
    }
    Message::decode(line)
}

/// The milliseconds that a close waits for the child to exit before it
/// kills the child.
pub const CLOSE_WAIT_MILLIS: u64 = 5000;

/// Where the client half is in the life of its child.
#[derive(Debug, Clone, Copy, PartialEq, Eq, Structural)]
pub enum ChildState {
    /// No child was started, or the child was reaped.
    Absent,
    /// The child runs and the pipes are open.
    Running,
    /// Standard input was closed, and the client waits for the child to
    /// exit.
    Draining,
    /// The wait ran out, the child was told to die, and the client waits
    /// for it to be gone.
    Killing,
}

/// What happened to the child, or what the caller asked for.
#[derive(Debug, PartialEq, Eq)]
pub enum ChildEvent {
    /// The caller closes the transport.
    CloseRequested,
    /// The child has exited; `success` says whether with success, `status`
    /// is how the operating system describes the exit.
    Exited { success: bool, status: String },
    /// Waiting for the child failed, with these words.
    WaitFailed(String),
    /// The time allowed for the child to exit has passed.
    TimedOut,
}

/// What the caller is to do next.
#[derive(Debug, PartialEq, Eq)]
pub enum ChildAction {
    /// Close the child's standard input, then wait for its exit, yet not
    /// longer than the time allowed.
    CloseStdinAndWait,
    /// Kill the child, then wait for its exit.
    Kill,
    /// Wait on.
    KeepWaiting,
    /// The close is complete, with this outcome.
    Finish(Result<(), Error>),
}

/// The mathematical value of a [`ChildAction`]; of a finished close,
/// success or the error.
pub enum ChildActionView {
    CloseStdinAndWait,
    Kill,
    KeepWaiting,
    Done,
    Failed(ErrorView),
}

impl View for ChildAction {
    type V = ChildActionView;

    open spec fn view(&self) -> ChildActionView {
        match self {
            ChildAction::CloseStdinAndWait => ChildActionView::CloseStdinAndWait,
            ChildAction::Kill => ChildActionView::Kill,
            ChildAction::KeepWaiting => ChildActionView::KeepWaiting,
            ChildAction::Finish(Ok(_)) => ChildActionView::Done,
            ChildAction::Finish(Err(e)) => ChildActionView::Failed(e@),
        }
    }
}

/// The rule of the close: from a state and an event to the next state and
/// what to do. Closing a running child closes its input first and waits; a
/// child that outlives the wait is killed; an exit without success, and a
/// failed wait, are transport errors; closing without a child does nothing
/// and succeeds.
pub open spec fn close_rule(state: ChildState, event: ChildEvent) -> (ChildState, ChildActionView) {
    match (state, event) {
        (ChildState::Absent, _) => (ChildState::Absent, ChildActionView::Done),
        (ChildState::Running, ChildEvent::CloseRequested) => (
            ChildState::Draining,
            ChildActionView::CloseStdinAndWait,
        ),
        (ChildState::Draining, ChildEvent::TimedOut) => (ChildState::Killing, ChildActionView::Kill),
        (_, ChildEvent::Exited { success, status }) => (
            ChildState::Absent,
            if success {
                ChildActionView::Done
            } else {
                ChildActionView::Failed(
                    ErrorView::Transport("Server process exited with status: "@ + status@),
                )
            },
        ),
        (_, ChildEvent::WaitFailed(m)) => (
            ChildState::Absent,
            ChildActionView::Failed(
                ErrorView::Transport("Failed to wait for server process: "@ + m@),
            ),
        ),
        (s, _) => (s, ChildActionView::KeepWaiting),
    }
}

/// Takes one step of the close.
pub fn close_step(state: ChildState, event: &ChildEvent) -> (r: (ChildState, ChildAction))
    ensures
        (r.0, r.1@) == close_rule(state, *event),
{
    match state {
        ChildState::Absent => (ChildState::Absent, ChildAction::Finish(Ok(()))),
        _ => match event {
            ChildEvent::Exited { success, status } => {
                if *success {
                    (ChildState::Absent, ChildAction::Finish(Ok(())))
                } else {
                    (
                        ChildState::Absent,
                        ChildAction::Finish(
                            Err(
                                Error::Transport(
                                    join("Server process exited with status: ", status.as_str()),
                                ),
                            ),
                        ),
                    )
                }
            },
            ChildEvent::WaitFailed(m) => (
                ChildState::Absent,
                ChildAction::Finish(
                    Err(Error::Transport(join("Failed to wait for server process: ", m.as_str()))),
                ),
            ),
            ChildEvent::CloseRequested => match state {
                ChildState::Running => (ChildState::Draining, ChildAction::CloseStdinAndWait),
                _ => (state, ChildAction::KeepWaiting),
            },
            ChildEvent::TimedOut => match state {
                ChildState::Draining => (ChildState::Killing, ChildAction::Kill),
                _ => (state, ChildAction::KeepWaiting),
            },
        },
    }
}

/// What the client says of a request whose id the session has used.
pub const ID_USED: &'static str = "Request ID has already been used in this session";

/// Why the client half does not send a message.
#[derive(Debug, Clone, Copy, PartialEq, Eq, Structural)]
pub enum SendRefusal {
    /// The child does not run, or its input is already closed.
    NotStarted,
    /// The message is a request whose id the session has used.
    IdUsed,
}

/// The mathematical value of a [`StdioClient`].
pub struct StdioClientView {
    /// Where the client is in the life of its child.
    pub child: ChildState,
    /// The canonical texts of the ids of the requests that were sent.
    pub sent: Set<Seq<char>>,
}

impl StdioClientView {
    /// Why `message` is not sent, if it is not: the child must run, and a
    /// request must have an id that is new to the session.
    pub open spec fn refusal(self, message: MessageView) -> Option<SendRefusal> {
        if self.child != ChildState::Running {
            Some(SendRefusal::NotStarted)
        } else {
            match message {
                MessageView::Request(r) => if self.sent.contains(r.id.canonical()) {
                    Some(SendRefusal::IdUsed)
                } else {
                    None
                },
                _ => None,
            }
        }
    }

    /// The client after `message` was sent: the id of a request is used.
    pub open spec fn after_send(self, message: MessageView) -> StdioClientView {
        match message {
            MessageView::Request(r) => StdioClientView {
                sent: self.sent.insert(r.id.canonical()),
                ..self
            },
            _ => self,
        }
    }
}

/// A request is sent once under one id: after a request was sent, every
/// request whose id has the same canonical text is refused, whatever was
/// sent in between.
pub proof fn lemma_request_is_sent_once(
    client: StdioClientView,
    first: MessageView,
    later: StdioClientView,
    second: MessageView,
)
    requires
        first is Request,
        second is Request,
        second->Request_0.id.canonical() == first->Request_0.id.canonical(),
        client.after_send(first).sent.subset_of(later.sent),
    ensures
        later.refusal(second) is Some,
        later.child == ChildState::Running ==> later.refusal(second) == Some(SendRefusal::IdUsed),
{
    assert(client.after_send(first).sent.contains(first->Request_0.id.canonical()));
}

/// The client half of the pipe transport, without its pipes: whether the
/// child runs, and the ids that were sent. It decides what is written and
/// what a line that was read means.
pub struct StdioClient {
    config: StdioClientConfig,
    child: ChildState,
    sent: UsedIds,
}

impl View for StdioClient {
    type V = StdioClientView;

    closed spec fn view(&self) -> StdioClientView {
        StdioClientView { child: self.child, sent: self.sent@ }
    }
}

impl StdioClient {
    /// A client whose child was not started yet.
    pub fn new(config: StdioClientConfig) -> (r: StdioClient)
        ensures
            r@ == (StdioClientView { child: ChildState::Absent, sent: Set::empty() }),
            r.spec_config() == config,
    {
        StdioClient { config, child: ChildState::Absent, sent: UsedIds::new() }
    }

    /// The configuration of the client.
    pub closed spec fn spec_config(&self) -> StdioClientConfig {
        self.config
    }

    /// The configuration of the client.
    pub fn config(&self) -> (r: &StdioClientConfig)
        ensures
            *r == self.spec_config(),
    {
        &self.config
    }

    /// Where the client is in the life of its child.
    pub fn child(&self) -> (r: ChildState)
        ensures
            r == self@.child,
    {
        self.child
    }

    /// Takes in how the start of the child went. After a start that
    /// succeeded the child runs and a new session begins; a start that
    /// failed is a transport error and changes nothing.
    pub fn initialize(&mut self, launched: Result<(), LaunchFault>) -> (r: Result<(), Error>)
        ensures
            final(self).spec_config() == old(self).spec_config(),
            match launched {
                Ok(_) => r is Ok && final(self)@ == (StdioClientView {
                    child: ChildState::Running,
                    sent: Set::empty(),
                }),
                Err(fault) => r matches Err(Error::Transport(t)) && t@ == launch_error_text(fault)
                    && final(self)@ == old(self)@,
            },
    {
        match launched {
            Ok(_) => {
                self.child = ChildState::Running;
                self.sent = UsedIds::new();
                Ok(())
            },
            Err(fault) => Err(launch_error(&fault)),
        }
    }

    /// Decides what is written to the child's standard input for
    /// `message`: its frame. Nothing is to be written where this fails, and
    /// then the client is left as it was. It fails before the child runs
    /// and after its input was closed, for a request whose id the session
    /// has used, and for a text that cannot be framed.
    pub fn send(&mut self, message: &Message) -> (r: Result<String, Error>)
        ensures
            final(self).spec_config() == old(self).spec_config(),
            match old(self)@.refusal(message@) {
                Some(SendRefusal::NotStarted) => r matches Err(Error::Transport(t)) && t@
                    == NOT_STARTED@ && final(self)@ == old(self)@,
                Some(SendRefusal::IdUsed) => r matches Err(Error::Protocol(t)) && t@ == ID_USED@
                    && final(self)@ == old(self)@,
                None => match text_of_json(message@.to_json()) {
                    Err(m) => r matches Err(Error::Serialization(t)) && t@ == m && final(self)@
                        == old(self)@,
                    Ok(text) => match frame_outcome(text) {
                        Ok(f) => r matches Ok(got) && got@ == f && is_one_line(got@)
                            && final(self)@ == old(self)@.after_send(message@),
                        Err(m) => r matches Err(Error::Transport(t)) && t@ == m && final(self)@
                            == old(self)@,
                    },
                },
            },
    {
        match self.child {
            ChildState::Running => {},
            _ => {
                return Err(Error::Transport(NOT_STARTED.to_owned()));
            },
        }
        match message {
            Message::Request(request) => {
                let text = request.id.canonical();
                if self.sent.contains(text.as_str()) {
                    return Err(Error::Protocol(ID_USED.to_owned()));
                }
            },
            _ => {},
        }
        let frame = frame_message(message)?;
        match message {
            Message::Request(request) => {
                self.sent.insert(&request.id);
            },
            _ => {},
        }
        Ok(frame)
    }

    /// Reads the message on a line of the child's standard output. Before
    /// the child runs there is nothing to read; an empty read means that
    /// the child has closed its output.
    pub fn receive(&self, line: &str) -> (r: Result<Message, Error>)
        ensures
            self@.child == ChildState::Absent ==> (r matches Err(Error::Transport(t)) && t@
                == NOT_STARTED@),
            self@.child != ChildState::Absent && line@.len() == 0 ==> (r matches Err(
                Error::Transport(t),
            ) && t@ == OUTPUT_ENDED@),
            self@.child != ChildState::Absent && line@.len() > 0 ==> match json_of_text(line@) {
                Err(m) => r matches Err(Error::Serialization(t)) && t@ == m,
                Ok(v) => match MessageView::of_json(v) {
                    Ok(m) => r matches Ok(got) && got@ == m,
                    Err(f) => r matches Err(Error::Protocol(t)) && t@ == f.spec_message(),
                },
            },
    {
        match self.child {
            ChildState::Absent => Err(Error::Transport(NOT_STARTED.to_owned())),
            _ => receive_line(line),
        }
    }

    /// Takes one step of the close: from what happened to the child to
    /// what to do next. Closing a running child closes its input first and
    /// waits; a child that outlives the wait is killed; after the child is
    /// gone the client has no child, and a further close does nothing and
    /// succeeds.
    pub fn close(&mut self, event: &ChildEvent) -> (r: ChildAction)
        ensures
            final(self).spec_config() == old(self).spec_config(),
            final(self)@.sent == old(self)@.sent,
            (final(self)@.child, r@) == close_rule(old(self)@.child, *event),
    {
        let (next, action) = close_step(self.child, event);
        self.child = next;
        action
    }
}

} // verus!

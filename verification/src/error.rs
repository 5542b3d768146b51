//! The error type shared by every fallible operation of the library.

use crate::text::{decimal, i64_to_string, join, join3};
use vstd::prelude::*;

verus! {

/// What went wrong, by layer.
#[derive(Debug, PartialEq, Eq)]
pub enum Error {
    /// An error object received from, or destined for, the peer.
    JsonRpc { code: i32, message: String },
    /// An inbound frame broke a protocol invariant.
    Protocol(String),
    /// The transport failed; the session cannot continue on it.
    Transport(String),
    /// A value could not be turned into JSON text, or JSON text into a value.
    Serialization(String),
    /// The operating system refused an I/O operation.
    Io(String),
    /// The HTTP layer failed.
    Http(String),
}

/// The mathematical value of an [`Error`].
pub enum ErrorView {
    JsonRpc { code: i32, message: Seq<char> },
    Protocol(Seq<char>),
    Transport(Seq<char>),
    Serialization(Seq<char>),
    Io(Seq<char>),
    Http(Seq<char>),
}

impl View for Error {
    type V = ErrorView;

    open spec fn view(&self) -> ErrorView {
        match *self {
            Error::JsonRpc { code, message } => ErrorView::JsonRpc { code, message: message@ },
            Error::Protocol(m) => ErrorView::Protocol(m@),
            Error::Transport(m) => ErrorView::Transport(m@),
            Error::Serialization(m) => ErrorView::Serialization(m@),
            Error::Io(m) => ErrorView::Io(m@),
            Error::Http(m) => ErrorView::Http(m@),
        }
    }
}

impl Error {
    /// How the error reads to a human: the name of its layer, then its own
    /// words.
    pub open spec fn spec_text(&self) -> Seq<char> {
        match *self {
            Error::JsonRpc { code, message } => "JSON-RPC error: "@ + decimal(code as int) + " - "@
                + message@,
            Error::Protocol(m) => "Protocol error: "@ + m@,
            Error::Transport(m) => "Transport error: "@ + m@,
            Error::Serialization(m) => "Serialization error: "@ + m@,
            Error::Io(m) => "IO error: "@ + m@,
            Error::Http(m) => "HTTP error: "@ + m@,
        }
    }

    /// How the error reads to a human.
    pub fn to_text(&self) -> (r: String)
        ensures
            r@ == self.spec_text(),
    {
        match self {
            Error::JsonRpc { code, message } => {
                let number = i64_to_string(*code as i64);
                let head = join3("JSON-RPC error: ", number.as_str(), " - ");
                join(head.as_str(), message.as_str())
            },
            Error::Protocol(m) => join("Protocol error: ", m.as_str()),
            Error::Transport(m) => join("Transport error: ", m.as_str()),
            Error::Serialization(m) => join("Serialization error: ", m.as_str()),
            Error::Io(m) => join("IO error: ", m.as_str()),
            Error::Http(m) => join("HTTP error: ", m.as_str()),
        }
    }
}

} // verus!

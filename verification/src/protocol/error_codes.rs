//! The error codes that a JSON-RPC error object may carry.

use vstd::prelude::*;

verus! {

/// The frame was not valid JSON.
pub const PARSE_ERROR: i32 = -32700;

/// The frame was JSON, but no valid request.
pub const INVALID_REQUEST: i32 = -32600;

/// No handler knows the method.
pub const METHOD_NOT_FOUND: i32 = -32601;

/// The parameters do not fit the method.
pub const INVALID_PARAMS: i32 = -32602;

/// The handler failed.
pub const INTERNAL_ERROR: i32 = -32603;

/// A request arrived before the handshake was complete.
pub const SERVER_NOT_INITIALIZED: i32 = -32002;

/// An error that has no code of its own.
pub const UNKNOWN_ERROR_CODE: i32 = -32001;

/// The request was cancelled, or timed out at the caller.
pub const REQUEST_CANCELLED: i32 = -32800;

} // verus!

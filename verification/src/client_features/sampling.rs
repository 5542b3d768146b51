//! The payloads of a sampling exchange.

use crate::json::Json;
use vstd::prelude::*;

verus! {

/// What a server asks a client to sample.
#[derive(Debug, Clone, PartialEq, Eq)]
pub struct SamplingRequest {
    /// The prompt to process.
    pub prompt: Json,
    /// Sampling parameters, where the server sets any.
    pub parameters: Option<Json>,
    /// The sequences at which to stop, where there are any.
    pub stop: Option<Vec<String>>,
}

/// What a client answers to a sampling request.
#[derive(Debug, Clone, PartialEq, Eq)]
pub struct SamplingResponse {
    /// The generated text.
    pub text: String,
    /// What the client tells about the sampling, where it tells anything.
    pub metadata: Option<Json>,
}

} // verus!

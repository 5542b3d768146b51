//! The payloads of the features that a client provides to a server.

pub mod sampling;

pub use sampling::{SamplingRequest, SamplingResponse};

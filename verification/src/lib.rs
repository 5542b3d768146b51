//! Core of a Model Context Protocol runtime: the JSON-RPC 2.0 message model,
//! its codec, the transports' framing and routing rules, and the session
//! lifecycle, with every rule stated as a contract.

pub mod client;
pub mod client_features;
pub mod error;
pub mod json;
pub mod protocol;
pub mod server_features;
pub mod session;
pub mod text;
pub mod transport;

pub use client_features::{SamplingRequest, SamplingResponse};
pub use error::Error;
pub use json::Json;
pub use protocol::error_codes;
pub use protocol::{
    ClientCapabilities, FeatureCapability, ImplementationInfo, Message, Method, Notification,
    Request, RequestId, Response, ResponseError, ResourceCapability, Role, RootCapability,
    ServerCapabilities, UsedIds, JSONRPC_VERSION, PROTOCOL_VERSION,
};
pub use server_features::{Prompt, Resource, Tool};
pub use session::Session;
pub use transport::{
    ClientTransport, ClientTransportFactory, ServerTransport, ServerTransportFactory,
    TransportConfig, TransportType,
};

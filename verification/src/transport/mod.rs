//! The transports: how a peer is reached, and what each transport is made
//! from.

use crate::error::Error;
use crate::json::Json;
use crate::text::{join, opt_text};
use vstd::prelude::*;

pub mod http;
pub mod stdio;

pub use http::{AxumHttpServer, HttpClient};
pub use stdio::{StdioClient, StdioServer};

use http::client::{is_header_text, BAD_HEADER};
use http::{HttpClientConfig, HttpServerConfig};
use stdio::{StdioClientConfig, StdioServerConfig};

verus! {

/// How to reach the peer.
#[derive(Debug, Clone, PartialEq, Eq)]
pub enum TransportType {
    /// Over the pipes of a child process.
    Stdio {
        /// The path of the server's executable; only a client needs it.
        server_path: Option<String>,
        /// The arguments of the server; only a client needs them.
        server_args: Option<Vec<String>>,
    },
    /// Over HTTP and server-sent events.
    Http {
        /// The base URL of the server; for a server, the address to bind.
        base_url: String,
        /// The bearer token, where there is one.
        auth_token: Option<String>,
    },
}

/// The configuration of a transport.
#[derive(Debug, Clone, PartialEq, Eq)]
pub struct TransportConfig {
    /// How to reach the peer.
    pub transport_type: TransportType,
    /// Further parameters, which the transports pass over.
    pub parameters: Option<Json>,
}

/// What a client's transport is made from.
#[derive(Debug, Clone, PartialEq, Eq)]
pub enum ClientTransport {
    /// A pipe transport with this configuration.
    Stdio(StdioClientConfig),
    /// An HTTP transport with this configuration, which sends this
    /// `Authorization` header, if any, with every request.
    Http { config: HttpClientConfig, authorization: Option<String> },
}

/// What a server's transport is made from.
#[derive(Debug, Clone, PartialEq, Eq)]
pub enum ServerTransport {
    /// A pipe transport with this configuration.
    Stdio(StdioServerConfig),
    /// An HTTP transport with this configuration.
    Http(HttpServerConfig),
}

/// Makes the transports of clients.
#[derive(Debug, Clone, Copy, PartialEq, Eq, Structural)]
pub struct ClientTransportFactory;

/// Makes the transports of servers.
#[derive(Debug, Clone, Copy, PartialEq, Eq, Structural)]
pub struct ServerTransportFactory;

impl ClientTransportFactory {
    /// Works out what the client's transport is made from. A pipe
    /// transport takes the path and the arguments of the configuration,
    /// each empty where it is absent, reads with a capacity of 4096 and
    /// captures the server's log. An HTTP transport takes the base URL and
    /// the token; a token that cannot stand in a header is a transport
    /// error.
    pub fn create(&self, config: TransportConfig) -> (r: Result<ClientTransport, Error>)
        ensures
            match config.transport_type {
                TransportType::Stdio { server_path, server_args } => r matches Ok(
                    ClientTransport::Stdio(c),
                ) && c.server_path@ == (match server_path {
                    Some(p) => p@,
                    None => Seq::empty(),
                }) && c.server_args@ == (match server_args {
                    Some(a) => a@,
                    None => Seq::empty(),
                }) && c.buffer_size == 4096 && c.capture_logs,
                TransportType::Http { base_url, auth_token } => match auth_token {
                    None => r matches Ok(ClientTransport::Http { config: c, authorization })
                        && c.base_url@ == base_url@ && c.auth_token is None
                        && authorization is None,
                    Some(token) => if is_header_text("Bearer "@ + token@) {
                        r matches Ok(ClientTransport::Http { config: c, authorization })
                            && c.base_url@ == base_url@ && opt_text(c.auth_token) == Some(token@)
                            && opt_text(authorization) == Some("Bearer "@ + token@)
                    } else {
                        r matches Err(Error::Transport(t)) && t@ == BAD_HEADER@
                    },
                },
            },
    {
        match config.transport_type {
            TransportType::Stdio { server_path, server_args } => {
                let server_path = match server_path {
                    Some(p) => p,
                    None => String::new(),
                };
                let server_args = match server_args {
                    Some(a) => a,
                    None => Vec::new(),
                };
                Ok(
                    ClientTransport::Stdio(
                        StdioClientConfig {
                            server_path,
                            server_args,
                            buffer_size: 4096,
                            capture_logs: true,
                        },
                    ),
                )
            },
            TransportType::Http { base_url, auth_token } => {
                let config = HttpClientConfig { base_url, auth_token };
                let authorization = config.authorization()?;
                Ok(ClientTransport::Http { config, authorization })
            },
        }
    }
}

/// What the server factory says of a base URL that is no socket address,
/// before the words of the parser.
pub const INVALID_ADDRESS: &'static str = "Invalid address: ";

impl ServerTransportFactory {
    /// Works out what the server's transport is made from. A pipe
    /// transport reads with a capacity of 4096. An HTTP transport binds the
    /// base URL of the configuration as its address and demands its token.
    /// `address` is what reading the base URL as a socket address gave:
    /// nothing to say, or the words of the parser. A base URL that is no
    /// socket address is refused with a transport error that holds those
    /// words; a pipe transport has no address, and `address` is passed
    /// over.
    pub fn create(&self, config: TransportConfig, address: Result<(), String>) -> (r: Result<
        ServerTransport,
        Error,
    >)
        ensures
            match config.transport_type {
                TransportType::Stdio { .. } => r matches Ok(ServerTransport::Stdio(c))
                    && c.buffer_size == 4096,
                TransportType::Http { base_url, auth_token } => match address {
                    Ok(_) => r matches Ok(ServerTransport::Http(c)) && c.addr@ == base_url@
                        && opt_text(c.auth_token) == opt_text(auth_token),
                    Err(e) => r matches Err(Error::Transport(t)) && t@ == INVALID_ADDRESS@ + e@,
                },
            },
    {
        match config.transport_type {
            TransportType::Stdio { .. } => Ok(
                ServerTransport::Stdio(StdioServerConfig { buffer_size: 4096 }),
            ),
            TransportType::Http { base_url, auth_token } => match address {
                Ok(_) => Ok(ServerTransport::Http(HttpServerConfig { addr: base_url, auth_token })),
                Err(e) => Err(Error::Transport(join(INVALID_ADDRESS, e.as_str()))),
            },
        }
    }
}

} // verus!

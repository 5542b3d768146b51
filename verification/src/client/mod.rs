//! What a client tells about itself.

use vstd::prelude::*;

pub mod roots;

pub use roots::Root;

verus! {

/// The configuration of a client.
#[derive(Debug, Clone, PartialEq, Eq)]
pub struct ClientConfig {
    /// The name under which the client introduces itself.
    pub name: String,
    /// The version of the client.
    pub version: String,
    /// The root directories that the client offers as context.
    pub roots: Vec<String>,
}

} // verus!

//! The payloads of the features that a server provides to a client.

use vstd::prelude::*;

pub mod prompts;
pub mod resources;
pub mod tools;

pub use prompts::Prompt;
pub use resources::Resource;
pub use tools::Tool;

verus! {

/// Which feature families a server supports.
#[derive(Debug, Clone, Copy, PartialEq, Eq, Structural)]
pub struct ServerCapabilities {
    /// Whether prompts are supported.
    pub prompts: bool,
    /// Whether resources are supported.
    pub resources: bool,
    /// Whether tools are supported.
    pub tools: bool,
}

impl Default for ServerCapabilities {
    fn default() -> (r: ServerCapabilities)
        ensures
            r == (ServerCapabilities { prompts: false, resources: false, tools: false }),
    {
        ServerCapabilities { prompts: false, resources: false, tools: false }
    }
}

} // verus!

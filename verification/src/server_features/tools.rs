//! Tools.

use crate::json::Json;
use vstd::prelude::*;

verus! {

/// A tool.
#[derive(Debug, Clone, PartialEq, Eq)]
pub struct Tool {
    /// The identifier of the tool.
    pub id: String,
    /// A name for a human reader.
    pub name: String,
    /// What the tool does.
    pub description: String,
    /// The schema of the tool's parameters.
    pub parameters: Json,
    /// Whether the user must approve each use of the tool.
    pub requires_approval: bool,
}

} // verus!

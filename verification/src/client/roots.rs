//! Root directories that a client offers as context.

use vstd::prelude::*;

verus! {

/// A root directory.
#[derive(Debug, Clone, PartialEq, Eq)]
pub struct Root {
    /// The path of the directory.
    pub path: String,
    /// A name for the root, where it has one.
    pub name: Option<String>,
    /// The pattern of the files to include, where only some are.
    pub include_pattern: Option<String>,
    /// The pattern of the files to leave out, where some are.
    pub exclude_pattern: Option<String>,
}

} // verus!

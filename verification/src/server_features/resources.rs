//! Resources.

use crate::json::Json;
use vstd::prelude::*;

verus! {

/// A resource.
#[derive(Debug, Clone, PartialEq, Eq)]
pub struct Resource {
    /// The identifier of the resource.
    pub id: String,
    /// The type of the resource, such as `file` or `database`.
    pub type_: String,
    /// What is known about the resource.
    pub metadata: Json,
    /// The content, where it is at hand.
    pub content: Option<Json>,
}

} // verus!

//! Prompt templates.

use crate::json::Json;
use vstd::prelude::*;

verus! {

/// A prompt template.
#[derive(Debug, Clone, PartialEq, Eq)]
pub struct Prompt {
    /// The identifier of the prompt.
    pub id: String,
    /// A name for a human reader.
    pub name: String,
    /// What the prompt does.
    pub description: String,
    /// The template itself.
    pub template: String,
    /// The parameters of the template, where it has any.
    pub parameters: Option<Json>,
}

} // verus!

//! Context for the error template.

use vstd::prelude::*;

verus! {

/// Context for the error template.
#[derive(Debug, PartialEq, Eq)]
pub struct ErrorContext {
    /// The title of the page.
    pub title: String,
    /// The error message.
    pub message: String,
}

} // verus!

//! The error taxonomy of the search pipeline.
//!
//! Errors are values: they travel through the same channels as successful
//! results and never abort the traversal, except for `Startup`.

use vstd::prelude::*;

verus! {

/// A failure somewhere in the search pipeline.
///
/// - `Startup`: fatal, raised before any traversal begins.
/// - `FileIO`: scoped to one path (metadata, directory listing, open or map).
/// - `Send`: a channel-send failure; the consumer side has terminated.
/// - `Aggregate`: a batch of failures from one batched operation, in the
///   order in which they occurred.
#[derive(Debug)]
pub enum AppError {
    Startup(String),
    FileIO(String),
    Send(String),
    Aggregate(Vec<AppError>),
}

impl AppError {
    /// True exactly on the fatal kind that stops the whole run.
    pub fn is_fatal(&self) -> (r: bool)
        ensures
            r == (self is Startup),
    {
        match self {
            AppError::Startup(_) => true,
            _ => false,
        }
    }
}

} // verus!

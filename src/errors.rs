//! Failures of lookups and of state transitions.
use vstd::prelude::*;

verus! {

/// Why a transition or an engine operation could not be carried out.
#[derive(Clone, Debug, PartialEq, Eq)]
pub enum TransitionError {
    /// There was no post to read.
    NoPostAvailable,
    /// No content with this id is in the pool.
    PostNotFound { id: usize },
    /// The chosen post has no comments to read.
    NoCommentsAvailable,
    /// A transition was attempted whose precondition does not hold.
    InvalidTransition { from_state: &'static str, to_state: &'static str, reason: String },
    /// An engine operation failed.
    RecommendationError { operation: String, error: String },
    /// A session ran past its length limit.
    SessionExpired { current_ticks: i32, max_ticks: i32 },
    /// An unexpected arithmetic or invariant failure.
    InternalError(String),
}

} // verus!

//! Errors of the optional networked advisor backends.

use vstd::prelude::*;

verus! {

/// Failures that can occur while calling an external language model. They
/// are never surfaced to callers of an advisor: they trigger a fallback to
/// the deterministic heuristic instead.
#[derive(Debug, Clone, PartialEq, Eq)]
pub enum AiError {
    /// The HTTP request failed (DNS, TCP, TLS, or status).
    Transport(String),
    /// The request exceeded its deadline.
    Timeout,
    /// The response body could not be parsed into the expected shape.
    Malformed(String),
    /// The backend is disabled (e.g. no API key configured).
    Disabled,
}

impl AiError {
    /// Whether a retry could plausibly succeed.
    pub fn is_retryable(&self) -> (r: bool)
        ensures
            r == (self is Transport || self is Timeout),
    {
        match self {
            AiError::Transport(_) | AiError::Timeout => true,
            AiError::Malformed(_) | AiError::Disabled => false,
        }
    }
}

} // verus!

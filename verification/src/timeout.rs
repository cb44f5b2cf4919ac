//! The error of an operation that missed its deadline.

use vstd::prelude::*;

use std::time::Duration;

verus! {

/// Returned when an operation does not complete within its deadline.
#[derive(Debug, Clone, Copy, PartialEq, Eq)]
pub struct TimeoutError(pub Duration);

} // verus!

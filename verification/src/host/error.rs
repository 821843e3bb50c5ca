//! Errors of host operations.
use vstd::prelude::*;

verus! {

/// Error type for host operations.
#[derive(Debug, Clone, PartialEq, Eq)]
pub enum HostError {
    NotImplemented,
    InvalidParameters,
    RequestReturnMismatch,
    Cancelled,
    Other(String),
}

} // verus!

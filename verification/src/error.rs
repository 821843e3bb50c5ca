//! Error type shared by the client core.
use vstd::prelude::*;

use crate::host::error::HostError;

verus! {

/// Errors produced by the client core.
#[derive(Debug)]
pub enum PwshCoreError {
    ConnectorError(String),
    RunspaceError(String),
    InvalidState(&'static str),
    UnlikelyToHappen(&'static str),
    InvalidResponse(String),
    InternalError(String),
    HostError(HostError),
    /// An SSPI provider reported a failure; the text is the provider's message.
    SspiError(sspi::Error),
    UsernameError(&'static str),
    Auth(&'static str),
    /// A server address that names no server.
    InvalidServerAddress(&'static str),
    /// A WSMan SOAP fault surfaced by the server.
    SoapFault { code: String, reason: String },
}

} // verus!

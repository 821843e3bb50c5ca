//! Client core of a WinRM / PowerShell Remoting (PSRP) implementation:
//! HTTP framing and SSPI message sealing, the per-connection authentication
//! pool, the runspace-pool lifecycle, host-call classification and the
//! decision core of the serial session loop.
use vstd::prelude::*;

pub mod connector;
pub mod credentials;
pub mod error;
pub mod powershell;
pub mod host;
pub mod pipeline;
pub mod runspace_pool;
pub mod session;
pub mod text;

pub use credentials::ClientAuthIdentity;
pub use error::PwshCoreError;

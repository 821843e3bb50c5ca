//! PowerShell and runspace-pool state enumerations.
use vstd::prelude::*;

verus! {

#[derive(Debug, Clone, Copy, PartialEq, Eq, Structural)]
pub enum PowerShellState {
    CreatePipelineSent,
    Ready,
}

/// PSInvocationState (MS-PSRP 2.2.3.4).
#[derive(Debug, Clone, Copy, PartialEq, Eq, Structural)]
pub enum PsInvocationState {
    NotStarted,
    Running,
    Stopping,
    Stopped,
    Completed,
    Failed,
    Disconnected,
}

impl PsInvocationState {
    /// The protocol value of the state.
    pub open spec fn spec_value(self) -> u32 {
        match self {
            PsInvocationState::NotStarted => 0,
            PsInvocationState::Running => 1,
            PsInvocationState::Stopping => 2,
            PsInvocationState::Stopped => 3,
            PsInvocationState::Completed => 4,
            PsInvocationState::Failed => 5,
            PsInvocationState::Disconnected => 6,
        }
    }

    pub fn value(&self) -> (r: u32)
        ensures
            r == self.spec_value(),
    {
        match self {
            PsInvocationState::NotStarted => 0,
            PsInvocationState::Running => 1,
            PsInvocationState::Stopping => 2,
            PsInvocationState::Stopped => 3,
            PsInvocationState::Completed => 4,
            PsInvocationState::Failed => 5,
            PsInvocationState::Disconnected => 6,
        }
    }

    /// The state with the given protocol value.
    pub fn from_value(v: u32) -> (r: Option<Self>)
        ensures
            match r {
                Some(s) => s.spec_value() == v,
                None => v > 6,
            },
    {
        match v {
            0 => Some(PsInvocationState::NotStarted),
            1 => Some(PsInvocationState::Running),
            2 => Some(PsInvocationState::Stopping),
            3 => Some(PsInvocationState::Stopped),
            4 => Some(PsInvocationState::Completed),
            5 => Some(PsInvocationState::Failed),
            6 => Some(PsInvocationState::Disconnected),
            _ => None,
        }
    }
}

/// RunspacePoolState (MS-PSRP 2.2.3.4), plus the client-side `Disconnecting` state
/// held while a WSMan Disconnect is in flight.
#[derive(Debug, Clone, Copy, PartialEq, Eq, Structural)]
pub enum RunspacePoolState {
    BeforeOpen,
    Opening,
    Opened,
    Closed,
    Closing,
    Broken,
    NegotiationSent,
    NegotiationSucceeded,
    Connecting,
    Disconnected,
    Disconnecting,
}

impl RunspacePoolState {
    /// The protocol value of the state (`Disconnecting` has none).
    pub open spec fn spec_value(self) -> Option<u32> {
        match self {
            RunspacePoolState::BeforeOpen => Some(0),
            RunspacePoolState::Opening => Some(1),
            RunspacePoolState::Opened => Some(2),
            RunspacePoolState::Closed => Some(3),
            RunspacePoolState::Closing => Some(4),
            RunspacePoolState::Broken => Some(5),
            RunspacePoolState::NegotiationSent => Some(6),
            RunspacePoolState::NegotiationSucceeded => Some(7),
            RunspacePoolState::Connecting => Some(8),
            RunspacePoolState::Disconnected => Some(9),
            RunspacePoolState::Disconnecting => None,
        }
    }

    pub fn value(&self) -> (r: Option<u32>)
        ensures
            r == self.spec_value(),
    {
        match self {
            RunspacePoolState::BeforeOpen => Some(0),
            RunspacePoolState::Opening => Some(1),
            RunspacePoolState::Opened => Some(2),
            RunspacePoolState::Closed => Some(3),
            RunspacePoolState::Closing => Some(4),
            RunspacePoolState::Broken => Some(5),
            RunspacePoolState::NegotiationSent => Some(6),
            RunspacePoolState::NegotiationSucceeded => Some(7),
            RunspacePoolState::Connecting => Some(8),
            RunspacePoolState::Disconnected => Some(9),
            RunspacePoolState::Disconnecting => None,
        }
    }

    /// The state that a protocol value announces.
    pub fn from_value(v: u32) -> (r: Option<Self>)
        ensures
            match r {
                Some(s) => s.spec_value() == Some(v),
                None => v > 9,
            },
    {
        match v {
            0 => Some(RunspacePoolState::BeforeOpen),
            1 => Some(RunspacePoolState::Opening),
            2 => Some(RunspacePoolState::Opened),
            3 => Some(RunspacePoolState::Closed),
            4 => Some(RunspacePoolState::Closing),
            5 => Some(RunspacePoolState::Broken),
            6 => Some(RunspacePoolState::NegotiationSent),
            7 => Some(RunspacePoolState::NegotiationSucceeded),
            8 => Some(RunspacePoolState::Connecting),
            9 => Some(RunspacePoolState::Disconnected),
            _ => None,
        }
    }
}

} // verus!

//! The runspace pool's lifecycle: open/connect, disconnect/reconnect and the pipelines
//! it tracks. SOAP envelopes are rendered and parsed by the message layer; this module
//! decides on what that layer read from them.
use vstd::prelude::*;
use vstd::string::*;

use crate::error::PwshCoreError;
use crate::runspace_pool::enums::{PsInvocationState, RunspacePoolState};
use crate::runspace_pool::streams::{is_stdout_of, DesiredStream};
use crate::text::str_eq;

verus! {

/// The `s:Fault` of a SOAP envelope: its `s:Code/s:Value` and `s:Reason/s:Text`.
#[derive(Debug, Clone)]
pub struct SoapFaultInfo {
    pub code: Option<String>,
    pub reason: Option<String>,
}

/// What the pool reads from a parsed SOAP response envelope.
#[derive(Debug, Clone)]
pub struct ResponseEnvelope {
    /// The `a:Action` header.
    pub action: Option<String>,
    pub fault: Option<SoapFaultInfo>,
    /// Whether the body holds `rsp:DisconnectResponse`.
    pub has_disconnect_response: bool,
    /// Whether the body holds `rsp:ReconnectResponse`.
    pub has_reconnect_response: bool,
}

/// The WSMan action of a shell DisconnectResponse.
pub open spec fn disconnect_response_action() -> Seq<char> {
    "http://schemas.microsoft.com/wbem/wsman/1/windows/shell/DisconnectResponse"@
}

/// The WSMan action of a shell ReconnectResponse.
pub open spec fn reconnect_response_action() -> Seq<char> {
    "http://schemas.microsoft.com/wbem/wsman/1/windows/shell/ReconnectResponse"@
}

/// Whether the envelope's action header equals `action`.
pub open spec fn action_is(env: ResponseEnvelope, action: Seq<char>) -> bool {
    env.action matches Some(a) && a@ == action
}

/// The text of an optional field, `unknown` when absent.
pub open spec fn or_unknown(o: Option<String>) -> Seq<char> {
    match o {
        Some(s) => s@,
        None => "unknown"@,
    }
}

/// Whether `env` answers a Disconnect: the body element, or the action header alone (real
/// servers send an empty body).
pub open spec fn is_disconnect_response(env: ResponseEnvelope) -> bool {
    env.has_disconnect_response || action_is(env, disconnect_response_action())
}

/// Whether `env` answers a Reconnect.
pub open spec fn is_reconnect_response(env: ResponseEnvelope) -> bool {
    env.has_reconnect_response || action_is(env, reconnect_response_action())
}

pub fn copy_or_unknown(o: &Option<String>) -> (r: String)
    ensures
        r@ == or_unknown(*o),
{
    proof {
        reveal_strlit("unknown");
    }
    match o {
        Some(s) => s.clone(),
        None => String::from_str("unknown"),
    }
}

/// Surfaces a WSMan SOAP fault as a `SoapFault` error (`unknown` for a missing code or
/// reason).
pub fn fault_to_error(env: &ResponseEnvelope) -> (r: Result<(), PwshCoreError>)
    ensures
        match env.fault {
            Some(f) => r matches Err(PwshCoreError::SoapFault { code, reason }) && code@ == or_unknown(
                f.code,
            ) && reason@ == or_unknown(f.reason),
            None => r is Ok,
        },
{
    match &env.fault {
        Some(f) => Err(PwshCoreError::SoapFault { code: copy_or_unknown(&f.code), reason: copy_or_unknown(&f.reason) }),
        None => Ok(()),
    }
}

/// Whether the envelope's `a:Action` header equals `action`.
pub fn header_action_is(env: &ResponseEnvelope, action: &str) -> (r: bool)
    ensures
        r == action_is(*env, action@),
{
    match &env.action {
        Some(a) => str_eq(a.as_str(), action),
        None => false,
    }
}

/// A pipeline of the pool with its invocation state.
#[derive(Debug, Clone, Copy)]
pub struct PipelineEntry {
    pub id: u128,
    pub state: PsInvocationState,
}

/// Whether no pipeline id occurs twice.
pub open spec fn unique_ids(p: Seq<PipelineEntry>) -> bool {
    forall|i: int, j: int| 0 <= i < p.len() && 0 <= j < p.len() && i != j ==> #[trigger] p[i].id != #[trigger] p[j].id
}

/// A PSRP message carried by a ConnectResponse, as the message layer read it.
#[derive(Debug, Clone, Copy, PartialEq, Eq, Structural)]
pub enum ConnectMessage {
    SessionCapability,
    ApplicationPrivateData,
    RunspacePoolInitData { min_runspaces: i32, max_runspaces: i32 },
    RunspacePoolState,
    Other,
}

/// Pool sizing that is usable: no negative bound, the minimum not above the maximum.
pub open spec fn valid_init(m: ConnectMessage) -> bool {
    m matches ConnectMessage::RunspacePoolInitData { min_runspaces, max_runspaces } ==> 0 <= min_runspaces
        <= max_runspaces
}

/// The sizing of the last `RunspacePoolInitData`, if any.
pub open spec fn last_init(msgs: Seq<ConnectMessage>) -> Option<(i32, i32)>
    decreases msgs.len(),
{
    if msgs.len() == 0 {
        None
    } else {
        match msgs.last() {
            ConnectMessage::RunspacePoolInitData { min_runspaces, max_runspaces } => Some((min_runspaces, max_runspaces)),
            _ => last_init(msgs.drop_last()),
        }
    }
}

pub open spec fn has_capability(msgs: Seq<ConnectMessage>) -> bool {
    exists|i: int| 0 <= i < msgs.len() && #[trigger] msgs[i] == ConnectMessage::SessionCapability
}

/// A pipeline that stopped, completed or failed runs no more.
pub open spec fn is_terminal(s: PsInvocationState) -> bool {
    s == PsInvocationState::Stopped || s == PsInvocationState::Completed || s == PsInvocationState::Failed
}

/// The runspace pool: its state and its pipelines (in creation order).
#[derive(Debug)]
pub struct RunspacePool {
    pub id: u128,
    pub state: RunspacePoolState,
    pub shell_id: Option<String>,
    pub pipelines: Vec<PipelineEntry>,
    /// Whether a pool-stream Receive is currently outstanding.
    pub desired_stream_is_pooling: bool,
    pub min_runspaces: usize,
    pub max_runspaces: usize,
}

impl RunspacePool {
    pub open spec fn pipelines_view(&self) -> Seq<PipelineEntry> {
        self.pipelines@
    }

    pub open spec fn shell(&self) -> Option<Seq<char>> {
        match self.shell_id {
            Some(s) => Some(s@),
            None => None,
        }
    }

    /// No pipeline id occurs twice.
    pub open spec fn wf(&self) -> bool {
        unique_ids(self.pipelines_view())
    }

    /// Whether no pipeline id occurs twice (the pool's well-formedness).
    pub fn has_unique_pipeline_ids(&self) -> (r: bool)
        ensures
            r == self.wf(),
    {
        let n = self.pipelines.len();
        let mut i: usize = 0;
        while i < n
            invariant
                n == self.pipelines@.len(),
                i <= n,
                forall|a: int, b: int|
                    0 <= a < i && 0 <= b < n && a != b ==> #[trigger] self.pipelines@[a].id
                        != #[trigger] self.pipelines@[b].id,
            decreases n - i,
        {
            let mut j: usize = 0;
            while j < n
                invariant
                    n == self.pipelines@.len(),
                    i < n,
                    j <= n,
                    forall|a: int, b: int|
                        0 <= a < i && 0 <= b < n && a != b ==> #[trigger] self.pipelines@[a].id
                            != #[trigger] self.pipelines@[b].id,
                    forall|b: int| 0 <= b < j && b != i ==> self.pipelines@[i as int].id != #[trigger] self.pipelines@[b].id,
                decreases n - j,
            {
                if j != i && self.pipelines[i].id == self.pipelines[j].id {
                    assert(self.pipelines_view()[i as int].id == self.pipelines_view()[j as int].id);
                    return false;
                }
                j = j + 1;
            }
            proof {
                assert forall|a: int, b: int|
                    0 <= a < i + 1 && 0 <= b < n && a != b implies #[trigger] self.pipelines@[a].id
                        != #[trigger] self.pipelines@[b].id by {
                    if a == i {
                        assert(self.pipelines@[i as int].id != self.pipelines@[b].id);
                    }
                }
            }
            i = i + 1;
        }
        true
    }

    /// A new pool in `BeforeOpen` state, without shell and pipelines.
    pub fn new(id: u128) -> (r: Self)
        ensures
            r.id == id,
            r.state == RunspacePoolState::BeforeOpen,
            r.shell() is None,
            r.pipelines_view().len() == 0,
            !r.desired_stream_is_pooling,
            r.min_runspaces == 1,
            r.max_runspaces == 1,
            r.wf(),
    {
        RunspacePool {
            id,
            state: RunspacePoolState::BeforeOpen,
            shell_id: None,
            pipelines: Vec::new(),
            desired_stream_is_pooling: false,
            min_runspaces: 1,
            max_runspaces: 1,
        }
    }

    /// Server-assigned shell id (once the shell exists).
    pub fn shell_id(&self) -> (r: Option<&str>)
        ensures
            match r {
                Some(s) => self.shell() == Some(s@),
                None => self.shell() is None,
            },
    {
        match &self.shell_id {
            Some(s) => Some(s.as_str()),
            None => None,
        }
    }

    /// Records the shell id that the server assigned.
    pub fn set_shell_id(&mut self, shell_id: String)
        ensures
            final(self).shell() == Some(shell_id@),
            final(self).state == old(self).state,
            final(self).id == old(self).id,
            final(self).pipelines_view() == old(self).pipelines_view(),
            final(self).desired_stream_is_pooling == old(self).desired_stream_is_pooling,
    {
        self.shell_id = Some(shell_id);
    }

    /// Starts opening: valid only in `BeforeOpen`; the pool moves to `NegotiationSent`
    /// (the creation envelope carries the negotiation).
    pub fn open(&mut self) -> (r: Result<(), PwshCoreError>)
        ensures
            old(self).state == RunspacePoolState::BeforeOpen ==> r is Ok && final(self).state
                == RunspacePoolState::NegotiationSent,
            old(self).state != RunspacePoolState::BeforeOpen ==> (r matches Err(PwshCoreError::InvalidState(_))
                && final(self).state == old(self).state),
            final(self).id == old(self).id,
            final(self).shell() == old(self).shell(),
            final(self).pipelines_view() == old(self).pipelines_view(),
            final(self).desired_stream_is_pooling == old(self).desired_stream_is_pooling,
    {
        if self.state != RunspacePoolState::BeforeOpen {
            return Err(PwshCoreError::InvalidState("RunspacePool must be in BeforeOpen state to open"));
        }
        self.state = RunspacePoolState::NegotiationSent;
        Ok(())
    }

    /// Starts attaching to an existing disconnected shell: valid only in `BeforeOpen`; the
    /// pool moves to `Connecting`.
    pub fn connect(&mut self) -> (r: Result<(), PwshCoreError>)
        ensures
            old(self).state == RunspacePoolState::BeforeOpen ==> r is Ok && final(self).state
                == RunspacePoolState::Connecting,
            old(self).state != RunspacePoolState::BeforeOpen ==> (r matches Err(PwshCoreError::InvalidState(_))
                && final(self).state == old(self).state),
            final(self).id == old(self).id,
            final(self).shell() == old(self).shell(),
            final(self).pipelines_view() == old(self).pipelines_view(),
            final(self).desired_stream_is_pooling == old(self).desired_stream_is_pooling,
    {
        if self.state != RunspacePoolState::BeforeOpen {
            return Err(PwshCoreError::InvalidState("RunspacePool must be in BeforeOpen state to connect"));
        }
        self.state = RunspacePoolState::Connecting;
        Ok(())
    }

    /// Requests a Disconnect (MS-WSMV 3.1.4.13): valid only in `Opened`; the pool moves to
    /// `Disconnecting`.
    pub fn fire_disconnect(&mut self) -> (r: Result<(), PwshCoreError>)
        ensures
            old(self).state == RunspacePoolState::Opened ==> r is Ok && final(self).state
                == RunspacePoolState::Disconnecting,
            old(self).state != RunspacePoolState::Opened ==> (r matches Err(PwshCoreError::InvalidState(_))
                && final(self).state == old(self).state),
            final(self).id == old(self).id,
            final(self).shell() == old(self).shell(),
            final(self).pipelines_view() == old(self).pipelines_view(),
            final(self).desired_stream_is_pooling == old(self).desired_stream_is_pooling,
    {
        if self.state != RunspacePoolState::Opened {
            return Err(PwshCoreError::InvalidState("RunspacePool must be in Opened state to disconnect"));
        }
        self.state = RunspacePoolState::Disconnecting;
        Ok(())
    }

    /// Requests a Reconnect (MS-WSMV 3.1.4.14): valid only in `Disconnected`; the pool
    /// moves to `Connecting`.
    pub fn fire_reconnect(&mut self) -> (r: Result<(), PwshCoreError>)
        ensures
            old(self).state == RunspacePoolState::Disconnected ==> r is Ok && final(self).state
                == RunspacePoolState::Connecting,
            old(self).state != RunspacePoolState::Disconnected ==> (r matches Err(
                PwshCoreError::InvalidState(_),
            ) && final(self).state == old(self).state),
            final(self).id == old(self).id,
            final(self).shell() == old(self).shell(),
            final(self).pipelines_view() == old(self).pipelines_view(),
            final(self).desired_stream_is_pooling == old(self).desired_stream_is_pooling,
    {
        if self.state != RunspacePoolState::Disconnected {
            return Err(PwshCoreError::InvalidState("RunspacePool must be in Disconnected state to reconnect"));
        }
        self.state = RunspacePoolState::Connecting;
        Ok(())
    }

    /// Accepts the server's DisconnectResponse: valid only in `Disconnecting`; a fault is
    /// surfaced, other traffic is an invalid response, and a DisconnectResponse moves the
    /// pool to `Disconnected`.
    pub fn accept_disconnect_response(&mut self, env: &ResponseEnvelope) -> (r: Result<(), PwshCoreError>)
        ensures
            old(self).state != RunspacePoolState::Disconnecting ==> (r matches Err(
                PwshCoreError::InvalidState(_),
            ) && final(self).state == old(self).state),
            old(self).state == RunspacePoolState::Disconnecting ==> {
                if env.fault is Some {
                    r matches Err(PwshCoreError::SoapFault { .. }) && final(self).state == old(self).state
                } else if !is_disconnect_response(*env) {
                    r matches Err(PwshCoreError::InvalidResponse(_)) && final(self).state == old(self).state
                } else {
                    r is Ok && final(self).state == RunspacePoolState::Disconnected
                }
            },
            r matches Err(PwshCoreError::SoapFault { code, reason }) ==> (env.fault matches Some(f)
                && code@ == or_unknown(f.code) && reason@ == or_unknown(f.reason)),
            final(self).id == old(self).id,
            final(self).shell() == old(self).shell(),
            final(self).pipelines_view() == old(self).pipelines_view(),
            final(self).desired_stream_is_pooling == old(self).desired_stream_is_pooling,
    {
        proof {
            reveal_strlit("http://schemas.microsoft.com/wbem/wsman/1/windows/shell/DisconnectResponse");
        }
        if self.state != RunspacePoolState::Disconnecting {
            return Err(
                PwshCoreError::InvalidState(
                    "RunspacePool must be in Disconnecting state to accept a disconnect response",
                ),
            );
        }
        fault_to_error(env)?;
        if !env.has_disconnect_response && !header_action_is(
            env,
            "http://schemas.microsoft.com/wbem/wsman/1/windows/shell/DisconnectResponse",
        ) {
            return Err(PwshCoreError::InvalidResponse(String::from_str("No DisconnectResponse found in response")));
        }
        self.state = RunspacePoolState::Disconnected;
        Ok(())
    }

    /// Accepts the server's ReconnectResponse: valid only in `Connecting`; a fault is
    /// surfaced, other traffic is an invalid response, and a ReconnectResponse moves the
    /// pool back to `Opened` with no pool-stream Receive outstanding.
    pub fn accept_reconnect_response(&mut self, env: &ResponseEnvelope) -> (r: Result<(), PwshCoreError>)
        ensures
            old(self).state != RunspacePoolState::Connecting ==> (r matches Err(
                PwshCoreError::InvalidState(_),
            ) && final(self).state == old(self).state && final(self).desired_stream_is_pooling
                == old(self).desired_stream_is_pooling),
            old(self).state == RunspacePoolState::Connecting ==> {
                if env.fault is Some {
                    r matches Err(PwshCoreError::SoapFault { .. }) && final(self).state == old(self).state
                        && final(self).desired_stream_is_pooling == old(self).desired_stream_is_pooling
                } else if !is_reconnect_response(*env) {
                    r matches Err(PwshCoreError::InvalidResponse(_)) && final(self).state == old(self).state
                        && final(self).desired_stream_is_pooling == old(self).desired_stream_is_pooling
                } else {
                    r is Ok && final(self).state == RunspacePoolState::Opened
                        && !final(self).desired_stream_is_pooling
                }
            },
            r matches Err(PwshCoreError::SoapFault { code, reason }) ==> (env.fault matches Some(f)
                && code@ == or_unknown(f.code) && reason@ == or_unknown(f.reason)),
            final(self).id == old(self).id,
            final(self).shell() == old(self).shell(),
            final(self).pipelines_view() == old(self).pipelines_view(),
    {
        proof {
            reveal_strlit("http://schemas.microsoft.com/wbem/wsman/1/windows/shell/ReconnectResponse");
        }
        if self.state != RunspacePoolState::Connecting {
            return Err(
                PwshCoreError::InvalidState(
                    "RunspacePool must be in Connecting state to accept a reconnect response",
                ),
            );
        }
        fault_to_error(env)?;
        if !env.has_reconnect_response && !header_action_is(
            env,
            "http://schemas.microsoft.com/wbem/wsman/1/windows/shell/ReconnectResponse",
        ) {
            return Err(PwshCoreError::InvalidResponse(String::from_str("No ReconnectResponse found in response")));
        }
        self.state = RunspacePoolState::Opened;
        self.desired_stream_is_pooling = false;
        Ok(())
    }

    /// Attaches to an existing shell from the messages of its ConnectResponse.
    /// The response must carry the negotiation (SessionCapability) and usable
    /// pool sizing (RunspacePoolInitData); other messages are tolerated. On
    /// success the pool is `Opened` with its pool-stream Receive accounted for.
    pub fn accept_connect_messages(&mut self, messages: &Vec<ConnectMessage>) -> (r: Result<(), PwshCoreError>)
        requires
            old(self).wf(),
        ensures
            final(self).wf(),
            final(self).id == old(self).id,
            final(self).shell() == old(self).shell(),
            final(self).pipelines_view() == old(self).pipelines_view(),
            r is Err ==> r matches Err(PwshCoreError::InvalidResponse(_)),
            (exists|i: int| 0 <= i < messages@.len() && !valid_init(#[trigger] messages@[i])) ==> r is Err,
            (forall|i: int| 0 <= i < messages@.len() ==> valid_init(#[trigger] messages@[i])) ==> (r is Ok
                <==> (has_capability(messages@) && last_init(messages@) is Some)),
            r is Ok ==> {
                &&& final(self).state == RunspacePoolState::Opened
                &&& final(self).desired_stream_is_pooling
                &&& last_init(messages@) matches Some((mn, mx)) && final(self).min_runspaces == mn
                    && final(self).max_runspaces == mx
            },
    {
        let mut saw_session_capability = false;
        let mut saw_init_data = false;
        let mut i: usize = 0;
        while i < messages.len()
            invariant
                i <= messages@.len(),
                self.wf(),
                self.id == old(self).id,
                self.shell() == old(self).shell(),
                self.pipelines_view() == old(self).pipelines_view(),
                self.state == old(self).state,
                forall|j: int| 0 <= j < i ==> valid_init(#[trigger] messages@[j]),
                saw_session_capability == has_capability(messages@.take(i as int)),
                saw_init_data == last_init(messages@.take(i as int)) is Some,
                last_init(messages@.take(i as int)) matches Some((mn, mx)) ==> self.min_runspaces == mn
                    && self.max_runspaces == mx,
            decreases messages@.len() - i,
        {
            let m = messages[i];
            proof {
                let t = messages@.take(i as int);
                let t2 = messages@.take(i + 1 as int);
                assert(t2.drop_last() =~= t);
                assert(t2.last() == m);
                assert(has_capability(t2) == (has_capability(t) || m == ConnectMessage::SessionCapability)) by {
                    if has_capability(t) {
                        let k = choose|k: int| 0 <= k < t.len() && #[trigger] t[k] == ConnectMessage::SessionCapability;
                        assert(t2[k] == t[k]);
                    }
                    if m == ConnectMessage::SessionCapability {
                        assert(t2[i as int] == m);
                    }
                    if has_capability(t2) {
                        let k = choose|k: int| 0 <= k < t2.len() && #[trigger] t2[k] == ConnectMessage::SessionCapability;
                        if k < i {
                            assert(t[k] == t2[k]);
                        }
                    }
                }
            }
            match m {
                ConnectMessage::SessionCapability => {
                    saw_session_capability = true;
                },
                ConnectMessage::RunspacePoolInitData { min_runspaces, max_runspaces } => {
                    if min_runspaces < 0 {
                        return Err(PwshCoreError::InvalidResponse(String::from_str("RunspacePoolInitData MinRunspaces is negative")));
                    }
                    if max_runspaces < 0 {
                        return Err(PwshCoreError::InvalidResponse(String::from_str("RunspacePoolInitData MaxRunspaces is negative")));
                    }
                    if min_runspaces > max_runspaces {
                        return Err(
                            PwshCoreError::InvalidResponse(String::from_str("RunspacePoolInitData MinRunspaces exceeds MaxRunspaces")),
                        );
                    }
                    self.min_runspaces = min_runspaces as usize;
                    self.max_runspaces = max_runspaces as usize;
                    saw_init_data = true;
                },
                _ => {},
            }
            i = i + 1;
        }
        proof {
            assert(messages@.take(messages@.len() as int) =~= messages@);
        }
        if !saw_session_capability {
            return Err(PwshCoreError::InvalidResponse(String::from_str("ConnectResponse missing SessionCapability")));
        }
        if !saw_init_data {
            return Err(PwshCoreError::InvalidResponse(String::from_str("ConnectResponse missing RunspacePoolInitData")));
        }
        self.state = RunspacePoolState::Opened;
        self.desired_stream_is_pooling = true;
        Ok(())
    }

    /// Aborts an in-flight Disconnect: `Disconnecting` reverts to `Opened`; any other
    /// state is left as it is.
    pub fn abort_disconnect(&mut self)
        ensures
            final(self).state == (if old(self).state == RunspacePoolState::Disconnecting {
                RunspacePoolState::Opened
            } else {
                old(self).state
            }),
            final(self).id == old(self).id,
            final(self).shell() == old(self).shell(),
            final(self).pipelines_view() == old(self).pipelines_view(),
            final(self).desired_stream_is_pooling == old(self).desired_stream_is_pooling,
    {
        if self.state == RunspacePoolState::Disconnecting {
            self.state = RunspacePoolState::Opened;
        }
    }

    /// Aborts an in-flight Reconnect: `Connecting` reverts to `Disconnected`; any other
    /// state is left as it is.
    pub fn abort_reconnect(&mut self)
        ensures
            final(self).state == (if old(self).state == RunspacePoolState::Connecting {
                RunspacePoolState::Disconnected
            } else {
                old(self).state
            }),
            final(self).id == old(self).id,
            final(self).shell() == old(self).shell(),
            final(self).pipelines_view() == old(self).pipelines_view(),
            final(self).desired_stream_is_pooling == old(self).desired_stream_is_pooling,
    {
        if self.state == RunspacePoolState::Connecting {
            self.state = RunspacePoolState::Disconnected;
        }
    }

    /// The streams to receive: the standard output of every pipeline, or the pool's own
    /// stream when there is no pipeline.
    pub fn compute_active_desired_streams(&self) -> (r: Vec<DesiredStream>)
        ensures
            self.pipelines_view().len() == 0 ==> r@.len() == 1 && is_stdout_of(r@[0], None),
            self.pipelines_view().len() > 0 ==> r@.len() == self.pipelines_view().len() && forall|i: int|
                0 <= i < r@.len() ==> is_stdout_of(#[trigger] r@[i], Some(self.pipelines_view()[i].id)),
    {
        let mut streams: Vec<DesiredStream> = Vec::new();
        let mut i: usize = 0;
        while i < self.pipelines.len()
            invariant
                i <= self.pipelines@.len(),
                streams@.len() == i,
                forall|j: int| 0 <= j < i ==> is_stdout_of(#[trigger] streams@[j], Some(self.pipelines@[j].id)),
            decreases self.pipelines@.len() - i,
        {
            streams.push(DesiredStream::stdout_for_command(self.pipelines[i].id));
            i = i + 1;
        }
        if streams.len() == 0 {
            streams = DesiredStream::runspace_pool_streams();
        }
        streams
    }

    /// The position of a pipeline, when the pool has it.
    pub fn find_pipeline(&self, id: u128) -> (r: Option<usize>)
        ensures
            match r {
                Some(i) => i < self.pipelines_view().len() && self.pipelines_view()[i as int].id == id,
                None => forall|i: int| 0 <= i < self.pipelines_view().len() ==> #[trigger] self.pipelines_view()[i].id != id,
            },
    {
        let mut i: usize = 0;
        while i < self.pipelines.len()
            invariant
                i <= self.pipelines@.len(),
                forall|j: int| 0 <= j < i ==> #[trigger] self.pipelines@[j].id != id,
            decreases self.pipelines@.len() - i,
        {
            if self.pipelines[i].id == id {
                return Some(i);
            }
            i = i + 1;
        }
        None
    }

    /// Registers a new pipeline in `NotStarted` state; an id already in use is an error.
    pub fn init_pipeline(&mut self, id: u128) -> (r: Result<(), PwshCoreError>)
        requires
            old(self).wf(),
        ensures
            final(self).wf(),
            final(self).state == old(self).state,
            final(self).id == old(self).id,
            final(self).shell() == old(self).shell(),
            (exists|i: int| 0 <= i < old(self).pipelines_view().len() && #[trigger] old(self).pipelines_view()[i].id == id)
                ==> (r matches Err(PwshCoreError::InvalidState(_)) && final(self).pipelines_view() == old(self).pipelines_view()),
            (forall|i: int| 0 <= i < old(self).pipelines_view().len() ==> #[trigger] old(self).pipelines_view()[i].id != id)
                ==> r is Ok && final(self).pipelines_view() == old(self).pipelines_view().push(
                    PipelineEntry { id, state: PsInvocationState::NotStarted },
                ),
            final(self).desired_stream_is_pooling == old(self).desired_stream_is_pooling,
    {
        match self.find_pipeline(id) {
            Some(_) => Err(PwshCoreError::InvalidState("Pipeline with this id already exists")),
            None => {
                self.pipelines.push(PipelineEntry { id, state: PsInvocationState::NotStarted });
                Ok(())
            },
        }
    }

    /// Sets the invocation state of a pipeline; an unknown id is an error.
    pub fn set_pipeline_state(&mut self, id: u128, state: PsInvocationState) -> (r: Result<(), PwshCoreError>)
        requires
            old(self).wf(),
        ensures
            final(self).wf(),
            final(self).state == old(self).state,
            final(self).id == old(self).id,
            final(self).shell() == old(self).shell(),
            final(self).desired_stream_is_pooling == old(self).desired_stream_is_pooling,
            match r {
                Ok(()) => exists|i: int| 0 <= i < old(self).pipelines_view().len() && #[trigger] old(self).pipelines_view()[i].id
                    == id && final(self).pipelines_view() == old(self).pipelines_view().update(i, PipelineEntry { id, state }),
                Err(e) => e is InvalidState && final(self).pipelines_view() == old(self).pipelines_view() && forall|i: int|
                    0 <= i < old(self).pipelines_view().len() ==> #[trigger] old(self).pipelines_view()[i].id != id,
            },
    {
        match self.find_pipeline(id) {
            Some(i) => {
                self.pipelines.set(i, PipelineEntry { id, state });
                proof {
                    assert(old(self).pipelines_view()[i as int].id == id);
                }
                Ok(())
            },
            None => Err(PwshCoreError::InvalidState("Pipeline handle not found")),
        }
    }

    /// Marks a pipeline as being stopped, before its terminate signal is sent: an unknown
    /// pipeline, or one already stopped, completed or failed, cannot be killed.
    pub fn kill_pipeline(&mut self, id: u128) -> (r: Result<(), PwshCoreError>)
        requires
            old(self).wf(),
        ensures
            final(self).wf(),
            final(self).state == old(self).state,
            final(self).id == old(self).id,
            final(self).shell() == old(self).shell(),
            final(self).desired_stream_is_pooling == old(self).desired_stream_is_pooling,
            match r {
                Ok(()) => exists|i: int| 0 <= i < old(self).pipelines_view().len() && #[trigger] old(self).pipelines_view()[i].id
                    == id && !is_terminal(old(self).pipelines_view()[i].state)
                    && final(self).pipelines_view() == old(self).pipelines_view().update(
                    i,
                    PipelineEntry { id, state: PsInvocationState::Stopping },
                ),
                Err(e) => e is InvalidState && final(self).pipelines_view() == old(self).pipelines_view() && forall|i: int|
                    0 <= i < old(self).pipelines_view().len() && #[trigger] old(self).pipelines_view()[i].id == id
                    ==> is_terminal(old(self).pipelines_view()[i].state),
            },
    {
        match self.find_pipeline(id) {
            Some(i) => {
                let st = self.pipelines[i].state;
                if st == PsInvocationState::Stopped || st == PsInvocationState::Completed || st
                    == PsInvocationState::Failed {
                    proof {
                        assert forall|j: int|
                            0 <= j < old(self).pipelines_view().len() && #[trigger] old(self).pipelines_view()[j].id
                                == id implies is_terminal(old(self).pipelines_view()[j].state) by {
                            assert(j == i);
                        }
                    }
                    return Err(
                        PwshCoreError::InvalidState(
                            "Cannot kill a pipeline that is already stopped, completed, or failed",
                        ),
                    );
                }
                self.pipelines.set(i, PipelineEntry { id, state: PsInvocationState::Stopping });
                proof {
                    assert(old(self).pipelines_view()[i as int].id == id);
                }
                Ok(())
            },
            None => Err(PwshCoreError::InvalidState("Pipeline handle not found")),
        }
    }

    /// Removes a pipeline; `true` when the pool had it.
    pub fn remove_pipeline(&mut self, id: u128) -> (r: bool)
        requires
            old(self).wf(),
        ensures
            final(self).wf(),
            final(self).state == old(self).state,
            final(self).id == old(self).id,
            final(self).shell() == old(self).shell(),
            final(self).desired_stream_is_pooling == old(self).desired_stream_is_pooling,
            r == exists|i: int| 0 <= i < old(self).pipelines_view().len() && #[trigger] old(self).pipelines_view()[i].id == id,
            r ==> exists|i: int| 0 <= i < old(self).pipelines_view().len() && #[trigger] old(self).pipelines_view()[i].id == id
                && final(self).pipelines_view() == old(self).pipelines_view().remove(i),
            !r ==> final(self).pipelines_view() == old(self).pipelines_view(),
    {
        match self.find_pipeline(id) {
            Some(i) => {
                let _ = self.pipelines.remove(i);
                proof {
                    assert(old(self).pipelines_view()[i as int].id == id);
                    let p = old(self).pipelines_view();
                    let q = self.pipelines@;
                    assert forall|a: int, b: int| 0 <= a < q.len() && 0 <= b < q.len() && a != b implies #[trigger] q[a].id != #[trigger] q[b].id by {
                        let a2 = if a < i { a } else { a + 1 };
                        let b2 = if b < i { b } else { b + 1 };
                        assert(q[a] == p[a2]);
                        assert(q[b] == p[b2]);
                    }
                }
                true
            },
            None => false,
        }
    }

    /// The invocation state of a pipeline, when the pool has it.
    pub fn pipeline_state(&self, id: u128) -> (r: Option<PsInvocationState>)
        ensures
            match r {
                Some(s) => exists|i: int| 0 <= i < self.pipelines_view().len() && #[trigger] self.pipelines_view()[i]
                    == PipelineEntry { id, state: s },
                None => forall|i: int| 0 <= i < self.pipelines_view().len() ==> #[trigger] self.pipelines_view()[i].id != id,
            },
    {
        match self.find_pipeline(id) {
            Some(i) => Some(self.pipelines[i].state),
            None => None,
        }
    }

    /// The pipelines in `Stopping` state, in order, or `None` when there is none: a
    /// non-timeout fault answering a Receive for such a pipeline is expected teardown.
    pub fn stopping_pipelines_for_fault(&self) -> (r: Option<Vec<u128>>)
        ensures
            match r {
                Some(v) => v@.len() > 0 && v@ == stopping_ids(self.pipelines_view()),
                None => stopping_ids(self.pipelines_view()).len() == 0,
            },
    {
        let mut out: Vec<u128> = Vec::new();
        let mut i: usize = 0;
        while i < self.pipelines.len()
            invariant
                i <= self.pipelines@.len(),
                out@ == stopping_ids(self.pipelines@.take(i as int)),
            decreases self.pipelines@.len() - i,
        {
            proof {
                assert(self.pipelines@.take(i + 1).drop_last() =~= self.pipelines@.take(i as int));
            }
            if self.pipelines[i].state == PsInvocationState::Stopping {
                out.push(self.pipelines[i].id);
            }
            i = i + 1;
        }
        proof {
            assert(self.pipelines@.take(i as int) =~= self.pipelines@);
        }
        if out.len() == 0 {
            None
        } else {
            Some(out)
        }
    }
}

/// The ids of the pipelines in `Stopping` state, in order.
pub open spec fn stopping_ids(p: Seq<PipelineEntry>) -> Seq<u128>
    decreases p.len(),
{
    if p.len() == 0 {
        Seq::empty()
    } else {
        let rest = stopping_ids(p.drop_last());
        if p.last().state == PsInvocationState::Stopping {
            rest.push(p.last().id)
        } else {
            rest
        }
    }
}

} // verus!

//! Decision core of the session loops: receive scheduling, request ordering
//! and the routing of what the connector hands back.
use vstd::prelude::*;

use crate::connector::active_session::{
    client_op_outcome, connecting_outcome, disconnecting_outcome, lemma_disconnect_reconnect_roundtrip, sent_on,
    ActiveSession, ActiveSessionOutput, UserOperation,
};
use crate::connector::connection_pool::ConnectionId;
use crate::runspace_pool::lifecycle::{is_disconnect_response, is_reconnect_response, ResponseEnvelope};
use crate::connector::connection_pool::send_outcome;
use crate::error::PwshCoreError;
use crate::runspace_pool::enums::RunspacePoolState;

pub mod scheduler;
pub mod serial;

verus! {

/// Session lifecycle events.
#[derive(Debug, Clone)]
pub enum SessionEvent {
    /// The connection process started.
    ConnectionStarted,
    /// The connection was established.
    ConnectionEstablished,
    /// The active session loop started.
    ActiveSessionStarted,
    /// The active session loop ended normally.
    ActiveSessionEnded,
    /// An error occurred during connection or session.
    Error(String),
    /// The session was closed.
    Closed,
}

/// A wait that ran out before its operation completed.
#[derive(Debug)]
pub struct Timeout;

/// A disconnect/reconnect boundary that the runspace pool crossed, for the user.
#[derive(Debug, Clone, PartialEq, Eq)]
pub enum PoolLifecycleEvent {
    Disconnected { shell_id: Option<String> },
    DisconnectFailed { shell_id: Option<String> },
    Reconnected { shell_id: Option<String> },
    ReconnectFailed { shell_id: Option<String> },
}

/// The kind of lifecycle event a change of the pool's state from `prev` to
/// `state` is, if any.
pub enum LifecycleKind {
    Disconnected,
    DisconnectFailed,
    Reconnected,
    ReconnectFailed,
}

pub open spec fn lifecycle_kind(prev: RunspacePoolState, state: RunspacePoolState) -> Option<LifecycleKind> {
    if prev == state {
        None
    } else if prev == RunspacePoolState::Connecting && state == RunspacePoolState::Disconnected {
        // The Reconnect failed and was aborted.
        Some(LifecycleKind::ReconnectFailed)
    } else if state == RunspacePoolState::Disconnected {
        Some(LifecycleKind::Disconnected)
    } else if (prev == RunspacePoolState::Disconnected || prev == RunspacePoolState::Connecting) && state
        == RunspacePoolState::Opened {
        Some(LifecycleKind::Reconnected)
    } else if prev == RunspacePoolState::Disconnecting && state == RunspacePoolState::Opened {
        // The Disconnect failed and was aborted.
        Some(LifecycleKind::DisconnectFailed)
    } else {
        None
    }
}

pub open spec fn event_kind(e: PoolLifecycleEvent) -> LifecycleKind {
    match e {
        PoolLifecycleEvent::Disconnected { .. } => LifecycleKind::Disconnected,
        PoolLifecycleEvent::DisconnectFailed { .. } => LifecycleKind::DisconnectFailed,
        PoolLifecycleEvent::Reconnected { .. } => LifecycleKind::Reconnected,
        PoolLifecycleEvent::ReconnectFailed { .. } => LifecycleKind::ReconnectFailed,
    }
}

pub open spec fn event_shell(e: PoolLifecycleEvent) -> Option<String> {
    match e {
        PoolLifecycleEvent::Disconnected { shell_id } => shell_id,
        PoolLifecycleEvent::DisconnectFailed { shell_id } => shell_id,
        PoolLifecycleEvent::Reconnected { shell_id } => shell_id,
        PoolLifecycleEvent::ReconnectFailed { shell_id } => shell_id,
    }
}

/// The lifecycle event, if any, for the pool's state as the active session now
/// has it against the state last observed; the observation is brought up to
/// date.
pub fn emit_pool_lifecycle_transition(prev_state: &mut RunspacePoolState, active_session: &ActiveSession) -> (r: Option<
    PoolLifecycleEvent,
>)
    ensures
        *final(prev_state) == active_session.pool_state(),
        match lifecycle_kind(*old(prev_state), active_session.pool_state()) {
            None => r is None,
            Some(k) => r matches Some(e) && event_kind(e) == k && match event_shell(e) {
                Some(s) => active_session.runspace().shell() == Some(s@),
                None => active_session.runspace().shell() is None,
            },
        },
{
    let state = active_session.runspace_pool_state();
    if state == *prev_state {
        return None;
    }
    let prev = *prev_state;
    *prev_state = state;
    if prev == RunspacePoolState::Connecting && state == RunspacePoolState::Disconnected {
        Some(PoolLifecycleEvent::ReconnectFailed { shell_id: active_session.shell_id() })
    } else if state == RunspacePoolState::Disconnected {
        Some(PoolLifecycleEvent::Disconnected { shell_id: active_session.shell_id() })
    } else if (prev == RunspacePoolState::Disconnected || prev == RunspacePoolState::Connecting) && state
        == RunspacePoolState::Opened {
        Some(PoolLifecycleEvent::Reconnected { shell_id: active_session.shell_id() })
    } else if prev == RunspacePoolState::Disconnecting && state == RunspacePoolState::Opened {
        Some(PoolLifecycleEvent::DisconnectFailed { shell_id: active_session.shell_id() })
    } else {
        None
    }
}

/// A change of the pool's state into `Opened` from `Disconnected` or from `Connecting` (a
/// Reconnect that was answered) is reported as a reconnect; into `Disconnected` from any
/// other state it is reported as a disconnect, or as a failed reconnect when a Reconnect was
/// in flight; back to `Opened` from `Disconnecting` as a failed disconnect; no state that
/// stays the same is reported.
pub proof fn lemma_lifecycle_reports(prev: RunspacePoolState, state: RunspacePoolState)
    ensures
        ((prev == RunspacePoolState::Disconnected || prev == RunspacePoolState::Connecting) && state
            == RunspacePoolState::Opened) ==> lifecycle_kind(prev, state) matches Some(LifecycleKind::Reconnected),
        (prev == RunspacePoolState::Disconnecting && state == RunspacePoolState::Opened) ==> lifecycle_kind(
            prev,
            state,
        ) matches Some(LifecycleKind::DisconnectFailed),
        (prev == RunspacePoolState::Connecting && state == RunspacePoolState::Disconnected) ==> lifecycle_kind(
            prev,
            state,
        ) matches Some(LifecycleKind::ReconnectFailed),
        (prev != RunspacePoolState::Connecting && prev != RunspacePoolState::Disconnected && state
            == RunspacePoolState::Disconnected) ==> lifecycle_kind(prev, state) matches Some(
            LifecycleKind::Disconnected,
        ),
        prev == state ==> lifecycle_kind(prev, state) is None,
{
}

/// A Disconnect of an opened session and then a Reconnect, each answered on its own
/// connection, observed after every step, report exactly a disconnect (when the
/// DisconnectResponse is read) and then a reconnect (when the ReconnectResponse is read).
pub proof fn lemma_round_trip_reports_disconnect_then_reconnect(
    s0: ActiveSession,
    s1: ActiveSession,
    s2: ActiveSession,
    s3: ActiveSession,
    s4: ActiveSession,
    disconnect_xml: String,
    reconnect_xml: String,
    r1: Result<ActiveSessionOutput, PwshCoreError>,
    env1: ResponseEnvelope,
    c1: ConnectionId,
    r2: Result<Vec<ActiveSessionOutput>, PwshCoreError>,
    r3: Result<ActiveSessionOutput, PwshCoreError>,
    env2: ResponseEnvelope,
    c2: ConnectionId,
    r4: Result<Vec<ActiveSessionOutput>, PwshCoreError>,
)
    requires
        s0.pool_state() == RunspacePoolState::Opened,
        client_op_outcome(s0, s1, UserOperation::Disconnect { disconnect_xml }, r1),
        sent_on(r1) == Some(c1.spec_id()),
        disconnecting_outcome(s1, s2, env1, c1, r2),
        env1.fault is None && is_disconnect_response(env1),
        client_op_outcome(s2, s3, UserOperation::Reconnect { reconnect_xml }, r3),
        sent_on(r3) == Some(c2.spec_id()),
        connecting_outcome(s3, s4, env2, c2, r4),
        env2.fault is None && is_reconnect_response(env2),
    ensures
        lifecycle_kind(s0.pool_state(), s1.pool_state()) is None,
        lifecycle_kind(s1.pool_state(), s2.pool_state()) matches Some(LifecycleKind::Disconnected),
        lifecycle_kind(s2.pool_state(), s3.pool_state()) is None,
        lifecycle_kind(s3.pool_state(), s4.pool_state()) matches Some(LifecycleKind::Reconnected),
{
    lemma_disconnect_reconnect_roundtrip(
        s0,
        s1,
        s2,
        s3,
        s4,
        disconnect_xml,
        reconnect_xml,
        r1,
        env1,
        c1,
        r2,
        r3,
        env2,
        c2,
        r4,
    );
}

/// Turns an output that defers a Receive into concrete requests: a
/// send-then-receive becomes its request followed by the Receive, a pending
/// Receive becomes the Receive; `receive_xml` is the Receive envelope for the
/// output's streams. Other outputs pass through.
pub fn resolve_deferred_sends(output: ActiveSessionOutput, active_session: &mut ActiveSession, receive_xml: &str) -> (r:
    Result<ActiveSessionOutput, PwshCoreError>)
    requires
        old(active_session).wf(),
    ensures
        final(active_session).wf(),
        final(active_session).runspace() == old(active_session).runspace(),
        final(active_session).disconnect_conn() == old(active_session).disconnect_conn(),
        final(active_session).reconnect_conn() == old(active_session).reconnect_conn(),
        final(active_session).retired() == old(active_session).retired(),
        match output {
            ActiveSessionOutput::SendAndThenReceive { send_request, .. } => match r {
                Ok(ActiveSessionOutput::SendBack(v)) => v@.len() == 2 && v@[0] == send_request && send_outcome(
                    old(active_session).conns(),
                    final(active_session).conns(),
                    receive_xml@,
                    Ok(v@[1]),
                ),
                Err(e) => send_outcome(old(active_session).conns(), final(active_session).conns(), receive_xml@, Err(e)),
                _ => false,
            },
            ActiveSessionOutput::PendingReceive { .. } => match r {
                Ok(ActiveSessionOutput::SendBack(v)) => v@.len() == 1 && send_outcome(
                    old(active_session).conns(),
                    final(active_session).conns(),
                    receive_xml@,
                    Ok(v@[0]),
                ),
                Err(e) => send_outcome(old(active_session).conns(), final(active_session).conns(), receive_xml@, Err(e)),
                _ => false,
            },
            _ => r == Ok::<ActiveSessionOutput, PwshCoreError>(output) && final(active_session).conns()
                == old(active_session).conns(),
        },
{
    match output {
        ActiveSessionOutput::SendAndThenReceive { send_request, .. } => {
            let recv = active_session.fire_receive(receive_xml)?;
            let mut v: Vec<crate::connector::connection_pool::TrySend> = Vec::new();
            v.push(send_request);
            v.push(recv);
            Ok(ActiveSessionOutput::SendBack(v))
        },
        ActiveSessionOutput::PendingReceive { .. } => {
            let recv = active_session.fire_receive(receive_xml)?;
            let mut v: Vec<crate::connector::connection_pool::TrySend> = Vec::new();
            v.push(recv);
            Ok(ActiveSessionOutput::SendBack(v))
        },
        other => Ok(other),
    }
}

} // verus!

//! HTTP transport, message sealing and per-connection authentication, and the
//! connector that takes a session from nothing to an opened runspace pool.
use vstd::prelude::*;

use crate::connector::active_session::ActiveSession;
use crate::connector::connection_pool::{
    accept_outcome, send_outcome, AuthSequenceConfig, ConnectionPool, ConnectionPoolAccept, ConnectionPoolConfig, TrySend,
};
use crate::connector::http::HttpResponseTargeted;
use crate::connector::transport::WinRmConfig;
use crate::error::PwshCoreError;
use crate::runspace_pool::enums::RunspacePoolState;
use crate::runspace_pool::lifecycle::RunspacePool;

pub mod active_session;
pub mod auth;
pub mod config;
pub mod connection_pool;
pub mod encryption;
pub mod http;
pub mod sspi_context;
pub mod transport;

verus! {

/// Where the connector is in establishing the session.
pub enum ConnectorState {
    Idle,
    /// Waiting for the shell creation to be answered.
    Connecting { connection_pool: ConnectionPool },
    /// Waiting for the ConnectResponse of a WSMan Connect to an existing
    /// disconnected shell (the reattach path).
    ConnectingExisting { connection_pool: ConnectionPool },
    /// Receiving until the runspace pool is opened.
    ConnectReceiveCycle { runspace_pool: RunspacePool, connection_pool: ConnectionPool },
    Connected,
}

impl ConnectorState {
    /// The name of the state, for diagnostics.
    pub fn state_name(&self) -> (r: &'static str)
        ensures
            r@ == match self {
                ConnectorState::Idle => "Idle"@,
                ConnectorState::Connecting { .. } => "Connecting"@,
                ConnectorState::ConnectingExisting { .. } => "ConnectingExisting"@,
                ConnectorState::ConnectReceiveCycle { .. } => "ConnectReceiveCycle"@,
                ConnectorState::Connected => "Connected"@,
            },
    {
        match self {
            ConnectorState::Idle => "Idle",
            ConnectorState::Connecting { .. } => "Connecting",
            ConnectorState::ConnectingExisting { .. } => "ConnectingExisting",
            ConnectorState::ConnectReceiveCycle { .. } => "ConnectReceiveCycle",
            ConnectorState::Connected => "Connected",
        }
    }
}

/// What a connector step asks of the caller.
pub enum ConnectorStepResult {
    SendBack { try_send: TrySend },
    /// The session is established: hand it on, and send this request (the
    /// first Receive) or the session stalls.
    Connected { active_session: ActiveSession, send_this_one_async_or_you_stuck: TrySend },
}

/// What a response on the pool gives the connector.
pub enum ConnectorResponse {
    /// Re-authentication: send this request, the state is kept.
    SendBack { try_send: TrySend },
    /// The plaintext envelope, for the message layer to read: the shell's
    /// creation, the ConnectResponse, or the PSRP messages of a Receive.
    Body { xml: String },
}

impl ConnectorStepResult {
    pub fn name(&self) -> (r: &'static str)
        ensures
            r@ == (if self is SendBack { "SendBack"@ } else { "Connected"@ }),
    {
        match self {
            ConnectorStepResult::SendBack { .. } => "SendBack",
            ConnectorStepResult::Connected { .. } => "Connected",
        }
    }

    pub fn priority(&self) -> (r: u8)
        ensures
            r == (if self is SendBack { 1u8 } else { 3u8 }),
    {
        match self {
            ConnectorStepResult::SendBack { .. } => 1,
            ConnectorStepResult::Connected { .. } => 3,
        }
    }
}

/// Takes a session from nothing to an opened runspace pool: creates the shell
/// (or attaches to an existing disconnected one), then receives until the
/// pool is opened, and hands over an [`ActiveSession`].
pub struct Connector {
    state: ConnectorState,
    pool_config: ConnectionPoolConfig,
    auth_config: AuthSequenceConfig,
    /// When set, the connector attaches to this existing disconnected shell
    /// (WSMan Connect) instead of creating a new one.
    connect_shell_id: Option<u128>,
}

pub open spec fn state_pool_wf(s: ConnectorState) -> bool {
    match s {
        ConnectorState::Connecting { connection_pool } => connection_pool.wf(),
        ConnectorState::ConnectingExisting { connection_pool } => connection_pool.wf(),
        ConnectorState::ConnectReceiveCycle { runspace_pool, connection_pool } => connection_pool.wf() && runspace_pool.wf(),
        _ => true,
    }
}

/// The connection pool a state holds, if any.
pub open spec fn state_pool(s: ConnectorState) -> Option<ConnectionPool> {
    match s {
        ConnectorState::Connecting { connection_pool } => Some(connection_pool),
        ConnectorState::ConnectingExisting { connection_pool } => Some(connection_pool),
        ConnectorState::ConnectReceiveCycle { connection_pool, .. } => Some(connection_pool),
        _ => None,
    }
}

/// The same state with another connection pool.
pub open spec fn with_pool(s: ConnectorState, p: ConnectionPool) -> ConnectorState {
    match s {
        ConnectorState::Connecting { .. } => ConnectorState::Connecting { connection_pool: p },
        ConnectorState::ConnectingExisting { .. } => ConnectorState::ConnectingExisting { connection_pool: p },
        ConnectorState::ConnectReceiveCycle { runspace_pool, .. } => ConnectorState::ConnectReceiveCycle {
            runspace_pool,
            connection_pool: p,
        },
        _ => s,
    }
}

/// A pool as `ConnectionPool::new` makes it.
pub open spec fn fresh_pool(p: ConnectionPool, cfg: ConnectionPoolConfig, auth: AuthSequenceConfig) -> bool {
    &&& p.wf()
    &&& p.conns() == Map::<u32, crate::connector::connection_pool::ConnectionState>::empty()
    &&& p.next() == 1
    &&& p.binding() is None
    &&& p.config() == auth
    &&& p.server() == cfg
}

impl Connector {
    pub closed spec fn state(&self) -> ConnectorState {
        self.state
    }

    /// Whether the connector waits for the answer to the shell creation.
    pub fn awaits_shell(&self) -> (r: bool)
        ensures
            r == (self.state() is Connecting),
    {
        match &self.state {
            ConnectorState::Connecting { .. } => true,
            _ => false,
        }
    }

    pub closed spec fn shell_to_attach(&self) -> Option<u128> {
        self.connect_shell_id
    }

    pub closed spec fn pool_config(&self) -> ConnectionPoolConfig {
        self.pool_config
    }

    pub closed spec fn auth_config(&self) -> AuthSequenceConfig {
        self.auth_config
    }

    pub open spec fn wf(&self) -> bool {
        state_pool_wf(self.state())
    }

    /// A connector that creates a new shell.
    pub fn new(config: &WinRmConfig) -> (r: Self)
        ensures
            r.wf(),
            r.state() is Idle,
            r.shell_to_attach() is None,
            r.auth_config().require_encryption == (config.transport == crate::connector::transport::TransportSecurity::Http),
            r.auth_config().authenticator_config == config.authentication,
            r.pool_config().port == config.server.1,
            r.pool_config().scheme == config.transport.spec_scheme(),
    {
        let pool_config = ConnectionPoolConfig::from_config(config);
        let auth_config = AuthSequenceConfig::new(
            config.authentication.duplicate(),
            config.transport.requires_sspi_sealing(),
        );
        Connector { state: ConnectorState::Idle, pool_config, auth_config, connect_shell_id: None }
    }

    /// A connector that attaches to an existing disconnected shell instead of
    /// creating one.
    pub fn new_connect(config: &WinRmConfig, shell_id: u128) -> (r: Self)
        ensures
            r.wf(),
            r.state() is Idle,
            r.shell_to_attach() == Some(shell_id),
            r.auth_config().require_encryption == (config.transport == crate::connector::transport::TransportSecurity::Http),
            r.auth_config().authenticator_config == config.authentication,
            r.pool_config().port == config.server.1,
            r.pool_config().scheme == config.transport.spec_scheme(),
    {
        let mut c = Self::new(config);
        c.connect_shell_id = Some(shell_id);
        c
    }

    /// The first step, from `Idle`: opens the connection pool and sends the
    /// shell's creation envelope (or, to attach to an existing shell, its
    /// Connect envelope). From any other state it is an invalid step, and the
    /// connector is left `Idle`.
    pub fn start(&mut self, shell_xml: &str) -> (r: Result<ConnectorStepResult, PwshCoreError>)
        requires
            old(self).wf(),
        ensures
            final(self).wf(),
            final(self).shell_to_attach() == old(self).shell_to_attach(),
            final(self).pool_config() == old(self).pool_config(),
            final(self).auth_config() == old(self).auth_config(),
            !(old(self).state() is Idle) ==> (r matches Err(PwshCoreError::InvalidState(_)) && final(self).state() is Idle),
            old(self).state() is Idle ==> exists|fresh: ConnectionPool|
                #[trigger] fresh_pool(fresh, old(self).pool_config(), old(self).auth_config()) && match r {
                    Ok(ConnectorStepResult::SendBack { try_send }) => {
                        &&& state_pool(final(self).state()) matches Some(p) && send_outcome(
                            fresh,
                            p,
                            shell_xml@,
                            Ok(try_send),
                        )
                        &&& if old(self).shell_to_attach() is Some {
                            final(self).state() is ConnectingExisting
                        } else {
                            final(self).state() is Connecting
                        }
                    },
                    Err(e) => final(self).state() is Idle && exists|p: ConnectionPool|
                        #![trigger send_outcome(fresh, p, shell_xml@, Err(e))]
                        send_outcome(fresh, p, shell_xml@, Err(e)),
                    _ => false,
                },
    {
        let mut state = ConnectorState::Idle;
        std::mem::swap(&mut state, &mut self.state);
        match state {
            ConnectorState::Idle => {},
            _ => {
                return Err(PwshCoreError::InvalidState("Connector is in invalid state for start()"));
            },
        }
        let mut connection_pool = ConnectionPool::new(self.pool_config.duplicate(), self.auth_config.duplicate());
        let ghost fresh = connection_pool;
        let sent = connection_pool.send(shell_xml);
        let try_send = match sent {
            Ok(ts) => ts,
            Err(e) => {
                assert(fresh_pool(fresh, old(self).pool_config(), old(self).auth_config()));
                assert(send_outcome(fresh, connection_pool, shell_xml@, Err(e)));
                return Err(e);
            },
        };
        if self.connect_shell_id.is_some() {
            self.state = ConnectorState::ConnectingExisting { connection_pool };
        } else {
            self.state = ConnectorState::Connecting { connection_pool };
        }
        assert(fresh_pool(fresh, old(self).pool_config(), old(self).auth_config()));
        Ok(ConnectorStepResult::SendBack { try_send })
    }

    /// A server response while connecting: the pool accepts it. A
    /// re-authentication must ask for exactly one request, which is sent in
    /// the same state; a body is handed out for the message layer to read. A
    /// response in `Idle` or `Connected`, a failed acceptance or a
    /// re-authentication with other than one request leaves the connector `Idle`.
    pub fn accept(&mut self, response: HttpResponseTargeted) -> (r: Result<ConnectorResponse, PwshCoreError>)
        requires
            old(self).wf(),
        ensures
            final(self).wf(),
            final(self).shell_to_attach() == old(self).shell_to_attach(),
            final(self).pool_config() == old(self).pool_config(),
            final(self).auth_config() == old(self).auth_config(),
            state_pool(old(self).state()) is None ==> (r matches Err(PwshCoreError::InvalidState(_))
                && final(self).state() is Idle),
            state_pool(old(self).state()) is Some ==> exists|p1: ConnectionPool, pr: Result<ConnectionPoolAccept, PwshCoreError>|
                    #[trigger] accept_outcome(state_pool(old(self).state())->0, response, p1, pr) && match pr {
                        Err(e) => r == Err::<ConnectorResponse, PwshCoreError>(e) && final(self).state() is Idle,
                        Ok(ConnectionPoolAccept::Body(xml)) => (r matches Ok(ConnectorResponse::Body { xml: x }) && x == xml)
                            && final(self).state() == with_pool(old(self).state(), p1),
                        Ok(ConnectionPoolAccept::SendBack(reqs)) => if reqs@.len() == 1 {
                            (r matches Ok(ConnectorResponse::SendBack { try_send }) && try_send == reqs@[0])
                                && final(self).state() == with_pool(old(self).state(), p1)
                        } else {
                            r matches Err(PwshCoreError::InvalidState(_)) && final(self).state() is Idle
                        },
                    },
    {
        let mut state = ConnectorState::Idle;
        std::mem::swap(&mut state, &mut self.state);
        let (mut connection_pool, rest, existing) = match state {
            ConnectorState::Connecting { connection_pool } => (connection_pool, None, false),
            ConnectorState::ConnectingExisting { connection_pool } => (connection_pool, None, true),
            ConnectorState::ConnectReceiveCycle { runspace_pool, connection_pool } => (
                connection_pool,
                Some(runspace_pool),
                false,
            ),
            _ => {
                return Err(PwshCoreError::InvalidState("Expected a connecting state for a response"));
            },
        };
        let ghost p0 = connection_pool;
        assert(state_pool(old(self).state()) == Some(p0));
        let accepted = connection_pool.accept(response);
        let ghost pr = accepted;
        let ghost p1 = connection_pool;
        let accepted = match accepted {
            Ok(a) => a,
            Err(e) => {
                assert(accept_outcome(state_pool(old(self).state())->0, response, p1, pr));
                return Err(e);
            },
        };
        let new_state = match rest {
            Some(runspace_pool) => ConnectorState::ConnectReceiveCycle { runspace_pool, connection_pool },
            None => if existing {
                ConnectorState::ConnectingExisting { connection_pool }
            } else {
                ConnectorState::Connecting { connection_pool }
            },
        };
        match accepted {
            ConnectionPoolAccept::Body(xml) => {
                self.state = new_state;
                assert(accept_outcome(state_pool(old(self).state())->0, response, p1, pr));
                Ok(ConnectorResponse::Body { xml })
            },
            ConnectionPoolAccept::SendBack(reqs) => {
                if reqs.len() != 1 {
                    assert(accept_outcome(state_pool(old(self).state())->0, response, p1, pr));
                    return Err(PwshCoreError::InvalidState("Expected a single request for a re-authentication retry"));
                }
                let ghost reqs0 = reqs@;
                let mut reqs = reqs;
                let try_send = reqs.pop().unwrap();
                self.state = new_state;
                assert(accept_outcome(state_pool(old(self).state())->0, response, p1, pr));
                assert(try_send == reqs0[0]);
                Ok(ConnectorResponse::SendBack { try_send })
            },
        }
    }

    /// The shell answered its creation or Connect, and the message layer read
    /// the answer into `runspace_pool`. A new shell starts receiving until the
    /// pool opens; an attached shell is ready: the session is handed over with
    /// its first Receive. In any other state this is an invalid step, and the
    /// connector is left `Idle`.
    pub fn shell_ready(&mut self, runspace_pool: RunspacePool, receive_xml: &str) -> (r: Result<
        ConnectorStepResult,
        PwshCoreError,
    >)
        requires
            old(self).wf(),
            runspace_pool.wf(),
        ensures
            final(self).wf(),
            final(self).shell_to_attach() == old(self).shell_to_attach(),
            final(self).pool_config() == old(self).pool_config(),
            final(self).auth_config() == old(self).auth_config(),
            match old(self).state() {
                ConnectorState::Connecting { connection_pool: p0 } => match r {
                    Ok(ConnectorStepResult::SendBack { try_send }) => final(self).state() matches ConnectorState::ConnectReceiveCycle {
                        runspace_pool: rp,
                        connection_pool: p1,
                    } && rp == runspace_pool && send_outcome(p0, p1, receive_xml@, Ok(try_send)),
                    Err(e) => final(self).state() is Idle && exists|p1: ConnectionPool|
                        #![trigger send_outcome(p0, p1, receive_xml@, Err(e))]
                        send_outcome(p0, p1, receive_xml@, Err(e)),
                    _ => false,
                },
                ConnectorState::ConnectingExisting { connection_pool: p0 } => match r {
                    Ok(ConnectorStepResult::Connected { active_session, send_this_one_async_or_you_stuck }) => {
                        &&& final(self).state() is Connected
                        &&& active_session.wf()
                        &&& active_session.runspace() == runspace_pool
                        &&& send_outcome(p0, active_session.conns(), receive_xml@, Ok(send_this_one_async_or_you_stuck))
                        &&& active_session.disconnect_conn() is None
                        &&& active_session.reconnect_conn() is None
                        &&& active_session.retired().is_empty()
                    },
                    Err(e) => final(self).state() is Idle && exists|p1: ConnectionPool|
                        #![trigger send_outcome(p0, p1, receive_xml@, Err(e))]
                        send_outcome(p0, p1, receive_xml@, Err(e)),
                    _ => false,
                },
                _ => r matches Err(PwshCoreError::InvalidState(_)) && final(self).state() is Idle,
            },
    {
        let mut state = ConnectorState::Idle;
        std::mem::swap(&mut state, &mut self.state);
        match state {
            ConnectorState::Connecting { mut connection_pool } => {
                let ghost p0 = connection_pool;
                let sent = connection_pool.send(receive_xml);
                let try_send = match sent {
                    Ok(ts) => ts,
                    Err(e) => {
                        assert(send_outcome(p0, connection_pool, receive_xml@, Err(e)));
                        return Err(e);
                    },
                };
                self.state = ConnectorState::ConnectReceiveCycle { runspace_pool, connection_pool };
                Ok(ConnectorStepResult::SendBack { try_send })
            },
            ConnectorState::ConnectingExisting { mut connection_pool } => {
                let ghost p0 = connection_pool;
                let sent = connection_pool.send(receive_xml);
                let next_req = match sent {
                    Ok(ts) => ts,
                    Err(e) => {
                        assert(send_outcome(p0, connection_pool, receive_xml@, Err(e)));
                        return Err(e);
                    },
                };
                let active_session = ActiveSession::new(runspace_pool, connection_pool);
                self.state = ConnectorState::Connected;
                Ok(ConnectorStepResult::Connected { active_session, send_this_one_async_or_you_stuck: next_req })
            },
            _ => Err(PwshCoreError::InvalidState("Connector is not waiting for a shell")),
        }
    }

    /// A Receive of the connect cycle was read by the PSRP layer, which left
    /// the pool in `pool_state` and rendered `receive_xml` for the streams of
    /// the ReceiveResponse (`None` when there was none, an invalid response).
    /// While the negotiation runs the connector receives again; once the pool
    /// is `Opened` the session is handed over with its next Receive; any other
    /// pool state is invalid. Every failure leaves the connector `Idle`.
    pub fn receive_cycle(&mut self, pool_state: RunspacePoolState, receive_xml: Option<String>) -> (r: Result<
        ConnectorStepResult,
        PwshCoreError,
    >)
        requires
            old(self).wf(),
        ensures
            final(self).wf(),
            final(self).shell_to_attach() == old(self).shell_to_attach(),
            final(self).pool_config() == old(self).pool_config(),
            final(self).auth_config() == old(self).auth_config(),
            match old(self).state() {
                ConnectorState::ConnectReceiveCycle { runspace_pool: rp0, connection_pool: p0 } => match receive_xml {
                    None => r matches Err(PwshCoreError::InvalidState(_)) && final(self).state() is Idle,
                    Some(x) => if pool_state == RunspacePoolState::NegotiationSent {
                        match r {
                            Ok(ConnectorStepResult::SendBack { try_send }) => final(self).state() matches ConnectorState::ConnectReceiveCycle {
                                runspace_pool: rp1,
                                connection_pool: p1,
                            } && rp1 == (RunspacePool { state: pool_state, ..rp0 }) && send_outcome(p0, p1, x@, Ok(try_send)),
                            Err(e) => final(self).state() is Idle && exists|p1: ConnectionPool|
                                #![trigger send_outcome(p0, p1, x@, Err(e))]
                                send_outcome(p0, p1, x@, Err(e)),
                            _ => false,
                        }
                    } else if pool_state == RunspacePoolState::Opened {
                        match r {
                            Ok(ConnectorStepResult::Connected { active_session, send_this_one_async_or_you_stuck }) => {
                                &&& final(self).state() is Connected
                                &&& active_session.wf()
                                &&& active_session.runspace() == (RunspacePool { state: pool_state, ..rp0 })
                                &&& send_outcome(p0, active_session.conns(), x@, Ok(send_this_one_async_or_you_stuck))
                                &&& active_session.disconnect_conn() is None
                                &&& active_session.reconnect_conn() is None
                                &&& active_session.retired().is_empty()
                            },
                            Err(e) => final(self).state() is Idle && exists|p1: ConnectionPool|
                                #![trigger send_outcome(p0, p1, x@, Err(e))]
                                send_outcome(p0, p1, x@, Err(e)),
                            _ => false,
                        }
                    } else {
                        r matches Err(PwshCoreError::InvalidState(_)) && final(self).state() is Idle
                    },
                },
                _ => r matches Err(PwshCoreError::InvalidState(_)) && final(self).state() is Idle,
            },
    {
        let mut state = ConnectorState::Idle;
        std::mem::swap(&mut state, &mut self.state);
        let (mut runspace_pool, mut connection_pool) = match state {
            ConnectorState::ConnectReceiveCycle { runspace_pool, connection_pool } => (runspace_pool, connection_pool),
            _ => {
                return Err(PwshCoreError::InvalidState("Connector is not in the receive cycle"));
            },
        };
        let receive_xml = match receive_xml {
            Some(x) => x,
            None => {
                return Err(PwshCoreError::InvalidState("Expected ReceiveResponse"));
            },
        };
        runspace_pool.state = pool_state;
        let ghost p0 = connection_pool;
        if pool_state == RunspacePoolState::NegotiationSent {
            let sent = connection_pool.send(receive_xml.as_str());
            let try_send = match sent {
                Ok(ts) => ts,
                Err(e) => {
                    assert(send_outcome(p0, connection_pool, receive_xml@, Err(e)));
                    return Err(e);
                },
            };
            self.state = ConnectorState::ConnectReceiveCycle { runspace_pool, connection_pool };
            Ok(ConnectorStepResult::SendBack { try_send })
        } else if pool_state == RunspacePoolState::Opened {
            let sent = connection_pool.send(receive_xml.as_str());
            let next_req = match sent {
                Ok(ts) => ts,
                Err(e) => {
                    assert(send_outcome(p0, connection_pool, receive_xml@, Err(e)));
                    return Err(e);
                },
            };
            let active_session = ActiveSession::new(runspace_pool, connection_pool);
            self.state = ConnectorState::Connected;
            Ok(ConnectorStepResult::Connected { active_session, send_this_one_async_or_you_stuck: next_req })
        } else {
            Err(PwshCoreError::InvalidState("Unexpected RunspacePool state"))
        }
    }
}

} // verus!

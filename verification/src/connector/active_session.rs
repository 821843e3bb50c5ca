//! The session after connect: user operations become requests on the
//! connection pool, server responses become outputs for the session loop, and
//! the disconnect/reconnect bookkeeping decides which traffic may move the
//! runspace pool's state.
//!
//! SOAP envelopes are rendered and parsed by the message layer: operations
//! carry the envelope they send, and a response whose meaning depends on its
//! envelope comes back as a [`ResponseStep`] for that layer to parse.
use vstd::prelude::*;

use crate::connector::connection_pool::{
    accept_outcome, send_outcome, ConnectionId, ConnectionPool, ConnectionPoolAccept, TrySend,
};
use crate::connector::http::HttpResponseTargeted;
use crate::error::PwshCoreError;
use crate::host::call::{HostCall, HostCallScope, Submission};
use crate::powershell::PipelineHandle;
use crate::runspace_pool::enums::RunspacePoolState;
use crate::runspace_pool::lifecycle::{
    is_disconnect_response, is_reconnect_response, is_terminal, PipelineEntry, ResponseEnvelope, RunspacePool,
};
use crate::runspace_pool::enums::PsInvocationState;
use std::collections::HashSet;
use crate::runspace_pool::incoming::{active_streams, AcceptResponsResult};
use crate::runspace_pool::streams::{is_stdout_of, DesiredStream};

verus! {

broadcast use vstd::std_specs::hash::group_hash_axioms;

/// What the user sees of a pipeline.
#[derive(Debug, Clone, PartialEq, Eq)]
pub enum UserEvent {
    PipelineCreated { pipeline: PipelineHandle },
    PipelineFinished { pipeline: PipelineHandle },
    /// One output object, as the message layer rendered it.
    PipelineOutput { pipeline: PipelineHandle, output: String },
    /// An error record, as the message layer rendered it.
    ErrorRecord { error_record: String, handle: PipelineHandle },
    /// An informational record (progress, warning, verbose, ...), as rendered.
    PipelineRecord { pipeline: PipelineHandle, record: String },
}

impl UserEvent {
    pub open spec fn spec_pipeline_id(self) -> u128 {
        match self {
            UserEvent::PipelineCreated { pipeline } => pipeline.id,
            UserEvent::PipelineFinished { pipeline } => pipeline.id,
            UserEvent::PipelineOutput { pipeline, .. } => pipeline.id,
            UserEvent::ErrorRecord { handle, .. } => handle.id,
            UserEvent::PipelineRecord { pipeline, .. } => pipeline.id,
        }
    }

    /// The pipeline the event is about.
    pub fn pipeline_id(&self) -> (r: u128)
        ensures
            r == self.spec_pipeline_id(),
    {
        match self {
            UserEvent::PipelineCreated { pipeline } => pipeline.id(),
            UserEvent::PipelineFinished { pipeline } => pipeline.id(),
            UserEvent::PipelineOutput { pipeline, .. } => pipeline.id(),
            UserEvent::ErrorRecord { handle, .. } => handle.id(),
            UserEvent::PipelineRecord { pipeline, .. } => pipeline.id(),
        }
    }
}

/// What the session hands the session loop.
pub enum ActiveSessionOutput {
    SendBack(Vec<TrySend>),
    SendBackError(PwshCoreError),
    UserEvent(UserEvent),
    HostCall(HostCall),
    /// Send the request, wait for its response, then Receive these streams
    /// (the order a single connection must keep).
    SendAndThenReceive { send_request: TrySend, then_receive_streams: Vec<DesiredStream> },
    /// A Receive is wanted for these streams; no connection is taken yet. The
    /// session loop fires it when it is ready to.
    PendingReceive { desired_streams: Vec<DesiredStream> },
    OperationSuccess,
    Ignore,
}

impl ActiveSessionOutput {
    pub open spec fn spec_priority(self) -> u8 {
        match self {
            ActiveSessionOutput::HostCall(_) => 1,
            ActiveSessionOutput::SendBack(_) => 2,
            ActiveSessionOutput::SendAndThenReceive { .. } => 2,
            ActiveSessionOutput::PendingReceive { .. } => 2,
            ActiveSessionOutput::SendBackError(_) => 3,
            ActiveSessionOutput::UserEvent(_) => 4,
            ActiveSessionOutput::OperationSuccess => 5,
            ActiveSessionOutput::Ignore => 6,
        }
    }

    /// The order in which outputs of one response are handed on: host calls
    /// first, then requests, errors, user events and the rest.
    pub fn priority(&self) -> (r: u8)
        ensures
            r == self.spec_priority(),
    {
        match self {
            ActiveSessionOutput::HostCall(_) => 1,
            ActiveSessionOutput::SendBack(_) => 2,
            ActiveSessionOutput::SendAndThenReceive { .. } => 2,
            ActiveSessionOutput::PendingReceive { .. } => 2,
            ActiveSessionOutput::SendBackError(_) => 3,
            ActiveSessionOutput::UserEvent(_) => 4,
            ActiveSessionOutput::OperationSuccess => 5,
            ActiveSessionOutput::Ignore => 6,
        }
    }
}

/// An operation the user asks of the session, with the envelope it sends.
#[derive(Debug)]
pub enum UserOperation {
    /// Create, populate and invoke a pipeline.
    InvokeWithSpec { uuid: u128, invoke_xml: String },
    /// Stop a pipeline with its terminate signal.
    KillPipeline { pipeline: PipelineHandle, kill_xml: String },
    /// Answer a server-initiated host call. The result is the rendered return
    /// value, `None` for a void method.
    SubmitHostResponse {
        submission: Submission<Option<String>>,
        scope: HostCallScope,
        call_id: i64,
        response_xml: String,
    },
    /// Cancel a pending host call (timeout or user cancel): answered with an error.
    CancelHostCall { scope: HostCallScope, call_id: i64, reason: Option<String>, response_xml: String },
    /// Disconnect the runspace pool's shell (MS-WSMV Disconnect).
    Disconnect { disconnect_xml: String },
    /// Reconnect a disconnected shell (MS-WSMV Reconnect).
    Reconnect { reconnect_xml: String },
}

impl UserOperation {
    pub open spec fn is_kill(self) -> bool {
        self is KillPipeline
    }

    pub fn operation_type(&self) -> (r: &'static str)
        ensures
            r@ == match self {
                UserOperation::InvokeWithSpec { .. } => "InvokeWithSpec"@,
                UserOperation::KillPipeline { .. } => "KillPipeline"@,
                UserOperation::SubmitHostResponse { .. } => "SubmitHostResponse"@,
                UserOperation::CancelHostCall { .. } => "CancelHostCall"@,
                UserOperation::Disconnect { .. } => "Disconnect"@,
                UserOperation::Reconnect { .. } => "Reconnect"@,
            },
    {
        match self {
            UserOperation::InvokeWithSpec { .. } => "InvokeWithSpec",
            UserOperation::KillPipeline { .. } => "KillPipeline",
            UserOperation::SubmitHostResponse { .. } => "SubmitHostResponse",
            UserOperation::CancelHostCall { .. } => "CancelHostCall",
            UserOperation::Disconnect { .. } => "Disconnect",
            UserOperation::Reconnect { .. } => "Reconnect",
        }
    }
}

/// Outcome of a transport-level failure on an in-flight connection, judged
/// against the disconnect/reconnect bookkeeping.
#[derive(Debug, Clone, Copy, PartialEq, Eq, Structural)]
pub enum TransportErrorDisposition {
    /// Unexpected failure; the session cannot continue.
    Fatal,
    /// Failure of a dying or stale connection around a disconnect; ignored.
    Tolerated,
    /// The Disconnect request itself failed; the pool reverted to `Opened`.
    DisconnectAborted,
    /// The Reconnect request itself failed; the pool reverted to `Disconnected`.
    ReconnectAborted,
}

/// How a server response continues once the connection pool accepted it.
pub enum ResponseStep {
    /// Nothing left to parse: route these outputs.
    Outputs(Vec<ActiveSessionOutput>),
    /// A response while a Disconnect is in flight: parse the envelope and hand
    /// it to [`ActiveSession::accept_response_while_disconnecting`].
    WhileDisconnecting { xml_body: String, conn_id: ConnectionId },
    /// A response while a Reconnect is in flight: parse the envelope and hand
    /// it to [`ActiveSession::accept_response_while_connecting`].
    WhileConnecting { xml_body: String, conn_id: ConnectionId },
    /// Ordinary PSRP traffic: feed the envelope to the PSRP layer and hand its
    /// results to [`ActiveSession::accept_psrp_results`].
    Psrp { xml_body: String },
}

/// A list of one output.
pub fn one_output(o: ActiveSessionOutput) -> (v: Vec<ActiveSessionOutput>)
    ensures
        v@ == seq![o],
{
    let mut v: Vec<ActiveSessionOutput> = Vec::new();
    v.push(o);
    v
}

/// A list of two outputs, in order.
pub fn two_outputs(a: ActiveSessionOutput, b: ActiveSessionOutput) -> (v: Vec<ActiveSessionOutput>)
    ensures
        v@ == seq![a, b],
{
    let mut v: Vec<ActiveSessionOutput> = Vec::new();
    v.push(a);
    v.push(b);
    v
}

/// The output that one PSRP result becomes; for `SendThenReceive`, `ts` is
/// what sending its envelope gave.
pub open spec fn output_for(res: AcceptResponsResult, out: ActiveSessionOutput) -> bool {
    match res {
        AcceptResponsResult::ReceiveResponse { desired_streams } => out matches ActiveSessionOutput::PendingReceive {
            desired_streams: d,
        } && d@ == desired_streams@,
        AcceptResponsResult::SendThenReceive { desired_streams, .. } => out matches ActiveSessionOutput::SendAndThenReceive {
            then_receive_streams: d,
            ..
        } && d@ == desired_streams@,
        AcceptResponsResult::PipelineCreated(h) => out == ActiveSessionOutput::UserEvent(
            UserEvent::PipelineCreated { pipeline: h },
        ),
        AcceptResponsResult::PipelineFinished(h) => out == ActiveSessionOutput::UserEvent(
            UserEvent::PipelineFinished { pipeline: h },
        ),
        AcceptResponsResult::HostCall(hc) => out == ActiveSessionOutput::HostCall(hc),
        AcceptResponsResult::PipelineOutput { output, handle } => out == ActiveSessionOutput::UserEvent(
            UserEvent::PipelineOutput { pipeline: handle, output },
        ),
        AcceptResponsResult::ErrorRecord { error_record, handle } => out == ActiveSessionOutput::UserEvent(
            UserEvent::ErrorRecord { error_record, handle },
        ),
        AcceptResponsResult::PipelineRecord { record, handle } => out == ActiveSessionOutput::UserEvent(
            UserEvent::PipelineRecord { pipeline: handle, record },
        ),
    }
}

/// The outputs with priority `p`, in their order.
pub open spec fn with_priority(s: Seq<ActiveSessionOutput>, p: u8) -> Seq<ActiveSessionOutput> {
    s.filter(|o: ActiveSessionOutput| o.spec_priority() == p)
}

/// The outputs stably ordered by priority.
pub open spec fn by_priority(s: Seq<ActiveSessionOutput>) -> Seq<ActiveSessionOutput> {
    with_priority(s, 1) + with_priority(s, 2) + with_priority(s, 3) + with_priority(s, 4)
        + with_priority(s, 5) + with_priority(s, 6)
}

proof fn lemma_with_priority_push(s: Seq<ActiveSessionOutput>, o: ActiveSessionOutput, p: u8)
    ensures
        with_priority(s.push(o), p) == if o.spec_priority() == p {
            with_priority(s, p).push(o)
        } else {
            with_priority(s, p)
        },
{
    reveal(Seq::filter);
    assert(s.push(o).drop_last() =~= s);
}

/// Whether the outputs come in nondecreasing priority.
pub open spec fn priority_sorted(s: Seq<ActiveSessionOutput>) -> bool {
    forall|i: int, j: int|
        0 <= i < j < s.len() ==> #[trigger] s[i].spec_priority() <= #[trigger] s[j].spec_priority()
}

/// Every output of `s` has priority at most `p`.
pub open spec fn priority_at_most(s: Seq<ActiveSessionOutput>, p: u8) -> bool {
    forall|i: int| 0 <= i < s.len() ==> #[trigger] s[i].spec_priority() <= p
}

proof fn lemma_with_priority_exact(s: Seq<ActiveSessionOutput>, p: u8)
    ensures
        forall|i: int| 0 <= i < with_priority(s, p).len() ==> #[trigger] with_priority(s, p)[i].spec_priority() == p,
{
    broadcast use vstd::seq_lib::group_filter_ensures;
}

proof fn lemma_sorted_append_block(a: Seq<ActiveSessionOutput>, b: Seq<ActiveSessionOutput>, p: u8)
    requires
        priority_sorted(a),
        priority_at_most(a, p),
        forall|i: int| 0 <= i < b.len() ==> #[trigger] b[i].spec_priority() == p,
    ensures
        priority_sorted(a + b),
        priority_at_most(a + b, p),
{
    let c = a + b;
    assert forall|i: int, j: int| 0 <= i < j < c.len() implies #[trigger] c[i].spec_priority() <= #[trigger] c[j].spec_priority() by {
        if j < a.len() {
            assert(c[i] == a[i] && c[j] == a[j]);
        } else if i < a.len() {
            assert(c[i] == a[i] && c[j] == b[j - a.len()]);
        } else {
            assert(c[i] == b[i - a.len()] && c[j] == b[j - a.len()]);
        }
    }
    assert forall|i: int| 0 <= i < c.len() implies #[trigger] c[i].spec_priority() <= p by {
        if i < a.len() {
            assert(c[i] == a[i]);
        } else {
            assert(c[i] == b[i - a.len()]);
        }
    }
}

/// The multiset of the outputs, block by block.
pub open spec fn blocks_multiset(s: Seq<ActiveSessionOutput>) -> vstd::multiset::Multiset<ActiveSessionOutput> {
    with_priority(s, 1).to_multiset().add(with_priority(s, 2).to_multiset()).add(with_priority(s, 3).to_multiset()).add(
        with_priority(s, 4).to_multiset(),
    ).add(with_priority(s, 5).to_multiset()).add(with_priority(s, 6).to_multiset())
}

proof fn lemma_blocks_multiset(s: Seq<ActiveSessionOutput>)
    ensures
        blocks_multiset(s) == s.to_multiset(),
    decreases s.len(),
{
    broadcast use vstd::multiset::group_multiset_axioms;
    broadcast use vstd::seq_lib::group_to_multiset_ensures;

    if s.len() == 0 {
        reveal(Seq::filter);
        assert(blocks_multiset(s) =~= s.to_multiset());
    } else {
        let t = s.drop_last();
        let o = s.last();
        assert(t.push(o) =~= s);
        lemma_blocks_multiset(t);
        lemma_with_priority_push(t, o, 1);
        lemma_with_priority_push(t, o, 2);
        lemma_with_priority_push(t, o, 3);
        lemma_with_priority_push(t, o, 4);
        lemma_with_priority_push(t, o, 5);
        lemma_with_priority_push(t, o, 6);
        assert(blocks_multiset(s) =~= blocks_multiset(t).insert(o));
    }
}

/// The outputs of a response are handed on in order of priority, and none is lost or
/// added: the order is a permutation of the outputs that sorts them by priority.
pub proof fn lemma_by_priority_sorts(s: Seq<ActiveSessionOutput>)
    ensures
        priority_sorted(by_priority(s)),
        by_priority(s).to_multiset() == s.to_multiset(),
{
    lemma_with_priority_exact(s, 1);
    lemma_with_priority_exact(s, 2);
    lemma_with_priority_exact(s, 3);
    lemma_with_priority_exact(s, 4);
    lemma_with_priority_exact(s, 5);
    lemma_with_priority_exact(s, 6);
    let e = Seq::<ActiveSessionOutput>::empty();
    assert(e + with_priority(s, 1) =~= with_priority(s, 1));
    lemma_sorted_append_block(e, with_priority(s, 1), 1);
    let a1 = with_priority(s, 1);
    lemma_sorted_append_block(a1, with_priority(s, 2), 2);
    let a2 = a1 + with_priority(s, 2);
    lemma_sorted_append_block(a2, with_priority(s, 3), 3);
    let a3 = a2 + with_priority(s, 3);
    lemma_sorted_append_block(a3, with_priority(s, 4), 4);
    let a4 = a3 + with_priority(s, 4);
    lemma_sorted_append_block(a4, with_priority(s, 5), 5);
    let a5 = a4 + with_priority(s, 5);
    lemma_sorted_append_block(a5, with_priority(s, 6), 6);
    lemma_blocks_multiset(s);
    vstd::seq_lib::lemma_multiset_commutative(a1, with_priority(s, 2));
    vstd::seq_lib::lemma_multiset_commutative(a2, with_priority(s, 3));
    vstd::seq_lib::lemma_multiset_commutative(a3, with_priority(s, 4));
    vstd::seq_lib::lemma_multiset_commutative(a4, with_priority(s, 5));
    vstd::seq_lib::lemma_multiset_commutative(a5, with_priority(s, 6));
}

/// Orders the outputs of one response stably by priority.
pub fn sort_outputs(outputs: Vec<ActiveSessionOutput>) -> (r: Vec<ActiveSessionOutput>)
    ensures
        r@ == by_priority(outputs@),
{
    let ghost all = outputs@;
    let mut rest = outputs;
    let mut b1: Vec<ActiveSessionOutput> = Vec::new();
    let mut b2: Vec<ActiveSessionOutput> = Vec::new();
    let mut b3: Vec<ActiveSessionOutput> = Vec::new();
    let mut b4: Vec<ActiveSessionOutput> = Vec::new();
    let mut b5: Vec<ActiveSessionOutput> = Vec::new();
    let mut b6: Vec<ActiveSessionOutput> = Vec::new();
    let ghost mut done: Seq<ActiveSessionOutput> = Seq::empty();
    proof {
        reveal(Seq::filter);
    }
    while rest.len() > 0
        invariant
            done + rest@ == all,
            b1@ == with_priority(done, 1),
            b2@ == with_priority(done, 2),
            b3@ == with_priority(done, 3),
            b4@ == with_priority(done, 4),
            b5@ == with_priority(done, 5),
            b6@ == with_priority(done, 6),
        decreases rest.len(),
    {
        let ghost before = rest@;
        let o = rest.remove(0);
        proof {
            assert(before =~= seq![o] + rest@);
            assert(done.push(o) + rest@ =~= done + before);
            lemma_with_priority_push(done, o, 1);
            lemma_with_priority_push(done, o, 2);
            lemma_with_priority_push(done, o, 3);
            lemma_with_priority_push(done, o, 4);
            lemma_with_priority_push(done, o, 5);
            lemma_with_priority_push(done, o, 6);
            done = done.push(o);
        }
        let p = o.priority();
        if p == 1 {
            b1.push(o);
        } else if p == 2 {
            b2.push(o);
        } else if p == 3 {
            b3.push(o);
        } else if p == 4 {
            b4.push(o);
        } else if p == 5 {
            b5.push(o);
        } else {
            b6.push(o);
        }
    }
    proof {
        assert(done + rest@ =~= done);
    }
    b1.append(&mut b2);
    b1.append(&mut b3);
    b1.append(&mut b4);
    b1.append(&mut b5);
    b1.append(&mut b6);
    b1
}

/// The connection id an optional tracked connection has.
pub open spec fn conn_of(c: Option<ConnectionId>) -> Option<u32> {
    match c {
        Some(c) => Some(c.spec_id()),
        None => None,
    }
}

/// Two runspace pools that differ at most in their state.
pub open spec fn same_but_state(a: RunspacePool, b: RunspacePool) -> bool {
    &&& a.id == b.id
    &&& a.shell() == b.shell()
    &&& a.pipelines_view() == b.pipelines_view()
    &&& a.desired_stream_is_pooling == b.desired_stream_is_pooling
    &&& a.wf() == b.wf()
}

/// The single request an operation sends: `SendBack` with what the pool's
/// `send` gave for `xml`, or the error it gave.
pub open spec fn sent_one(
    old_pool: ConnectionPool,
    new_pool: ConnectionPool,
    xml: Seq<char>,
    r: Result<ActiveSessionOutput, PwshCoreError>,
) -> bool {
    match r {
        Ok(ActiveSessionOutput::SendBack(v)) => v@.len() == 1 && send_outcome(old_pool, new_pool, xml, Ok(v@[0])),
        Err(e) => send_outcome(old_pool, new_pool, xml, Err(e)),
        _ => false,
    }
}

/// The streams Received after a host response: the standard output of the
/// pipeline, or of the pool.
pub open spec fn answer_streams(scope: HostCallScope, s: Seq<DesiredStream>) -> bool {
    &&& s.len() == 1
    &&& match scope {
        HostCallScope::Pipeline { command_id } => is_stdout_of(s[0], Some(command_id)),
        HostCallScope::RunspacePool => is_stdout_of(s[0], None),
    }
}

/// A host response sent with `xml`, then a Receive on the scope's stream.
pub open spec fn sent_answer(
    old_pool: ConnectionPool,
    new_pool: ConnectionPool,
    xml: Seq<char>,
    scope: HostCallScope,
    r: Result<ActiveSessionOutput, PwshCoreError>,
) -> bool {
    match r {
        Ok(ActiveSessionOutput::SendAndThenReceive { send_request, then_receive_streams }) => answer_streams(
            scope,
            then_receive_streams@,
        ) && send_outcome(old_pool, new_pool, xml, Ok(send_request)),
        Err(e) => send_outcome(old_pool, new_pool, xml, Err(e)),
        _ => false,
    }
}

/// Manages the operations after connect and produces requests for the caller to send.
pub struct ActiveSession {
    runspace_pool: RunspacePool,
    connection_pool: ConnectionPool,
    /// Connection carrying an in-flight Disconnect, so that a fault answering it
    /// is told apart from the dying in-flight Receive.
    disconnect_conn_id: Option<ConnectionId>,
    /// Connection carrying an in-flight Reconnect, so that late responses to
    /// traffic from before the disconnect are not taken for its answer.
    reconnect_conn_id: Option<ConnectionId>,
    /// Connections in flight when a Disconnect was issued: their one straggling
    /// completion or error is ignored in every state.
    retired_conn_ids: HashSet<u32>,
}

impl ActiveSession {
    pub closed spec fn runspace(&self) -> RunspacePool {
        self.runspace_pool
    }

    pub closed spec fn conns(&self) -> ConnectionPool {
        self.connection_pool
    }

    pub closed spec fn disconnect_conn(&self) -> Option<u32> {
        conn_of(self.disconnect_conn_id)
    }

    pub closed spec fn reconnect_conn(&self) -> Option<u32> {
        conn_of(self.reconnect_conn_id)
    }

    pub closed spec fn retired(&self) -> Set<u32> {
        self.retired_conn_ids@
    }

    pub open spec fn pool_state(&self) -> RunspacePoolState {
        self.runspace().state
    }

    pub closed spec fn wf(&self) -> bool {
        &&& self.connection_pool.wf()
        &&& self.runspace_pool.wf()
    }

    /// Nothing changed.
    pub open spec fn unchanged(&self, old: &Self) -> bool {
        &&& same_but_state(self.runspace(), old.runspace())
        &&& self.pool_state() == old.pool_state()
        &&& self.conns() == old.conns()
        &&& self.disconnect_conn() == old.disconnect_conn()
        &&& self.reconnect_conn() == old.reconnect_conn()
        &&& self.retired() == old.retired()
    }

    pub fn new(runspace_pool: RunspacePool, connection_pool: ConnectionPool) -> (r: Self)
        requires
            runspace_pool.wf(),
            connection_pool.wf(),
        ensures
            r.wf(),
            r.runspace() == runspace_pool,
            r.conns() == connection_pool,
            r.disconnect_conn() is None,
            r.reconnect_conn() is None,
            r.retired() == Set::<u32>::empty(),
    {
        ActiveSession {
            runspace_pool,
            connection_pool,
            disconnect_conn_id: None,
            reconnect_conn_id: None,
            retired_conn_ids: HashSet::new(),
        }
    }

    /// Marks connections as retired: their next completion or transport error
    /// is a doomed straggler (the long-poll Receive in flight when a Disconnect
    /// was issued) and is ignored in any state.
    pub fn retire_connections(&mut self, conns: Vec<ConnectionId>)
        ensures
            final(self).wf() == old(self).wf(),
            final(self).runspace() == old(self).runspace(),
            final(self).conns() == old(self).conns(),
            final(self).disconnect_conn() == old(self).disconnect_conn(),
            final(self).reconnect_conn() == old(self).reconnect_conn(),
            forall|k: u32| #[trigger] final(self).retired().contains(k) <==> (old(self).retired().contains(k)
                || exists|i: int| 0 <= i < conns@.len() && (#[trigger] conns@[i]).spec_id() == k),
    {
        let mut i: usize = 0;
        while i < conns.len()
            invariant
                i <= conns@.len(),
                self.runspace_pool == old(self).runspace_pool,
                self.connection_pool == old(self).connection_pool,
                self.disconnect_conn_id == old(self).disconnect_conn_id,
                self.reconnect_conn_id == old(self).reconnect_conn_id,
                forall|k: u32| #[trigger] self.retired_conn_ids@.contains(k) <==> (old(self).retired_conn_ids@.contains(k)
                    || exists|j: int| 0 <= j < i && (#[trigger] conns@[j]).spec_id() == k),
            decreases conns@.len() - i,
        {
            let id = conns[i].inner();
            self.retired_conn_ids.insert(id);
            proof {
                assert forall|k: u32| #[trigger] self.retired_conn_ids@.contains(k) <==> (old(self).retired_conn_ids@.contains(k)
                    || exists|j: int| 0 <= j < i + 1 && (#[trigger] conns@[j]).spec_id() == k) by {
                    if k == id {
                        assert(conns@[i as int].spec_id() == k);
                    }
                }
            }
            i = i + 1;
        }
    }

    /// The runspace pool's state (the session loop watches it for disconnect
    /// and reconnect transitions).
    pub fn runspace_pool_state(&self) -> (r: RunspacePoolState)
        ensures
            r == self.pool_state(),
    {
        self.runspace_pool.state
    }

    /// The shell id the server assigned, once the shell exists.
    pub fn shell_id(&self) -> (r: Option<String>)
        ensures
            match r {
                Some(s) => self.runspace().shell() == Some(s@),
                None => self.runspace().shell() is None,
            },
    {
        match self.runspace_pool.shell_id() {
            Some(s) => Some(s.to_string()),
            None => None,
        }
    }

    /// The runspace pool, for the PSRP layer that reads the envelopes of a
    /// response into results; everything else of the session stays as it is,
    /// and the session stays well-formed as long as the pool does.
    pub fn runspace_pool_mut(&mut self) -> (r: &mut RunspacePool)
        ensures
            *r == old(self).runspace(),
            final(self).runspace() == *final(r),
            final(self).conns() == old(self).conns(),
            final(self).disconnect_conn() == old(self).disconnect_conn(),
            final(self).reconnect_conn() == old(self).reconnect_conn(),
            final(self).retired() == old(self).retired(),
            (old(self).wf() && final(r).wf()) ==> final(self).wf(),
    {
        &mut self.runspace_pool
    }

    /// Sends a Receive envelope for the session loop.
    pub fn fire_receive(&mut self, receive_xml: &str) -> (r: Result<TrySend, PwshCoreError>)
        requires
            old(self).wf(),
        ensures
            final(self).wf(),
            send_outcome(old(self).conns(), final(self).conns(), receive_xml@, r),
            final(self).runspace() == old(self).runspace(),
            final(self).disconnect_conn() == old(self).disconnect_conn(),
            final(self).reconnect_conn() == old(self).reconnect_conn(),
            final(self).retired() == old(self).retired(),
    {
        self.connection_pool.send(receive_xml)
    }

    /// Classifies a transport-level error (a TCP reset, say) on an in-flight
    /// connection. A retired straggler is tolerated in any state. While a
    /// Disconnect is in flight, or the shell is disconnected, a dying
    /// connection's failure is tolerated; a failure of the connection carrying
    /// the Disconnect or Reconnect itself aborts that operation, so that the
    /// pool does not stay in a transitional state. Any other failure is fatal.
    pub fn handle_transport_error(&mut self, conn_id: ConnectionId) -> (r: TransportErrorDisposition)
        requires
            old(self).wf(),
        ensures
            final(self).wf(),
            final(self).conns() == old(self).conns(),
            same_but_state(final(self).runspace(), old(self).runspace()),
            ({
                let c = conn_id.spec_id();
                let st = old(self).pool_state();
                if old(self).retired().contains(c) {
                    &&& r == TransportErrorDisposition::Tolerated
                    &&& final(self).retired() == old(self).retired().remove(c)
                    &&& final(self).pool_state() == st
                    &&& final(self).disconnect_conn() == old(self).disconnect_conn()
                    &&& final(self).reconnect_conn() == old(self).reconnect_conn()
                } else {
                    &&& final(self).retired() == old(self).retired()
                    &&& if st == RunspacePoolState::Disconnecting && old(self).disconnect_conn() == Some(c) {
                        &&& r == TransportErrorDisposition::DisconnectAborted
                        &&& final(self).pool_state() == RunspacePoolState::Opened
                        &&& final(self).disconnect_conn() is None
                        &&& final(self).reconnect_conn() == old(self).reconnect_conn()
                    } else if st == RunspacePoolState::Connecting && old(self).reconnect_conn() == Some(c) {
                        &&& r == TransportErrorDisposition::ReconnectAborted
                        &&& final(self).pool_state() == RunspacePoolState::Disconnected
                        &&& final(self).reconnect_conn() is None
                        &&& final(self).disconnect_conn() == old(self).disconnect_conn()
                    } else {
                        &&& r == (if st == RunspacePoolState::Disconnecting || st == RunspacePoolState::Disconnected
                            || st == RunspacePoolState::Connecting {
                            TransportErrorDisposition::Tolerated
                        } else {
                            TransportErrorDisposition::Fatal
                        })
                        &&& final(self).pool_state() == st
                        &&& final(self).disconnect_conn() == old(self).disconnect_conn()
                        &&& final(self).reconnect_conn() == old(self).reconnect_conn()
                    }
                }
            }),
    {
        let c = conn_id.inner();
        if self.retired_conn_ids.remove(&c) {
            return TransportErrorDisposition::Tolerated;
        }
        assert(self.retired_conn_ids@ =~= old(self).retired_conn_ids@);
        let st = self.runspace_pool.state;
        let on_disconnect = match self.disconnect_conn_id {
            Some(d) => d.inner() == c,
            None => false,
        };
        let on_reconnect = match self.reconnect_conn_id {
            Some(d) => d.inner() == c,
            None => false,
        };
        if st == RunspacePoolState::Disconnecting && on_disconnect {
            self.disconnect_conn_id = None;
            self.runspace_pool.abort_disconnect();
            TransportErrorDisposition::DisconnectAborted
        } else if st == RunspacePoolState::Disconnecting || st == RunspacePoolState::Disconnected {
            TransportErrorDisposition::Tolerated
        } else if st == RunspacePoolState::Connecting && on_reconnect {
            self.reconnect_conn_id = None;
            self.runspace_pool.abort_reconnect();
            TransportErrorDisposition::ReconnectAborted
        } else if st == RunspacePoolState::Connecting {
            TransportErrorDisposition::Tolerated
        } else {
            TransportErrorDisposition::Fatal
        }
    }

    /// A user operation becomes a request on the connection pool, or a user event.
    pub fn accept_client_operation(&mut self, operation: UserOperation) -> (r: Result<
        ActiveSessionOutput,
        PwshCoreError,
    >)
        requires
            old(self).wf(),
        ensures
            final(self).wf(),
            client_op_outcome(*old(self), *final(self), operation, r),
    {
        match operation {
            UserOperation::InvokeWithSpec { uuid, invoke_xml } => {
                if self.runspace_pool.state != RunspacePoolState::Opened {
                    return Ok(
                        ActiveSessionOutput::UserEvent(UserEvent::PipelineFinished { pipeline: PipelineHandle::new(uuid) }),
                    );
                }
                self.runspace_pool.init_pipeline(uuid)?;
                let ts = self.connection_pool.send(invoke_xml.as_str())?;
                Ok(ActiveSessionOutput::SendBack(vec![ts]))
            },
            UserOperation::KillPipeline { pipeline, kill_xml } => {
                match self.runspace_pool.kill_pipeline(pipeline.id()) {
                    Ok(()) => {},
                    Err(_) => {
                        return Ok(ActiveSessionOutput::Ignore);
                    },
                }
                let ts = self.connection_pool.send(kill_xml.as_str())?;
                Ok(ActiveSessionOutput::SendBack(vec![ts]))
            },
            UserOperation::SubmitHostResponse { submission, scope, response_xml, .. } => {
                match submission {
                    Submission::Send(resp) => {
                        if resp.method_result.is_none() {
                            return Ok(ActiveSessionOutput::OperationSuccess);
                        }
                        self.send_host_answer(scope, response_xml.as_str())
                    },
                    Submission::NoSend => Ok(ActiveSessionOutput::OperationSuccess),
                }
            },
            UserOperation::CancelHostCall { scope, response_xml, .. } => {
                self.send_host_answer(scope, response_xml.as_str())
            },
            UserOperation::Disconnect { disconnect_xml } => {
                match self.runspace_pool.fire_disconnect() {
                    Ok(()) => {},
                    Err(_) => {
                        return Ok(ActiveSessionOutput::Ignore);
                    },
                }
                let ts = self.connection_pool.send(disconnect_xml.as_str())?;
                self.disconnect_conn_id = Some(ts.get_connection_id());
                Ok(ActiveSessionOutput::SendBack(vec![ts]))
            },
            UserOperation::Reconnect { reconnect_xml } => {
                match self.runspace_pool.fire_reconnect() {
                    Ok(()) => {},
                    Err(_) => {
                        return Ok(ActiveSessionOutput::Ignore);
                    },
                }
                let ts = self.connection_pool.send(reconnect_xml.as_str())?;
                self.reconnect_conn_id = Some(ts.get_connection_id());
                Ok(ActiveSessionOutput::SendBack(vec![ts]))
            },
        }
    }

    /// A server response: a retired connection's straggler is ignored; else the
    /// connection pool unseals it (or answers it with requests to send), and the
    /// runspace pool's state decides how its envelope is read.
    pub fn accept_server_response(&mut self, response: HttpResponseTargeted) -> (r: Result<ResponseStep, PwshCoreError>)
        requires
            old(self).wf(),
        ensures
            final(self).wf(),
            ({
                let c = response.connection_id.spec_id();
                if old(self).retired().contains(c) {
                    &&& r matches Ok(ResponseStep::Outputs(v)) && v@ == seq![ActiveSessionOutput::Ignore]
                    &&& final(self).retired() == old(self).retired().remove(c)
                    &&& final(self).conns() == old(self).conns()
                    &&& same_but_state(final(self).runspace(), old(self).runspace())
                    &&& final(self).pool_state() == old(self).pool_state()
                    &&& final(self).disconnect_conn() == old(self).disconnect_conn()
                    &&& final(self).reconnect_conn() == old(self).reconnect_conn()
                } else {
                    exists|pr: Result<ConnectionPoolAccept, PwshCoreError>|
                        accept_outcome(old(self).conns(), response, final(self).conns(), pr) && #[trigger] step_for(
                            *old(self),
                            *final(self),
                            c,
                            pr,
                            r,
                        )
                }
            }),
    {
        let conn_id = response.connection_id;
        let c = conn_id.inner();
        if self.retired_conn_ids.remove(&c) {
            return Ok(ResponseStep::Outputs(vec![ActiveSessionOutput::Ignore]));
        }
        assert(self.retired_conn_ids@ =~= old(self).retired_conn_ids@);
        let accepted = self.connection_pool.accept(response);
        let ghost pr = accepted;
        let accepted = match accepted {
            Ok(a) => a,
            Err(e) => {
                assert(step_for(*old(self), *self, c, pr, Err(e)));
                return Err(e);
            },
        };
        let st = self.runspace_pool.state;
        match accepted {
            ConnectionPoolAccept::Body(xml_body) => {
                let step = if st == RunspacePoolState::Disconnecting {
                    ResponseStep::WhileDisconnecting { xml_body, conn_id }
                } else if st == RunspacePoolState::Disconnected {
                    // Late traffic of connections in flight when the shell was disconnected.
                    let v = vec![ActiveSessionOutput::Ignore];
                    assert(v@ =~= seq![ActiveSessionOutput::Ignore]);
                    ResponseStep::Outputs(v)
                } else if st == RunspacePoolState::Connecting {
                    ResponseStep::WhileConnecting { xml_body, conn_id }
                } else {
                    ResponseStep::Psrp { xml_body }
                };
                assert(step_for(*old(self), *self, c, pr, Ok(step)));
                Ok(step)
            },
            ConnectionPoolAccept::SendBack(reqs) => {
                let on_disconnect = match self.disconnect_conn_id {
                    Some(d) => d.inner() == c,
                    None => false,
                };
                let on_reconnect = match self.reconnect_conn_id {
                    Some(d) => d.inner() == c,
                    None => false,
                };
                if st == RunspacePoolState::Disconnecting && on_disconnect {
                    // A re-authentication moved the Disconnect to a fresh connection: follow it.
                    if reqs.len() > 0 {
                        self.disconnect_conn_id = Some(reqs[0].get_connection_id());
                    }
                } else if st == RunspacePoolState::Connecting && on_reconnect {
                    if reqs.len() > 0 {
                        self.reconnect_conn_id = Some(reqs[0].get_connection_id());
                    }
                } else if st == RunspacePoolState::Disconnecting || st == RunspacePoolState::Disconnected || st
                    == RunspacePoolState::Connecting {
                    // A retry of untracked traffic around a disconnect is dropped.
                    let v = vec![ActiveSessionOutput::Ignore];
                    assert(v@ =~= seq![ActiveSessionOutput::Ignore]);
                    let step = ResponseStep::Outputs(v);
                    assert(step_for(*old(self), *self, c, pr, Ok(step)));
                    return Ok(step);
                }
                let ghost reqs_g = reqs;
                let v = vec![ActiveSessionOutput::SendBack(reqs)];
                assert(v@ =~= seq![ActiveSessionOutput::SendBack(reqs_g)]);
                let step = ResponseStep::Outputs(v);
                assert(step_for(*old(self), *self, c, pr, Ok(step)));
                Ok(step)
            },
        }
    }

    /// A response while a Disconnect is in flight. Only the tracked Disconnect
    /// connection may complete or abort the disconnect; other traffic (the
    /// dying in-flight Receive) is ignored. A fault or a wrong answer on the
    /// Disconnect connection aborts the disconnect: the pool is `Opened` again
    /// and a Receive on its active streams is asked for.
    pub fn accept_response_while_disconnecting(&mut self, env: &ResponseEnvelope, conn_id: ConnectionId) -> (r: Result<
        Vec<ActiveSessionOutput>,
        PwshCoreError,
    >)
        requires
            old(self).wf(),
        ensures
            disconnecting_outcome(*old(self), *final(self), *env, conn_id, r),
    {
        let on_disconnect = match self.disconnect_conn_id {
            Some(d) => d.inner() == conn_id.inner(),
            None => false,
        };
        if !on_disconnect {
            return Ok(one_output(ActiveSessionOutput::Ignore));
        }
        match self.runspace_pool.accept_disconnect_response(env) {
            Ok(()) => {
                self.disconnect_conn_id = None;
                Ok(one_output(ActiveSessionOutput::OperationSuccess))
            },
            Err(PwshCoreError::InvalidResponse(_)) | Err(PwshCoreError::SoapFault { .. }) => {
                self.disconnect_conn_id = None;
                self.runspace_pool.abort_disconnect();
                // The pool is Opened again, but the Receive from before the disconnect was retired.
                let streams = self.runspace_pool.compute_active_desired_streams();
                Ok(one_output(ActiveSessionOutput::PendingReceive { desired_streams: streams }))
            },
            Err(e) => Err(e),
        }
    }

    /// A response while a Reconnect is in flight. Only the tracked Reconnect
    /// connection may complete it; other traffic is dropped. On success a
    /// Receive on the active streams resumes the receive loop; a fault or a
    /// wrong answer reverts the pool to `Disconnected`.
    pub fn accept_response_while_connecting(&mut self, env: &ResponseEnvelope, conn_id: ConnectionId) -> (r: Result<
        Vec<ActiveSessionOutput>,
        PwshCoreError,
    >)
        requires
            old(self).wf(),
        ensures
            connecting_outcome(*old(self), *final(self), *env, conn_id, r),
    {
        let on_reconnect = match self.reconnect_conn_id {
            Some(d) => d.inner() == conn_id.inner(),
            None => false,
        };
        if !on_reconnect {
            return Ok(one_output(ActiveSessionOutput::Ignore));
        }
        match self.runspace_pool.accept_reconnect_response(env) {
            Ok(()) => {
                self.reconnect_conn_id = None;
                let streams = self.runspace_pool.compute_active_desired_streams();
                Ok(two_outputs(ActiveSessionOutput::OperationSuccess, ActiveSessionOutput::PendingReceive { desired_streams: streams }))
            },
            Err(PwshCoreError::InvalidResponse(_)) | Err(PwshCoreError::SoapFault { .. }) => {
                self.reconnect_conn_id = None;
                self.runspace_pool.abort_reconnect();
                Ok(one_output(ActiveSessionOutput::Ignore))
            },
            Err(e) => Err(e),
        }
    }

    /// Turns what the PSRP layer read from an envelope into outputs, one per
    /// result and ordered by priority; a result that sends an envelope sends it
    /// on the connection pool.
    pub fn accept_psrp_results(&mut self, results: Vec<AcceptResponsResult>) -> (r: Result<
        Vec<ActiveSessionOutput>,
        PwshCoreError,
    >)
        requires
            old(self).wf(),
        ensures
            final(self).wf(),
            final(self).runspace() == old(self).runspace(),
            final(self).retired() == old(self).retired(),
            final(self).disconnect_conn() == old(self).disconnect_conn(),
            final(self).reconnect_conn() == old(self).reconnect_conn(),
            r is Ok ==> exists|u: Seq<ActiveSessionOutput>|
                u.len() == results@.len() && (forall|i: int| 0 <= i < u.len() ==> output_for(results@[i], #[trigger] u[i]))
                    && r->Ok_0@ == by_priority(u),
            r is Err ==> exists|i: int| 0 <= i < results@.len() && #[trigger] results@[i] is SendThenReceive,
    {
        let ghost all = results@;
        let mut rest = results;
        let mut outs: Vec<ActiveSessionOutput> = Vec::new();
        let ghost mut done: Seq<AcceptResponsResult> = Seq::empty();
        while rest.len() > 0
            invariant
                self.wf(),
                self.runspace_pool == old(self).runspace_pool,
                self.retired_conn_ids == old(self).retired_conn_ids,
                self.disconnect_conn_id == old(self).disconnect_conn_id,
                self.reconnect_conn_id == old(self).reconnect_conn_id,
                done + rest@ == all,
                all == results@,
                outs@.len() == done.len(),
                forall|i: int| 0 <= i < done.len() ==> output_for(done[i], #[trigger] outs@[i]),
            decreases rest.len(),
        {
            let ghost before = rest@;
            let res = rest.remove(0);
            proof {
                assert(before =~= seq![res] + rest@);
                assert(done.push(res) + rest@ =~= done + before);
                assert(all[done.len() as int] == res);
            }
            let out = match res {
                AcceptResponsResult::ReceiveResponse { desired_streams } => ActiveSessionOutput::PendingReceive {
                    desired_streams,
                },
                AcceptResponsResult::SendThenReceive { send_xml, desired_streams } => {
                    let sent = self.connection_pool.send(send_xml.as_str());
                    match sent {
                        Ok(ts) => ActiveSessionOutput::SendAndThenReceive {
                            send_request: ts,
                            then_receive_streams: desired_streams,
                        },
                        Err(e) => {
                            assert(results@[done.len() as int] is SendThenReceive);
                            return Err(e);
                        },
                    }
                },
                AcceptResponsResult::PipelineCreated(h) => ActiveSessionOutput::UserEvent(
                    UserEvent::PipelineCreated { pipeline: h },
                ),
                AcceptResponsResult::PipelineFinished(h) => ActiveSessionOutput::UserEvent(
                    UserEvent::PipelineFinished { pipeline: h },
                ),
                AcceptResponsResult::HostCall(hc) => ActiveSessionOutput::HostCall(hc),
                AcceptResponsResult::PipelineOutput { output, handle } => ActiveSessionOutput::UserEvent(
                    UserEvent::PipelineOutput { pipeline: handle, output },
                ),
                AcceptResponsResult::ErrorRecord { error_record, handle } => ActiveSessionOutput::UserEvent(
                    UserEvent::ErrorRecord { error_record, handle },
                ),
                AcceptResponsResult::PipelineRecord { record, handle } => ActiveSessionOutput::UserEvent(
                    UserEvent::PipelineRecord { pipeline: handle, record },
                ),
            };
            outs.push(out);
            proof {
                done = done.push(res);
            }
        }
        proof {
            assert(done =~= all);
        }
        let sorted = sort_outputs(outs);
        Ok(sorted)
    }

    /// Sends a host response, then asks for a Receive on the scope's stream.
    fn send_host_answer(&mut self, scope: HostCallScope, xml: &str) -> (r: Result<ActiveSessionOutput, PwshCoreError>)
        requires
            old(self).wf(),
        ensures
            final(self).wf(),
            sent_answer(old(self).conns(), final(self).conns(), xml@, scope, r),
            final(self).runspace() == old(self).runspace(),
            final(self).disconnect_conn() == old(self).disconnect_conn(),
            final(self).reconnect_conn() == old(self).reconnect_conn(),
            final(self).retired() == old(self).retired(),
    {
        let ts = self.connection_pool.send(xml)?;
        let streams = match scope {
            HostCallScope::Pipeline { command_id } => DesiredStream::pipeline_streams(command_id),
            HostCallScope::RunspacePool => DesiredStream::runspace_pool_streams(),
        };
        Ok(ActiveSessionOutput::SendAndThenReceive { send_request: ts, then_receive_streams: streams })
    }
}


/// What a user operation does to the session and what it answers.
pub open spec fn client_op_outcome(
    old_s: ActiveSession,
    new_s: ActiveSession,
    op: UserOperation,
    r: Result<ActiveSessionOutput, PwshCoreError>,
) -> bool {
    let state = old_s.pool_state();
    let tracked_same = new_s.disconnect_conn() == old_s.disconnect_conn() && new_s.reconnect_conn()
        == old_s.reconnect_conn() && new_s.retired() == old_s.retired();
    match op {
        UserOperation::InvokeWithSpec { uuid, invoke_xml } => if state != RunspacePoolState::Opened {
            // Only an Opened pool runs pipelines: the invocation is refused without a request,
            // and its pipeline reported finished so that the caller's stream closes.
            &&& r == Ok::<ActiveSessionOutput, PwshCoreError>(
                ActiveSessionOutput::UserEvent(UserEvent::PipelineFinished { pipeline: PipelineHandle { id: uuid } }),
            )
            &&& new_s.unchanged(&old_s)
        } else if exists|i: int|
            0 <= i < old_s.runspace().pipelines_view().len() && #[trigger] old_s.runspace().pipelines_view()[i].id
                == uuid {
            &&& r matches Err(PwshCoreError::InvalidState(_))
            &&& new_s.unchanged(&old_s)
        } else {
            &&& new_s.runspace().pipelines_view() == old_s.runspace().pipelines_view().push(
                PipelineEntry { id: uuid, state: PsInvocationState::NotStarted },
            )
            &&& new_s.runspace().state == state
            &&& new_s.runspace().id == old_s.runspace().id
            &&& new_s.runspace().shell() == old_s.runspace().shell()
            &&& new_s.runspace().desired_stream_is_pooling == old_s.runspace().desired_stream_is_pooling
            &&& sent_one(old_s.conns(), new_s.conns(), invoke_xml@, r)
            &&& tracked_same
        },
        UserOperation::KillPipeline { pipeline, kill_xml } => if exists|i: int|
            0 <= i < old_s.runspace().pipelines_view().len() && #[trigger] old_s.runspace().pipelines_view()[i].id
                == pipeline.id && !is_terminal(old_s.runspace().pipelines_view()[i].state) {
            &&& exists|i: int|
                0 <= i < old_s.runspace().pipelines_view().len() && #[trigger] old_s.runspace().pipelines_view()[i].id
                    == pipeline.id && new_s.runspace().pipelines_view() == old_s.runspace().pipelines_view().update(
                    i,
                    PipelineEntry { id: pipeline.id, state: PsInvocationState::Stopping },
                )
            &&& new_s.runspace().state == state
            &&& new_s.runspace().id == old_s.runspace().id
            &&& new_s.runspace().shell() == old_s.runspace().shell()
            &&& new_s.runspace().desired_stream_is_pooling == old_s.runspace().desired_stream_is_pooling
            &&& sent_one(old_s.conns(), new_s.conns(), kill_xml@, r)
            &&& tracked_same
        } else {
            // An unknown or finished pipeline is not signalled.
            &&& r == Ok::<ActiveSessionOutput, PwshCoreError>(ActiveSessionOutput::Ignore)
            &&& new_s.unchanged(&old_s)
        },
        UserOperation::SubmitHostResponse { submission, scope, response_xml, .. } => match submission {
            Submission::Send(resp) if resp.method_result is Some => {
                &&& sent_answer(old_s.conns(), new_s.conns(), response_xml@, scope, r)
                &&& new_s.runspace() == old_s.runspace()
                &&& tracked_same
            },
            // A void method: nothing to send.
            _ => r == Ok::<ActiveSessionOutput, PwshCoreError>(ActiveSessionOutput::OperationSuccess)
                && new_s.unchanged(&old_s),
        },
        UserOperation::CancelHostCall { scope, response_xml, .. } => {
            &&& sent_answer(old_s.conns(), new_s.conns(), response_xml@, scope, r)
            &&& new_s.runspace() == old_s.runspace()
            &&& tracked_same
        },
        UserOperation::Disconnect { disconnect_xml } => if state != RunspacePoolState::Opened {
            // A mistimed Disconnect is ignored.
            &&& r == Ok::<ActiveSessionOutput, PwshCoreError>(ActiveSessionOutput::Ignore)
            &&& new_s.unchanged(&old_s)
        } else {
            &&& new_s.pool_state() == RunspacePoolState::Disconnecting
            &&& same_but_state(new_s.runspace(), old_s.runspace())
            &&& sent_one(old_s.conns(), new_s.conns(), disconnect_xml@, r)
            &&& new_s.disconnect_conn() == match r {
                Ok(ActiveSessionOutput::SendBack(v)) => Some(v@[0].conn().spec_id()),
                _ => old_s.disconnect_conn(),
            }
            &&& new_s.reconnect_conn() == old_s.reconnect_conn()
            &&& new_s.retired() == old_s.retired()
        },
        UserOperation::Reconnect { reconnect_xml } => if state != RunspacePoolState::Disconnected {
            // A mistimed Reconnect is ignored.
            &&& r == Ok::<ActiveSessionOutput, PwshCoreError>(ActiveSessionOutput::Ignore)
            &&& new_s.unchanged(&old_s)
        } else {
            &&& new_s.pool_state() == RunspacePoolState::Connecting
            &&& same_but_state(new_s.runspace(), old_s.runspace())
            &&& sent_one(old_s.conns(), new_s.conns(), reconnect_xml@, r)
            &&& new_s.reconnect_conn() == match r {
                Ok(ActiveSessionOutput::SendBack(v)) => Some(v@[0].conn().spec_id()),
                _ => old_s.reconnect_conn(),
            }
            &&& new_s.disconnect_conn() == old_s.disconnect_conn()
            &&& new_s.retired() == old_s.retired()
        },
    }
}


/// How a response that the connection pool accepted as `pr` continues.
pub open spec fn step_for(
    old_s: ActiveSession,
    new_s: ActiveSession,
    c: u32,
    pr: Result<ConnectionPoolAccept, PwshCoreError>,
    r: Result<ResponseStep, PwshCoreError>,
) -> bool {
    let st = old_s.pool_state();
    &&& same_but_state(new_s.runspace(), old_s.runspace())
    &&& new_s.pool_state() == st
    &&& new_s.retired() == old_s.retired()
    &&& match pr {
        Err(e) => {
            &&& r == Err::<ResponseStep, PwshCoreError>(e)
            &&& new_s.disconnect_conn() == old_s.disconnect_conn()
            &&& new_s.reconnect_conn() == old_s.reconnect_conn()
        },
        Ok(ConnectionPoolAccept::Body(xml)) => {
            &&& new_s.disconnect_conn() == old_s.disconnect_conn()
            &&& new_s.reconnect_conn() == old_s.reconnect_conn()
            &&& if st == RunspacePoolState::Disconnecting {
                r matches Ok(ResponseStep::WhileDisconnecting { xml_body, conn_id }) && xml_body == xml
                    && conn_id.spec_id() == c
            } else if st == RunspacePoolState::Disconnected {
                r matches Ok(ResponseStep::Outputs(v)) && v@ == seq![ActiveSessionOutput::Ignore]
            } else if st == RunspacePoolState::Connecting {
                r matches Ok(ResponseStep::WhileConnecting { xml_body, conn_id }) && xml_body == xml
                    && conn_id.spec_id() == c
            } else {
                r matches Ok(ResponseStep::Psrp { xml_body }) && xml_body == xml
            }
        },
        Ok(ConnectionPoolAccept::SendBack(reqs)) => {
            let follow = if reqs@.len() > 0 {
                Some(reqs@[0].conn().spec_id())
            } else {
                None
            };
            if st == RunspacePoolState::Disconnecting && old_s.disconnect_conn() == Some(c) {
                &&& r matches Ok(ResponseStep::Outputs(v)) && v@ == seq![ActiveSessionOutput::SendBack(reqs)]
                &&& new_s.disconnect_conn() == (if follow is Some { follow } else { old_s.disconnect_conn() })
                &&& new_s.reconnect_conn() == old_s.reconnect_conn()
            } else if st == RunspacePoolState::Connecting && old_s.reconnect_conn() == Some(c) {
                &&& r matches Ok(ResponseStep::Outputs(v)) && v@ == seq![ActiveSessionOutput::SendBack(reqs)]
                &&& new_s.reconnect_conn() == (if follow is Some { follow } else { old_s.reconnect_conn() })
                &&& new_s.disconnect_conn() == old_s.disconnect_conn()
            } else {
                &&& new_s.disconnect_conn() == old_s.disconnect_conn()
                &&& new_s.reconnect_conn() == old_s.reconnect_conn()
                &&& if st == RunspacePoolState::Disconnecting || st == RunspacePoolState::Disconnected || st
                    == RunspacePoolState::Connecting {
                    r matches Ok(ResponseStep::Outputs(v)) && v@ == seq![ActiveSessionOutput::Ignore]
                } else {
                    r matches Ok(ResponseStep::Outputs(v)) && v@ == seq![ActiveSessionOutput::SendBack(reqs)]
                }
            }
        },
    }
}

/// What a response on `conn_id` does while a Disconnect is in flight.
pub open spec fn disconnecting_outcome(
    old_s: ActiveSession,
    new_s: ActiveSession,
    env: ResponseEnvelope,
    conn_id: ConnectionId,
    r: Result<Vec<ActiveSessionOutput>, PwshCoreError>,
) -> bool {
    &&& new_s.wf()
    &&& new_s.conns() == old_s.conns()
    &&& new_s.retired() == old_s.retired()
    &&& new_s.reconnect_conn() == old_s.reconnect_conn()
    &&& same_but_state(new_s.runspace(), old_s.runspace())
    &&& {
            let st = old_s.pool_state();
            if old_s.disconnect_conn() != Some(conn_id.spec_id()) {
                &&& r matches Ok(v) && v@ == seq![ActiveSessionOutput::Ignore]
                &&& new_s.pool_state() == st
                &&& new_s.disconnect_conn() == old_s.disconnect_conn()
            } else if st != RunspacePoolState::Disconnecting {
                &&& r matches Err(PwshCoreError::InvalidState(_))
                &&& new_s.pool_state() == st
                &&& new_s.disconnect_conn() == old_s.disconnect_conn()
            } else if env.fault is None && is_disconnect_response(env) {
                &&& r matches Ok(v) && v@ == seq![ActiveSessionOutput::OperationSuccess]
                &&& new_s.pool_state() == RunspacePoolState::Disconnected
                &&& new_s.disconnect_conn() is None
            } else {
                &&& r matches Ok(v) && v@.len() == 1 && (v@[0] matches ActiveSessionOutput::PendingReceive {
                    desired_streams,
                } && active_streams(old_s.runspace(), desired_streams@))
                &&& new_s.pool_state() == RunspacePoolState::Opened
                &&& new_s.disconnect_conn() is None
            }
    }
}

/// What a response on `conn_id` does while a Reconnect is in flight.
pub open spec fn connecting_outcome(
    old_s: ActiveSession,
    new_s: ActiveSession,
    env: ResponseEnvelope,
    conn_id: ConnectionId,
    r: Result<Vec<ActiveSessionOutput>, PwshCoreError>,
) -> bool {
    &&& new_s.wf()
    &&& new_s.conns() == old_s.conns()
    &&& new_s.retired() == old_s.retired()
    &&& new_s.disconnect_conn() == old_s.disconnect_conn()
    &&& new_s.runspace().id == old_s.runspace().id
    &&& new_s.runspace().shell() == old_s.runspace().shell()
    &&& new_s.runspace().pipelines_view() == old_s.runspace().pipelines_view()
    &&& {
            let st = old_s.pool_state();
            if old_s.reconnect_conn() != Some(conn_id.spec_id()) {
                &&& r matches Ok(v) && v@ == seq![ActiveSessionOutput::Ignore]
                &&& same_but_state(new_s.runspace(), old_s.runspace())
                &&& new_s.pool_state() == st
                &&& new_s.reconnect_conn() == old_s.reconnect_conn()
            } else if st != RunspacePoolState::Connecting {
                &&& r matches Err(PwshCoreError::InvalidState(_))
                &&& same_but_state(new_s.runspace(), old_s.runspace())
                &&& new_s.pool_state() == st
                &&& new_s.reconnect_conn() == old_s.reconnect_conn()
            } else if env.fault is None && is_reconnect_response(env) {
                &&& r matches Ok(v) && v@.len() == 2 && v@[0] == ActiveSessionOutput::OperationSuccess
                    && (v@[1] matches ActiveSessionOutput::PendingReceive { desired_streams }
                    && active_streams(old_s.runspace(), desired_streams@))
                &&& new_s.pool_state() == RunspacePoolState::Opened
                &&& !new_s.runspace().desired_stream_is_pooling
                &&& new_s.reconnect_conn() is None
            } else {
                &&& r matches Ok(v) && v@ == seq![ActiveSessionOutput::Ignore]
                &&& same_but_state(new_s.runspace(), old_s.runspace())
                &&& new_s.pool_state() == RunspacePoolState::Disconnected
                &&& new_s.reconnect_conn() is None
            }
    }
}

/// The connection a single request was sent on.
pub open spec fn sent_on(r: Result<ActiveSessionOutput, PwshCoreError>) -> Option<u32> {
    match r {
        Ok(ActiveSessionOutput::SendBack(v)) => if v@.len() > 0 {
            Some(v@[0].conn().spec_id())
        } else {
            None
        },
        _ => None,
    }
}

/// A Disconnect of an opened session that the server answers, then a Reconnect
/// that the server answers, each on the connection that carried the request,
/// bring the runspace pool back to `Opened` with the pipelines it had; the
/// receive loop resumes on their streams (or on the pool's own stream).
pub proof fn lemma_disconnect_reconnect_roundtrip(
    s0: ActiveSession,
    s1: ActiveSession,
    s2: ActiveSession,
    s3: ActiveSession,
    s4: ActiveSession,
    disconnect_xml: String,
    reconnect_xml: String,
    r1: Result<ActiveSessionOutput, PwshCoreError>,
    env1: ResponseEnvelope,
    c1: ConnectionId,
    r2: Result<Vec<ActiveSessionOutput>, PwshCoreError>,
    r3: Result<ActiveSessionOutput, PwshCoreError>,
    env2: ResponseEnvelope,
    c2: ConnectionId,
    r4: Result<Vec<ActiveSessionOutput>, PwshCoreError>,
)
    requires
        s0.pool_state() == RunspacePoolState::Opened,
        client_op_outcome(s0, s1, UserOperation::Disconnect { disconnect_xml }, r1),
        sent_on(r1) == Some(c1.spec_id()),
        disconnecting_outcome(s1, s2, env1, c1, r2),
        env1.fault is None && is_disconnect_response(env1),
        client_op_outcome(s2, s3, UserOperation::Reconnect { reconnect_xml }, r3),
        sent_on(r3) == Some(c2.spec_id()),
        connecting_outcome(s3, s4, env2, c2, r4),
        env2.fault is None && is_reconnect_response(env2),
    ensures
        s2.pool_state() == RunspacePoolState::Disconnected,
        s4.pool_state() == RunspacePoolState::Opened,
        s4.runspace().id == s0.runspace().id,
        s4.runspace().shell() == s0.runspace().shell(),
        s4.runspace().pipelines_view() == s0.runspace().pipelines_view(),
        s4.disconnect_conn() is None,
        s4.reconnect_conn() is None,
        r4 matches Ok(v) && v@.len() == 2 && v@[0] == ActiveSessionOutput::OperationSuccess && (v@[1] matches ActiveSessionOutput::PendingReceive {
            desired_streams,
        } && active_streams(s0.runspace(), desired_streams@)),
{
}

/// A Disconnect whose own connection is answered with a fault or with
/// something other than a DisconnectResponse is undone: the pool is `Opened`
/// again with the pipelines it had, and a Receive on their streams is asked for.
pub proof fn lemma_failed_disconnect_reverts(
    s0: ActiveSession,
    s1: ActiveSession,
    s2: ActiveSession,
    disconnect_xml: String,
    r1: Result<ActiveSessionOutput, PwshCoreError>,
    env: ResponseEnvelope,
    c: ConnectionId,
    r2: Result<Vec<ActiveSessionOutput>, PwshCoreError>,
)
    requires
        s0.pool_state() == RunspacePoolState::Opened,
        client_op_outcome(s0, s1, UserOperation::Disconnect { disconnect_xml }, r1),
        sent_on(r1) == Some(c.spec_id()),
        disconnecting_outcome(s1, s2, env, c, r2),
        !(env.fault is None && is_disconnect_response(env)),
    ensures
        s2.pool_state() == RunspacePoolState::Opened,
        s2.runspace().pipelines_view() == s0.runspace().pipelines_view(),
        s2.disconnect_conn() is None,
        r2 matches Ok(v) && v@.len() == 1 && (v@[0] matches ActiveSessionOutput::PendingReceive { desired_streams }
            && active_streams(s0.runspace(), desired_streams@)),
{
}

/// While a Disconnect or Reconnect is in flight, a response on any connection
/// but the one that carries it leaves the pool's state alone.
pub proof fn lemma_untracked_traffic_keeps_state(
    s0: ActiveSession,
    s1: ActiveSession,
    env: ResponseEnvelope,
    c: ConnectionId,
    r: Result<Vec<ActiveSessionOutput>, PwshCoreError>,
)
    requires
        (s0.pool_state() == RunspacePoolState::Disconnecting && s0.disconnect_conn() != Some(c.spec_id())
            && disconnecting_outcome(s0, s1, env, c, r)) || (s0.pool_state() == RunspacePoolState::Connecting
            && s0.reconnect_conn() != Some(c.spec_id()) && connecting_outcome(s0, s1, env, c, r)),
    ensures
        s1.pool_state() == s0.pool_state(),
        r matches Ok(v) && v@ == seq![ActiveSessionOutput::Ignore],
{
}

/// While a Disconnect is in flight on connection `c`, a fault on another connection is
/// ignored and the pool stays `Disconnecting`; the DisconnectResponse on `c` that comes
/// after it still completes the disconnect: only `c` can end it.
pub proof fn lemma_fault_elsewhere_keeps_disconnect(
    s0: ActiveSession,
    s1: ActiveSession,
    s2: ActiveSession,
    fault_env: ResponseEnvelope,
    p: ConnectionId,
    r1: Result<Vec<ActiveSessionOutput>, PwshCoreError>,
    env: ResponseEnvelope,
    c: ConnectionId,
    r2: Result<Vec<ActiveSessionOutput>, PwshCoreError>,
)
    requires
        s0.pool_state() == RunspacePoolState::Disconnecting,
        s0.disconnect_conn() == Some(c.spec_id()),
        p.spec_id() != c.spec_id(),
        disconnecting_outcome(s0, s1, fault_env, p, r1),
        disconnecting_outcome(s1, s2, env, c, r2),
        env.fault is None && is_disconnect_response(env),
    ensures
        r1 matches Ok(v) && v@ == seq![ActiveSessionOutput::Ignore],
        s1.pool_state() == RunspacePoolState::Disconnecting,
        s2.pool_state() == RunspacePoolState::Disconnected,
        r2 matches Ok(v) && v@ == seq![ActiveSessionOutput::OperationSuccess],
{
}

/// A response that the pool reads on another connection than the Disconnect's, while the
/// Disconnect is in flight, goes to the disconnect handling with its connection, which
/// ignores it: the pool stays `Disconnecting` and the Disconnect's connection is still the
/// one that can end it.
pub proof fn lemma_other_response_while_disconnecting(
    s0: ActiveSession,
    s1: ActiveSession,
    p: ConnectionId,
    xml: String,
    r1: Result<ResponseStep, PwshCoreError>,
    s2: ActiveSession,
    env: ResponseEnvelope,
    r2: Result<Vec<ActiveSessionOutput>, PwshCoreError>,
    c: u32,
)
    requires
        s0.pool_state() == RunspacePoolState::Disconnecting,
        s0.disconnect_conn() == Some(c),
        p.spec_id() != c,
        step_for(s0, s1, p.spec_id(), Ok(ConnectionPoolAccept::Body(xml)), r1),
        disconnecting_outcome(s1, s2, env, p, r2),
    ensures
        r1 matches Ok(ResponseStep::WhileDisconnecting { xml_body, conn_id }) && xml_body == xml && conn_id == p,
        r2 matches Ok(v) && v@ == seq![ActiveSessionOutput::Ignore],
        s2.pool_state() == RunspacePoolState::Disconnecting,
        s2.disconnect_conn() == Some(c),
{
    if let Ok(ResponseStep::WhileDisconnecting { conn_id, .. }) = r1 {
        ConnectionId::lemma_id_injective(conn_id, p);
    }
}

} // verus!

//! What the runspace pool does with a server response once the message layer
//! read it: pipeline bookkeeping, the next Receive, and fault handling.
use vstd::prelude::*;

use crate::error::PwshCoreError;
use crate::host::call::{needs_session_key, spec_needs_session_key, HostCall};
use std::collections::VecDeque;
use crate::powershell::PipelineHandle;
use crate::runspace_pool::enums::{PsInvocationState, RunspacePoolState};
use vstd::string::*;
use crate::runspace_pool::lifecycle::{or_unknown, stopping_ids, PipelineEntry, RunspacePool};
use crate::runspace_pool::streams::{is_stdout_of, DesiredStream};
use crate::connector::auth::base64_decoding;
use crate::runspace_pool::key_exchange::decryptions::RsaDecryptions;
use crate::runspace_pool::key_exchange::{
    aes256_cbc_zero_iv_pkcs7, build_public_key_blob_base64, decrypt_session_key, encrypt_secure_string_bytes,
    encrypted_session_key_ciphertext, public_key_blob_text_outcome, blob_too_short_message, key_length_message,
    KeyExchangeState,
};

verus! {

/// What the pool made of a received envelope, one entry per message.
#[derive(Debug)]
pub enum AcceptResponsResult {
    ReceiveResponse { desired_streams: Vec<DesiredStream> },
    /// Send this envelope (key exchange, control), then Receive these streams.
    SendThenReceive { send_xml: String, desired_streams: Vec<DesiredStream> },
    PipelineCreated(PipelineHandle),
    PipelineFinished(PipelineHandle),
    HostCall(HostCall),
    PipelineOutput { output: String, handle: PipelineHandle },
    ErrorRecord { error_record: String, handle: PipelineHandle },
    PipelineRecord { record: String, handle: PipelineHandle },
}

/// The streams a pool is receiving on: the standard output of every pipeline,
/// or the pool's own stream when there is no pipeline.
pub open spec fn active_streams(p: RunspacePool, s: Seq<DesiredStream>) -> bool {
    &&& p.pipelines_view().len() == 0 ==> s.len() == 1 && is_stdout_of(s[0], None)
    &&& p.pipelines_view().len() > 0 ==> s.len() == p.pipelines_view().len() && forall|i: int|
        0 <= i < s.len() ==> is_stdout_of(#[trigger] s[i], Some(p.pipelines_view()[i].id))
}

/// A WS-Management fault, as the message layer classified it.
#[derive(Debug, Clone)]
pub enum FaultKind {
    /// The operation timeout ran out: a heartbeat, not an error.
    Timeout,
    /// The shell or command the request named no longer exists.
    InvalidSelectors,
    /// Any other fault, with its `s:Code/s:Value` and `s:Reason/s:Text`.
    Other { code: Option<String>, reason: Option<String> },
}

/// The pipelines that are not stopping, in order.
pub open spec fn not_stopping(p: Seq<PipelineEntry>) -> Seq<PipelineEntry>
    decreases p.len(),
{
    if p.len() == 0 {
        Seq::empty()
    } else {
        let rest = not_stopping(p.drop_last());
        if p.last().state == PsInvocationState::Stopping {
            rest
        } else {
            rest.push(p.last())
        }
    }
}

/// `v` is one `PipelineFinished` per id, in order, then one Receive on the
/// active streams of `p`.
pub open spec fn finished_then_receive(v: Seq<AcceptResponsResult>, ids: Seq<u128>, p: RunspacePool) -> bool {
    &&& v.len() == ids.len() + 1
    &&& forall|i: int| 0 <= i < ids.len() ==> #[trigger] v[i] == AcceptResponsResult::PipelineFinished(PipelineHandle { id: ids[i] })
    &&& v[ids.len() as int] matches AcceptResponsResult::ReceiveResponse { desired_streams } && active_streams(p, desired_streams@)
}

pub open spec fn ids_of(p: Seq<PipelineEntry>) -> Seq<u128> {
    p.map_values(|e: PipelineEntry| e.id)
}

proof fn lemma_not_stopping_unique(p: Seq<PipelineEntry>)
    requires
        crate::runspace_pool::lifecycle::unique_ids(p),
    ensures
        crate::runspace_pool::lifecycle::unique_ids(not_stopping(p)),
        forall|k: int| 0 <= k < not_stopping(p).len() ==> exists|j: int| 0 <= j < p.len() && #[trigger] not_stopping(p)[k] == p[j],
    decreases p.len(),
{
    if p.len() > 0 {
        let q = p.drop_last();
        assert forall|a: int, b: int| 0 <= a < q.len() && 0 <= b < q.len() && a != b implies #[trigger] q[a].id != #[trigger] q[b].id by {
            assert(q[a] == p[a] && q[b] == p[b]);
        }
        lemma_not_stopping_unique(q);
        let r = not_stopping(q);
        if p.last().state != PsInvocationState::Stopping {
            let r2 = r.push(p.last());
            assert forall|k: int| 0 <= k < r2.len() implies exists|j: int| 0 <= j < p.len() && #[trigger] r2[k] == p[j] by {
                if k < r.len() {
                    let j = choose|j: int| 0 <= j < q.len() && #[trigger] r[k] == q[j];
                    assert(r2[k] == p[j]);
                } else {
                    assert(r2[k] == p[p.len() - 1]);
                }
            }
            assert forall|a: int, b: int| 0 <= a < r2.len() && 0 <= b < r2.len() && a != b implies #[trigger] r2[a].id != #[trigger] r2[b].id by {
                if a < r.len() && b < r.len() {
                    assert(r2[a] == r[a] && r2[b] == r[b]);
                } else if a < r.len() {
                    let j = choose|j: int| 0 <= j < q.len() && #[trigger] r[a] == q[j];
                    assert(r2[a] == p[j]);
                    assert(p[j].id != p[p.len() - 1].id);
                } else if b < r.len() {
                    let j = choose|j: int| 0 <= j < q.len() && #[trigger] r[b] == q[j];
                    assert(r2[b] == p[j]);
                    assert(p[j].id != p[p.len() - 1].id);
                }
            }
        } else {
            assert forall|k: int| 0 <= k < r.len() implies exists|j: int| 0 <= j < p.len() && #[trigger] r[k] == p[j] by {
                let j = choose|j: int| 0 <= j < q.len() && #[trigger] r[k] == q[j];
                assert(r[k] == p[j]);
            }
        }
    }
}

impl RunspacePool {
    /// A RunspacePoolState message: the pool takes the announced state; a value
    /// that names no state is an invalid response.
    pub fn handle_runspacepool_state(&mut self, value: u32) -> (r: Result<(), PwshCoreError>)
        requires
            old(self).wf(),
        ensures
            pool_state_handled(*old(self), *final(self), value, r),
    {
        match RunspacePoolState::from_value(value) {
            Some(state) => {
                self.state = state;
                Ok(())
            },
            None => Err(PwshCoreError::InvalidResponse(String::from_str("Unknown RunspacePoolState value"))),
        }
    }

    /// A PipelineState message on a stream: the pipeline of the stream's command
    /// id takes the announced state. A stream without command id, or one whose
    /// pipeline the pool does not have, is an invalid response.
    pub fn handle_pipeline_state(&mut self, command_id: Option<u128>, state: PsInvocationState) -> (r: Result<
        (),
        PwshCoreError,
    >)
        requires
            old(self).wf(),
        ensures
            pipeline_state_handled(*old(self), *final(self), command_id, state, r),
    {
        let id = match command_id {
            Some(id) => id,
            None => {
                return Err(PwshCoreError::InvalidResponse(String::from_str("Expected command_id to be Some")));
            },
        };
        match self.set_pipeline_state(id, state) {
            Ok(()) => Ok(()),
            Err(_) => Err(PwshCoreError::InvalidResponse(String::from_str("Pipeline not found for command_id"))),
        }
    }

    /// A WS-Management fault on a Receive. A timeout is a heartbeat: Receive
    /// again. An invalid-selectors fault ends every pipeline, which are
    /// reported finished, and the session continues. Any other fault while
    /// pipelines are stopping finishes those; with none stopping it is
    /// surfaced as a SOAP fault error.
    pub fn accept_fault(&mut self, fault: &FaultKind) -> (r: Result<Vec<AcceptResponsResult>, PwshCoreError>)
        requires
            old(self).wf(),
        ensures
            final(self).wf(),
            final(self).state == old(self).state,
            final(self).id == old(self).id,
            final(self).shell() == old(self).shell(),
            final(self).desired_stream_is_pooling == old(self).desired_stream_is_pooling,
            match fault {
                FaultKind::Timeout => {
                    &&& final(self).pipelines_view() == old(self).pipelines_view()
                    &&& r matches Ok(v) && finished_then_receive(v@, Seq::empty(), *old(self))
                },
                FaultKind::InvalidSelectors => {
                    &&& final(self).pipelines_view().len() == 0
                    &&& r matches Ok(v) && finished_then_receive(v@, ids_of(old(self).pipelines_view()), *final(self))
                },
                FaultKind::Other { code, reason } => if stopping_ids(old(self).pipelines_view()).len() > 0 {
                    &&& final(self).pipelines_view() == not_stopping(old(self).pipelines_view())
                    &&& r matches Ok(v) && finished_then_receive(v@, stopping_ids(old(self).pipelines_view()), *final(self))
                } else {
                    &&& final(self).pipelines_view() == old(self).pipelines_view()
                    &&& r matches Err(PwshCoreError::SoapFault { code: c, reason: re }) && c@ == or_unknown(*code)
                        && re@ == or_unknown(*reason)
                },
            },
    {
        match fault {
            FaultKind::Timeout => {
                let streams = self.compute_active_desired_streams();
                let mut v: Vec<AcceptResponsResult> = Vec::new();
                v.push(AcceptResponsResult::ReceiveResponse { desired_streams: streams });
                Ok(v)
            },
            FaultKind::InvalidSelectors => {
                let mut v: Vec<AcceptResponsResult> = Vec::new();
                let mut i: usize = 0;
                while i < self.pipelines.len()
                    invariant
                        i <= self.pipelines@.len(),
                        self.pipelines@ == old(self).pipelines@,
                        v@.len() == i,
                        forall|k: int| 0 <= k < i ==> #[trigger] v@[k] == AcceptResponsResult::PipelineFinished(
                            PipelineHandle { id: ids_of(old(self).pipelines_view())[k] },
                        ),
                    decreases self.pipelines@.len() - i,
                {
                    v.push(AcceptResponsResult::PipelineFinished(PipelineHandle::new(self.pipelines[i].id)));
                    i = i + 1;
                }
                self.pipelines.clear();
                let streams = self.compute_active_desired_streams();
                v.push(AcceptResponsResult::ReceiveResponse { desired_streams: streams });
                Ok(v)
            },
            FaultKind::Other { code, reason } => {
                match self.stopping_pipelines_for_fault() {
                    Some(stopping) => {
                        let ghost p0 = self.pipelines@;
                        let mut kept: Vec<PipelineEntry> = Vec::new();
                        let mut i: usize = 0;
                        while i < self.pipelines.len()
                            invariant
                                i <= self.pipelines@.len(),
                                self.pipelines@ == p0,
                                kept@ == not_stopping(p0.take(i as int)),
                            decreases self.pipelines@.len() - i,
                        {
                            proof {
                                assert(p0.take(i + 1).drop_last() =~= p0.take(i as int));
                            }
                            if self.pipelines[i].state != PsInvocationState::Stopping {
                                kept.push(self.pipelines[i]);
                            }
                            i = i + 1;
                        }
                        proof {
                            assert(p0.take(i as int) =~= p0);
                            lemma_not_stopping_unique(p0);
                        }
                        self.pipelines = kept;
                        let mut v: Vec<AcceptResponsResult> = Vec::new();
                        let mut j: usize = 0;
                        while j < stopping.len()
                            invariant
                                j <= stopping@.len(),
                                v@.len() == j,
                                forall|k: int| 0 <= k < j ==> #[trigger] v@[k] == AcceptResponsResult::PipelineFinished(
                                    PipelineHandle { id: stopping@[k] },
                                ),
                            decreases stopping@.len() - j,
                        {
                            v.push(AcceptResponsResult::PipelineFinished(PipelineHandle::new(stopping[j])));
                            j = j + 1;
                        }
                        let streams = self.compute_active_desired_streams();
                        v.push(AcceptResponsResult::ReceiveResponse { desired_streams: streams });
                        Ok(v)
                    },
                    None => {
                        let c = crate::runspace_pool::lifecycle::copy_or_unknown(code);
                        let re = crate::runspace_pool::lifecycle::copy_or_unknown(reason);
                        Err(PwshCoreError::SoapFault { code: c, reason: re })
                    },
                }
            },
        }
    }

    /// The response to a command creation: the pipeline is running; receive
    /// its output and report it created. An unknown pipeline is an invalid response.
    pub fn accept_command_response(&mut self, pipeline_id: u128) -> (r: Result<Vec<AcceptResponsResult>, PwshCoreError>)
        requires
            old(self).wf(),
        ensures
            final(self).wf(),
            final(self).state == old(self).state,
            final(self).id == old(self).id,
            final(self).shell() == old(self).shell(),
            final(self).desired_stream_is_pooling == old(self).desired_stream_is_pooling,
            match r {
                Ok(v) => {
                    &&& exists|i: int| 0 <= i < old(self).pipelines_view().len() && #[trigger] old(self).pipelines_view()[i].id
                        == pipeline_id && final(self).pipelines_view() == old(self).pipelines_view().update(
                        i,
                        PipelineEntry { id: pipeline_id, state: PsInvocationState::Running },
                    )
                    &&& v@.len() == 2
                    &&& v@[0] matches AcceptResponsResult::ReceiveResponse { desired_streams } && desired_streams@.len() == 1
                        && is_stdout_of(desired_streams@[0], Some(pipeline_id))
                    &&& v@[1] == AcceptResponsResult::PipelineCreated(PipelineHandle { id: pipeline_id })
                },
                Err(e) => {
                    &&& e is InvalidResponse
                    &&& final(self).pipelines_view() == old(self).pipelines_view()
                    &&& forall|i: int| 0 <= i < old(self).pipelines_view().len() ==> #[trigger] old(self).pipelines_view()[i].id != pipeline_id
                },
            },
    {
        match self.set_pipeline_state(pipeline_id, PsInvocationState::Running) {
            Ok(()) => {},
            Err(_) => {
                return Err(PwshCoreError::InvalidResponse(String::from_str("Pipeline not found for command response")));
            },
        }
        let mut v: Vec<AcceptResponsResult> = Vec::new();
        v.push(AcceptResponsResult::ReceiveResponse { desired_streams: DesiredStream::pipeline_streams(pipeline_id) });
        v.push(AcceptResponsResult::PipelineCreated(PipelineHandle::new(pipeline_id)));
        Ok(v)
    }

    /// The response to a signal: the signalled pipeline, if the pool has it,
    /// is removed and reported finished.
    pub fn accept_signal_response(&mut self, pipeline_id: Option<u128>) -> (r: Vec<AcceptResponsResult>)
        requires
            old(self).wf(),
        ensures
            final(self).wf(),
            final(self).state == old(self).state,
            final(self).id == old(self).id,
            final(self).shell() == old(self).shell(),
            final(self).desired_stream_is_pooling == old(self).desired_stream_is_pooling,
            match pipeline_id {
                Some(id) => if exists|i: int| 0 <= i < old(self).pipelines_view().len() && #[trigger] old(self).pipelines_view()[i].id == id {
                    &&& r@ == seq![AcceptResponsResult::PipelineFinished(PipelineHandle { id })]
                    &&& exists|i: int| 0 <= i < old(self).pipelines_view().len() && #[trigger] old(self).pipelines_view()[i].id == id
                        && final(self).pipelines_view() == old(self).pipelines_view().remove(i)
                } else {
                    r@.len() == 0 && final(self).pipelines_view() == old(self).pipelines_view()
                },
                None => r@.len() == 0 && final(self).pipelines_view() == old(self).pipelines_view(),
            },
    {
        let mut v: Vec<AcceptResponsResult> = Vec::new();
        match pipeline_id {
            Some(id) => {
                if self.remove_pipeline(id) {
                    v.push(AcceptResponsResult::PipelineFinished(PipelineHandle::new(id)));
                    proof {
                        assert(v@ =~= seq![AcceptResponsResult::PipelineFinished(PipelineHandle { id })]);
                    }
                }
            },
            None => {},
        }
        v
    }
    /// After the PSRP layer handled the streams of a ReceiveResponse (its
    /// results are `handled`): a stream without command id means the pool's
    /// own Receive was answered; a command reported done is removed and
    /// reported finished; then, unless a request already schedules a Receive,
    /// the next Receive is asked for: on the answered pipelines that are still
    /// running, else on the pool's own stream when it is not being received.
    pub fn accept_receive_streams(
        &mut self,
        stream_command_ids: &Vec<Option<u128>>,
        command_done: Option<u128>,
        handled: Vec<AcceptResponsResult>,
    ) -> (r: Vec<AcceptResponsResult>)
        requires
            old(self).wf(),
        ensures
            final(self).wf(),
            final(self).state == old(self).state,
            final(self).id == old(self).id,
            final(self).shell() == old(self).shell(),
            ({
                let h = handled@.len();
                let p0 = old(self).pipelines_view();
                let p1 = final(self).pipelines_view();
                let ids = stream_ids(stream_command_ids@);
                let answered_pool = exists|k: int| 0 <= k < stream_command_ids@.len() && #[trigger] stream_command_ids@[k] is None;
                let pooling = old(self).desired_stream_is_pooling && !answered_pool;
                let already = exists|k: int| 0 <= k < h && #[trigger] handled@[k] is SendThenReceive;
                let done = command_done matches Some(id) && has_pipeline(p0, id);
                let f: int = if done { 1 } else { 0 };
                &&& r@.len() >= h + f
                &&& r@.take(h as int) == handled@
                &&& if done {
                    &&& r@[h as int] == AcceptResponsResult::PipelineFinished(PipelineHandle { id: command_done->0 })
                    &&& exists|i: int| 0 <= i < p0.len() && #[trigger] p0[i].id == command_done->0 && p1 == p0.remove(i)
                } else {
                    p1 == p0
                }
                &&& if ids.len() > 0 {
                    &&& final(self).desired_stream_is_pooling == pooling
                    &&& if !already && next_ids(ids, p1).len() > 0 {
                        r@.len() == h + f + 1 && (r@[h + f] matches AcceptResponsResult::ReceiveResponse { desired_streams }
                            && stdout_streams(desired_streams@, next_ids(ids, p1)))
                    } else {
                        r@.len() == h + f
                    }
                } else if !pooling {
                    &&& final(self).desired_stream_is_pooling
                    &&& if !already {
                        r@.len() == h + f + 1 && (r@[h + f] matches AcceptResponsResult::ReceiveResponse { desired_streams }
                            && desired_streams@.len() == 1 && is_stdout_of(desired_streams@[0], None))
                    } else {
                        r@.len() == h + f
                    }
                } else {
                    &&& final(self).desired_stream_is_pooling
                    &&& r@.len() == h + f
                }
            }),
    {
        let ghost h0 = handled@;
        let mut result = handled;
        // Which streams answered, and whether the pool's own stream did.
        let mut ids: Vec<u128> = Vec::new();
        let mut answered_pool = false;
        let mut i: usize = 0;
        while i < stream_command_ids.len()
            invariant
                i <= stream_command_ids@.len(),
                ids@ == stream_ids(stream_command_ids@.take(i as int)),
                answered_pool <==> exists|k: int| 0 <= k < i && #[trigger] stream_command_ids@[k] is None,
            decreases stream_command_ids@.len() - i,
        {
            proof {
                assert(stream_command_ids@.take(i + 1).drop_last() =~= stream_command_ids@.take(i as int));
            }
            match stream_command_ids[i] {
                Some(id) => ids.push(id),
                None => {
                    answered_pool = true;
                },
            }
            i = i + 1;
        }
        proof {
            assert(stream_command_ids@.take(i as int) =~= stream_command_ids@);
        }
        if answered_pool {
            self.desired_stream_is_pooling = false;
        }
        let mut already = false;
        let mut k: usize = 0;
        while k < result.len()
            invariant
                k <= result@.len(),
                result@ == h0,
                already <==> exists|j: int| 0 <= j < k && #[trigger] h0[j] is SendThenReceive,
            decreases result@.len() - k,
        {
            match &result[k] {
                AcceptResponsResult::SendThenReceive { .. } => {
                    already = true;
                },
                _ => {},
            }
            k = k + 1;
        }
        match command_done {
            Some(id) => {
                if self.remove_pipeline(id) {
                    result.push(AcceptResponsResult::PipelineFinished(PipelineHandle::new(id)));
                }
            },
            None => {},
        }
        proof {
            assert(result@.take(h0.len() as int) =~= h0);
        }
        let desired: Vec<DesiredStream> = if ids.len() > 0 {
            let mut want: Vec<u128> = Vec::new();
            let mut desired: Vec<DesiredStream> = Vec::new();
            let mut j: usize = 0;
            while j < ids.len()
                invariant
                    j <= ids@.len(),
                    self.wf(),
                    want@ == next_ids(ids@.take(j as int), self.pipelines_view()),
                    stdout_streams(desired@, want@),
                decreases ids@.len() - j,
            {
                let x = ids[j];
                proof {
                    assert(ids@.take(j + 1).drop_last() =~= ids@.take(j as int));
                    assert(ids@.take(j + 1).last() == x);
                }
                let present = match self.find_pipeline(x) {
                    Some(_) => true,
                    None => false,
                };
                let mut seen = false;
                let mut q: usize = 0;
                while q < want.len()
                    invariant
                        q <= want@.len(),
                        seen <==> exists|t: int| 0 <= t < q && want@[t] == x,
                    decreases want@.len() - q,
                {
                    if want[q] == x {
                        seen = true;
                    }
                    q = q + 1;
                }
                proof {
                    if want@.contains(x) {
                        let t = choose|t: int| 0 <= t < want@.len() && want@[t] == x;
                        assert(seen);
                    }
                    if seen {
                        let t = choose|t: int| 0 <= t < want@.len() && want@[t] == x;
                        assert(want@[t] == x);
                        assert(want@.contains(x));
                    }
                }
                if present && !seen {
                    want.push(x);
                    desired.push(DesiredStream::stdout_for_command(x));
                }
                j = j + 1;
            }
            proof {
                assert(ids@.take(ids@.len() as int) =~= ids@);
            }
            desired
        } else if !self.desired_stream_is_pooling {
            self.desired_stream_is_pooling = true;
            DesiredStream::runspace_pool_streams()
        } else {
            Vec::new()
        };
        if !already && desired.len() > 0 {
            result.push(AcceptResponsResult::ReceiveResponse { desired_streams: desired });
        }
        result
    }

}

/// Host calls that carry secure strings wait for the PSRP session key: the
/// first one starts the key exchange, and all are released, in the order they
/// came, once the key is established.
#[derive(Debug)]
pub struct HostCallGate {
    pub pending_host_calls: VecDeque<HostCall>,
    pub psrp_key_exchange_pending: bool,
    pub has_session_key: bool,
    /// The client's key pair and, once decrypted, the session key.
    pub key_exchange: Option<KeyExchangeState>,
}

/// What becomes of an incoming host call while the session key may be missing.
#[derive(Debug)]
pub enum GateDecision {
    /// Hand it to the host now.
    Dispatch(HostCall),
    /// Deferred; the key exchange is already under way.
    Deferred,
    /// Deferred, and the client-initiated key exchange must start: send the
    /// PublicKey message, then Receive on the pool's stream.
    DeferredStartKeyExchange,
}

impl HostCallGate {
    pub fn new() -> (r: Self)
        ensures
            r.pending_host_calls@.len() == 0,
            !r.psrp_key_exchange_pending,
            !r.has_session_key,
            r.key_exchange is None,
    {
        HostCallGate {
            pending_host_calls: VecDeque::new(),
            psrp_key_exchange_pending: false,
            has_session_key: false,
            key_exchange: None,
        }
    }

    /// Makes the client's key pair when there is none yet.
    fn ensure_key_exchange(&mut self) -> (r: Result<(), PwshCoreError>)
        ensures
            final(self).pending_host_calls == old(self).pending_host_calls,
            final(self).psrp_key_exchange_pending == old(self).psrp_key_exchange_pending,
            final(self).has_session_key == old(self).has_session_key,
            match old(self).key_exchange {
                Some(_) => r is Ok && final(self).key_exchange == old(self).key_exchange,
                None => match r {
                    Ok(()) => final(self).key_exchange matches Some(st) && st.session_key is None,
                    Err(e) => final(self).key_exchange is None && (e matches PwshCoreError::InternalError(m)
                        && m@ == "failed to generate RSA keypair"@),
                },
            },
    {
        if self.key_exchange.is_none() {
            let st = KeyExchangeState::new()?;
            self.key_exchange = Some(st);
        }
        Ok(())
    }

    /// Starts the client's side of the key exchange: the key pair is made when there is
    /// none yet, and the base64 `PUBLIC_KEY` blob of its public key is what to send.
    pub fn start_key_exchange(&mut self) -> (r: Result<String, PwshCoreError>)
        ensures
            key_exchange_started(*old(self), *final(self), r),
    {
        self.ensure_key_exchange()?;
        match &self.key_exchange {
            Some(st) => build_public_key_blob_base64(st),
            None => {
                proof {
                    assert(false);
                }
                Err(PwshCoreError::InvalidState("no key pair"))
            },
        }
    }

    /// The server's `ENCRYPTED_SESSION_KEY` arrived: its ciphertext is read, decrypted
    /// with the client's key (made first when there is none) and kept as the session key,
    /// and the host calls that waited for it are released. Any failure leaves the session
    /// key as it was.
    pub fn accept_encrypted_session_key(&mut self, encoded: &str) -> (r: Result<Vec<AcceptResponsResult>, PwshCoreError>)
        ensures
            session_key_accepted(*old(self), *final(self), encoded@, seq_result(r)),
    {
        let encrypted = encrypted_session_key_ciphertext(encoded)?;
        self.ensure_key_exchange()?;
        let key = match &self.key_exchange {
            Some(st) => {
                let mut log = RsaDecryptions::new();
                decrypt_session_key(&encrypted, &st.private_key, &mut log)?
            },
            None => {
                proof {
                    assert(false);
                }
                return Err(PwshCoreError::InvalidState("no key pair"));
            },
        };
        match self.key_exchange.take() {
            Some(st) => {
                self.key_exchange = Some(
                    KeyExchangeState {
                        private_key: st.private_key,
                        public_exponent: st.public_exponent,
                        public_modulus: st.public_modulus,
                        session_key: Some(key),
                    },
                );
            },
            None => {},
        }
        Ok(self.session_key_established())
    }

    /// Encrypts SecureString bytes with the session key; without a session key this is an
    /// invalid response.
    pub fn encrypt_secure_string(&self, bytes: &Vec<u8>) -> (r: Result<Vec<u8>, PwshCoreError>)
        ensures
            match self.key_exchange {
                Some(KeyExchangeState { session_key: Some(k), .. }) => if k@.len() == 32 {
                    r matches Ok(c) && c@ == aes256_cbc_zero_iv_pkcs7(k@, bytes@)
                } else {
                    r matches Err(PwshCoreError::InvalidResponse(_))
                },
                _ => r matches Err(PwshCoreError::InvalidResponse(m))
                    && m@ == "SecureString encountered but PSRP session key is not established"@,
            },
    {
        match &self.key_exchange {
            Some(st) => match &st.session_key {
                Some(k) => encrypt_secure_string_bytes(bytes, k.as_slice()),
                None => Err(
                    PwshCoreError::InvalidResponse(
                        String::from_str("SecureString encountered but PSRP session key is not established"),
                    ),
                ),
            },
            None => Err(
                PwshCoreError::InvalidResponse(
                    String::from_str("SecureString encountered but PSRP session key is not established"),
                ),
            ),
        }
    }

    /// A host call arrived: it waits when it needs the session key and the
    /// key is not there yet; else it goes to the host.
    pub fn accept_host_call(&mut self, host_call: HostCall) -> (r: GateDecision)
        ensures
            host_call_gated(*old(self), *final(self), host_call, r),
    {
        if needs_session_key(&host_call) && !self.has_session_key {
            self.pending_host_calls.push_back(host_call);
            if !self.psrp_key_exchange_pending {
                self.psrp_key_exchange_pending = true;
                GateDecision::DeferredStartKeyExchange
            } else {
                GateDecision::Deferred
            }
        } else {
            GateDecision::Dispatch(host_call)
        }
    }

    /// The session key is established: the exchange is over and every waiting
    /// host call is released, in the order it came.
    pub fn session_key_established(&mut self) -> (r: Vec<AcceptResponsResult>)
        ensures
            final(self).has_session_key,
            !final(self).psrp_key_exchange_pending,
            final(self).key_exchange == old(self).key_exchange,
            final(self).pending_host_calls@.len() == 0,
            r@.len() == old(self).pending_host_calls@.len(),
            forall|i: int| 0 <= i < r@.len() ==> #[trigger] r@[i] == AcceptResponsResult::HostCall(old(self).pending_host_calls@[i]),
    {
        self.has_session_key = true;
        self.psrp_key_exchange_pending = false;
        let ghost all = self.pending_host_calls@;
        let mut out: Vec<AcceptResponsResult> = Vec::new();
        while self.pending_host_calls.len() > 0
            invariant
                self.has_session_key,
                !self.psrp_key_exchange_pending,
                self.key_exchange == old(self).key_exchange,
                all == old(self).pending_host_calls@,
                out@.len() + self.pending_host_calls@.len() == all.len(),
                self.pending_host_calls@ == all.skip(out@.len() as int),
                forall|i: int| 0 <= i < out@.len() ==> #[trigger] out@[i] == AcceptResponsResult::HostCall(all[i]),
            decreases self.pending_host_calls@.len(),
        {
            let ghost n = out@.len();
            let hc = self.pending_host_calls.pop_front().unwrap();
            proof {
                assert(hc == all[n as int]);
                assert(self.pending_host_calls@ =~= all.skip(n + 1 as int));
            }
            out.push(AcceptResponsResult::HostCall(hc));
        }
        out
    }
}

/// `p1` is `p0` after a RunspacePoolState message announcing `value`: the pool takes the
/// announced state; a value that names no state is an invalid response.
pub open spec fn pool_state_handled(p0: RunspacePool, p1: RunspacePool, value: u32, r: Result<(), PwshCoreError>) -> bool {
    &&& p1.wf()
    &&& p1.id == p0.id
    &&& p1.shell() == p0.shell()
    &&& p1.pipelines_view() == p0.pipelines_view()
    &&& p1.desired_stream_is_pooling == p0.desired_stream_is_pooling
    &&& value <= 9 ==> r is Ok && p1.state.spec_value() == Some(value)
    &&& value > 9 ==> (r matches Err(PwshCoreError::InvalidResponse(_)) && p1.state == p0.state)
}

/// `p1` is `p0` after a PipelineState message announcing `state` on a stream of
/// `command_id`: the pipeline of that id takes the state; a stream without command id,
/// or one whose pipeline the pool does not have, is an invalid response.
pub open spec fn pipeline_state_handled(
    p0: RunspacePool,
    p1: RunspacePool,
    command_id: Option<u128>,
    state: PsInvocationState,
    r: Result<(), PwshCoreError>,
) -> bool {
    &&& p1.wf()
    &&& p1.state == p0.state
    &&& p1.id == p0.id
    &&& p1.shell() == p0.shell()
    &&& p1.desired_stream_is_pooling == p0.desired_stream_is_pooling
    &&& match command_id {
        None => r matches Err(PwshCoreError::InvalidResponse(_)) && p1.pipelines_view() == p0.pipelines_view(),
        Some(id) => match r {
            Ok(()) => exists|i: int|
                0 <= i < p0.pipelines_view().len() && #[trigger] p0.pipelines_view()[i].id == id
                    && p1.pipelines_view() == p0.pipelines_view().update(i, PipelineEntry { id, state }),
            Err(e) => e is InvalidResponse && p1.pipelines_view() == p0.pipelines_view() && forall|i: int|
                0 <= i < p0.pipelines_view().len() ==> #[trigger] p0.pipelines_view()[i].id != id,
        },
    }
}

/// A vector result, by its view.
pub open spec fn seq_result<T>(r: Result<Vec<T>, PwshCoreError>) -> Result<Seq<T>, PwshCoreError> {
    match r {
        Ok(v) => Ok(v@),
        Err(e) => Err(e),
    }
}

/// `g1` is `g0` after starting the key exchange with result `r` (see
/// `HostCallGate::start_key_exchange`).
pub open spec fn key_exchange_started(g0: HostCallGate, g1: HostCallGate, r: Result<String, PwshCoreError>) -> bool {
    &&& g1.pending_host_calls == g0.pending_host_calls
    &&& g1.psrp_key_exchange_pending == g0.psrp_key_exchange_pending
    &&& g1.has_session_key == g0.has_session_key
    &&& match g0.key_exchange {
        Some(st) => g1.key_exchange == g0.key_exchange && public_key_blob_text_outcome(
            st.public_exponent@,
            st.public_modulus@,
            r,
        ),
        None => {
            ||| g1.key_exchange is None && (r matches Err(PwshCoreError::InternalError(m)) && m@
                == "failed to generate RSA keypair"@)
            ||| g1.key_exchange matches Some(st) && st.session_key is None && public_key_blob_text_outcome(
                st.public_exponent@,
                st.public_modulus@,
                r,
            )
        },
    }
}

/// `g1` is `g0` after the server's `ENCRYPTED_SESSION_KEY` text `encoded`, with result `r`
/// (see `HostCallGate::accept_encrypted_session_key`).
pub open spec fn session_key_accepted(
    g0: HostCallGate,
    g1: HostCallGate,
    encoded: Seq<char>,
    r: Result<Seq<AcceptResponsResult>, PwshCoreError>,
) -> bool {
    match base64_decoding(encoded) {
        None => r matches Err(PwshCoreError::InvalidResponse(m)) && m@ == "Invalid base64 EncryptedSessionKey"@
            && g1 == g0,
        Some(d) => if d.len() < 268 {
            r matches Err(PwshCoreError::InvalidResponse(m)) && m@ == blob_too_short_message(d.len()) && g1 == g0
        } else {
            match r {
                Ok(v) => {
                    &&& g1.key_exchange matches Some(st) && st.session_key matches Some(k) && k@.len() == 32
                    &&& g1.has_session_key
                    &&& !g1.psrp_key_exchange_pending
                    &&& g1.pending_host_calls@.len() == 0
                    &&& v.len() == g0.pending_host_calls@.len()
                    &&& forall|i: int| 0 <= i < v.len() ==> #[trigger] v[i] == AcceptResponsResult::HostCall(
                        g0.pending_host_calls@[i],
                    )
                },
                Err(e) => {
                    &&& g1.pending_host_calls == g0.pending_host_calls
                    &&& g1.psrp_key_exchange_pending == g0.psrp_key_exchange_pending
                    &&& g1.has_session_key == g0.has_session_key
                    &&& (e matches PwshCoreError::InternalError(m) && (m@ == "failed to generate RSA keypair"@ || m@
                        == "failed to decrypt EncryptedSessionKey"@)) || (e matches PwshCoreError::InvalidResponse(m)
                        && exists|n: nat| n != 32 && m@ == #[trigger] key_length_message(n))
                },
            }
        },
    }
}

/// `g1` is `g0` after a host call arrived, with decision `r` (see
/// `HostCallGate::accept_host_call`).
pub open spec fn host_call_gated(g0: HostCallGate, g1: HostCallGate, host_call: HostCall, r: GateDecision) -> bool {
    &&& g1.has_session_key == g0.has_session_key
    &&& g1.key_exchange == g0.key_exchange
    &&& if spec_needs_session_key(host_call.method, host_call.prompt_fields@) && !g0.has_session_key {
        &&& g1.pending_host_calls@ == g0.pending_host_calls@.push(host_call)
        &&& g1.psrp_key_exchange_pending
        &&& r is DeferredStartKeyExchange <==> !g0.psrp_key_exchange_pending
        &&& r is Deferred <==> g0.psrp_key_exchange_pending
    } else {
        &&& r == GateDecision::Dispatch(host_call)
        &&& g1.pending_host_calls@ == g0.pending_host_calls@
        &&& g1.psrp_key_exchange_pending == g0.psrp_key_exchange_pending
    }
}

/// A PSRP message of a Receive, as the message layer parsed it from its stream.
#[derive(Debug, Clone)]
pub enum PsrpMessage {
    /// The server asks for the client's public key.
    PublicKeyRequest,
    /// The server's session key, encrypted with the client's public key (base64).
    EncryptedSessionKey { encoded: String },
    SessionCapability,
    ApplicationPrivateData,
    /// The runspace pool's new state, by its PSRP value.
    RunspacePoolState { value: u32 },
    /// A pipeline's new state.
    PipelineState { state: PsInvocationState },
    /// A host call of a pipeline or of the pool, as read from the message.
    PipelineHostCall(HostCall),
    /// A pipeline's output object, rendered.
    PipelineOutput { rendered: String },
    /// A pipeline's error record, rendered.
    ErrorRecord { rendered: String },
    /// A progress record, rendered.
    ProgressRecord { rendered: String },
    /// An information, debug, verbose or warning record, rendered.
    Record { rendered: String },
    /// A message of a type without a handler, with a preview of its data.
    Unsupported { preview: String },
}

/// What handling PSRP messages asks for.
#[derive(Debug)]
pub enum PsrpAction {
    /// A result for the session.
    Accept(AcceptResponsResult),
    /// Send the client's public key (the base64 `PUBLIC_KEY` blob) in a PSRP message to the
    /// pool, then Receive on the pool's own stream.
    SendPublicKey { public_key: String },
}

/// The actions of a list of results.
pub open spec fn accepted(v: Seq<AcceptResponsResult>) -> Seq<PsrpAction> {
    v.map_values(|a: AcceptResponsResult| PsrpAction::Accept(a))
}

/// An invalid-response error with this message.
pub open spec fn invalid_response_with(r: Result<Seq<PsrpAction>, PwshCoreError>, m: Seq<char>) -> bool {
    r matches Err(PwshCoreError::InvalidResponse(t)) && t@ == m
}

/// The public-key step: the key exchange starts (see `key_exchange_started`) and its blob
/// is sent.
pub open spec fn public_key_sent(g0: HostCallGate, g1: HostCallGate, r: Result<Seq<PsrpAction>, PwshCoreError>) -> bool {
    match r {
        Ok(v) => v.len() == 1 && (v[0] matches PsrpAction::SendPublicKey { public_key } && key_exchange_started(
            g0,
            g1,
            Ok(public_key),
        )),
        Err(e) => key_exchange_started(g0, g1, Err(e)),
    }
}

/// Handling one PSRP message `m` of a stream of `command_id` takes the pool from `p0` to
/// `p1` and the host-call gate from `g0` to `g1`, with result `r`.
pub open spec fn psrp_step(
    p0: RunspacePool,
    g0: HostCallGate,
    command_id: Option<u128>,
    m: PsrpMessage,
    p1: RunspacePool,
    g1: HostCallGate,
    r: Result<Seq<PsrpAction>, PwshCoreError>,
) -> bool {
    let none: Result<Seq<PsrpAction>, PwshCoreError> = Ok(Seq::empty());
    match m {
        PsrpMessage::PublicKeyRequest => p1 == p0 && public_key_sent(g0, g1, r),
        PsrpMessage::EncryptedSessionKey { encoded } => p1 == p0 && match r {
            Ok(v) => exists|rel: Seq<AcceptResponsResult>|
                #[trigger] session_key_accepted(g0, g1, encoded@, Ok(rel)) && v == accepted(rel),
            Err(e) => session_key_accepted(g0, g1, encoded@, Err(e)),
        },
        PsrpMessage::SessionCapability => p1 == p0 && g1 == g0 && r == none,
        PsrpMessage::ApplicationPrivateData => p1 == p0 && g1 == g0 && r == none,
        PsrpMessage::RunspacePoolState { value } => g1 == g0 && match r {
            Ok(v) => v.len() == 0 && pool_state_handled(p0, p1, value, Ok(())),
            Err(e) => pool_state_handled(p0, p1, value, Err(e)),
        },
        PsrpMessage::PipelineState { state } => g1 == g0 && match r {
            Ok(v) => v.len() == 0 && pipeline_state_handled(p0, p1, command_id, state, Ok(())),
            Err(e) => pipeline_state_handled(p0, p1, command_id, state, Err(e)),
        },
        PsrpMessage::PipelineHostCall(hc) => p1 == p0 && exists|g: HostCallGate, d: GateDecision|
            #[trigger] host_call_gated(g0, g, hc, d) && match d {
                GateDecision::Dispatch(h) => g1 == g && r == Ok::<Seq<PsrpAction>, PwshCoreError>(
                    seq![PsrpAction::Accept(AcceptResponsResult::HostCall(h))],
                ),
                GateDecision::Deferred => g1 == g && r == none,
                GateDecision::DeferredStartKeyExchange => public_key_sent(g, g1, r),
            },
        PsrpMessage::PipelineOutput { rendered } => p1 == p0 && g1 == g0 && match command_id {
            Some(id) => r == Ok::<Seq<PsrpAction>, PwshCoreError>(
                seq![PsrpAction::Accept(AcceptResponsResult::PipelineOutput { output: rendered, handle: PipelineHandle { id } })],
            ),
            None => invalid_response_with(r, "PipelineOutput message must have a command_id"@),
        },
        PsrpMessage::ErrorRecord { rendered } => p1 == p0 && g1 == g0 && match command_id {
            Some(id) => r == Ok::<Seq<PsrpAction>, PwshCoreError>(
                seq![PsrpAction::Accept(AcceptResponsResult::ErrorRecord { error_record: rendered, handle: PipelineHandle { id } })],
            ),
            None => invalid_response_with(r, "ErrorRecord message must have a command_id"@),
        },
        PsrpMessage::ProgressRecord { rendered } => p1 == p0 && g1 == g0 && match command_id {
            Some(id) => r == Ok::<Seq<PsrpAction>, PwshCoreError>(
                seq![PsrpAction::Accept(AcceptResponsResult::PipelineRecord { record: rendered, handle: PipelineHandle { id } })],
            ),
            None => invalid_response_with(r, "ProgressRecord message must have a command_id"@),
        },
        PsrpMessage::Record { rendered } => p1 == p0 && g1 == g0 && match command_id {
            Some(id) => r == Ok::<Seq<PsrpAction>, PwshCoreError>(
                seq![PsrpAction::Accept(AcceptResponsResult::PipelineRecord { record: rendered, handle: PipelineHandle { id } })],
            ),
            None => r == none,
        },
        PsrpMessage::Unsupported { preview } => p1 == p0 && g1 == g0 && match command_id {
            Some(id) => r == Ok::<Seq<PsrpAction>, PwshCoreError>(
                seq![PsrpAction::Accept(AcceptResponsResult::PipelineRecord { record: preview, handle: PipelineHandle { id } })],
            ),
            None => r == none,
        },
    }
}

/// A run over the first `n` entries of `msgs`: entry `i` takes the pool from `pools[i]`
/// to `pools[i + 1]`, and `gates[i]` to `gates[i + 1]`, with actions `outs[i]`.
pub open spec fn psrp_history(
    msgs: Seq<(Option<u128>, PsrpMessage)>,
    pools: Seq<RunspacePool>,
    gates: Seq<HostCallGate>,
    outs: Seq<Seq<PsrpAction>>,
    n: int,
) -> bool {
    &&& 0 <= n <= msgs.len()
    &&& pools.len() == n + 1
    &&& gates.len() == n + 1
    &&& outs.len() == n
    &&& forall|i: int|
        0 <= i < n ==> #[trigger] psrp_step(pools[i], gates[i], msgs[i].0, msgs[i].1, pools[i + 1], gates[i + 1], Ok(outs[i]))
}

/// Handling the messages `msgs` in order, from pool `p0` and gate `g0` to `p1` and `g1`:
/// each message is handled as `psrp_step` says and their actions are concatenated; the
/// first error ends the handling, with the pool and gate as that message left them.
pub open spec fn psrp_run(
    p0: RunspacePool,
    g0: HostCallGate,
    msgs: Seq<(Option<u128>, PsrpMessage)>,
    p1: RunspacePool,
    g1: HostCallGate,
    r: Result<Seq<PsrpAction>, PwshCoreError>,
) -> bool {
    exists|pools: Seq<RunspacePool>, gates: Seq<HostCallGate>, outs: Seq<Seq<PsrpAction>>, n: int|
        #[trigger] psrp_history(msgs, pools, gates, outs, n) && pools[0] == p0 && gates[0] == g0 && match r {
            Ok(v) => n == msgs.len() && pools[n] == p1 && gates[n] == g1 && v == outs.flatten(),
            Err(e) => n < msgs.len() && psrp_step(pools[n], gates[n], msgs[n].0, msgs[n].1, p1, g1, Err(e)),
        }
}

/// Each result as an action, in order.
fn accept_all(results: Vec<AcceptResponsResult>) -> (r: Vec<PsrpAction>)
    ensures
        r@ == accepted(results@),
{
    let mut out: Vec<PsrpAction> = Vec::new();
    let mut rest = results;
    let ghost all = rest@;
    while rest.len() > 0
        invariant
            out@.len() + rest@.len() == all.len(),
            rest@ == all.skip(out@.len() as int),
            out@ == accepted(all.take(out@.len() as int)),
        decreases rest@.len(),
    {
        let ghost n = out@.len();
        let a = rest.remove(0);
        proof {
            assert(a == all[n as int]);
            assert(rest@ =~= all.skip(n + 1int));
            assert(accepted(all.take(n + 1int)) =~= accepted(all.take(n as int)).push(PsrpAction::Accept(a)));
        }
        out.push(PsrpAction::Accept(a));
    }
    assert(all.take(all.len() as int) =~= all);
    out
}

/// The public key blob to send, once the key exchange started.
fn send_public_key(gate: &mut HostCallGate) -> (r: Result<Vec<PsrpAction>, PwshCoreError>)
    ensures
        public_key_sent(*old(gate), *final(gate), seq_result(r)),
{
    match gate.start_key_exchange() {
        Ok(public_key) => Ok(one_action(PsrpAction::SendPublicKey { public_key })),
        Err(e) => Err(e),
    }
}

/// A single action.
fn one_action(a: PsrpAction) -> (v: Vec<PsrpAction>)
    ensures
        v@ == seq![a],
{
    let mut v: Vec<PsrpAction> = Vec::new();
    v.push(a);
    assert(v@ =~= seq![a]);
    v
}

impl RunspacePool {
    /// Handles one PSRP message of a stream of `command_id`, with the host-call gate.
    pub fn handle_psrp_message(&mut self, gate: &mut HostCallGate, command_id: Option<u128>, m: PsrpMessage) -> (r:
        Result<Vec<PsrpAction>, PwshCoreError>)
        requires
            old(self).wf(),
        ensures
            final(self).wf(),
            psrp_step(*old(self), *old(gate), command_id, m, *final(self), *final(gate), seq_result(r)),
    {
        match m {
            PsrpMessage::PublicKeyRequest => send_public_key(gate),
            PsrpMessage::EncryptedSessionKey { encoded } => match gate.accept_encrypted_session_key(encoded.as_str()) {
                Ok(released) => {
                    let ghost rel = released@;
                    let r = accept_all(released);
                    proof {
                        assert(session_key_accepted(*old(gate), *gate, encoded@, Ok(rel)));
                    }
                    Ok(r)
                },
                Err(e) => Err(e),
            },
            PsrpMessage::SessionCapability => Ok(Vec::new()),
            PsrpMessage::ApplicationPrivateData => Ok(Vec::new()),
            PsrpMessage::RunspacePoolState { value } => match self.handle_runspacepool_state(value) {
                Ok(()) => Ok(Vec::new()),
                Err(e) => Err(e),
            },
            PsrpMessage::PipelineState { state } => match self.handle_pipeline_state(command_id, state) {
                Ok(()) => Ok(Vec::new()),
                Err(e) => Err(e),
            },
            PsrpMessage::PipelineHostCall(hc) => {
                let ghost g0 = *gate;
                let ghost hc0 = hc;
                let d = gate.accept_host_call(hc);
                let ghost gm = *gate;
                let ghost d0 = d;
                let r = match d {
                    GateDecision::Dispatch(h) => Ok(one_action(PsrpAction::Accept(AcceptResponsResult::HostCall(h)))),
                    GateDecision::Deferred => Ok(Vec::new()),
                    GateDecision::DeferredStartKeyExchange => send_public_key(gate),
                };
                proof {
                    assert(host_call_gated(g0, gm, hc0, d0));
                }
                r
            },
            PsrpMessage::PipelineOutput { rendered } => match command_id {
                Some(id) => Ok(one_action(PsrpAction::Accept(AcceptResponsResult::PipelineOutput { output: rendered, handle: PipelineHandle { id } }))),
                None => Err(PwshCoreError::InvalidResponse(String::from_str("PipelineOutput message must have a command_id"))),
            },
            PsrpMessage::ErrorRecord { rendered } => match command_id {
                Some(id) => Ok(one_action(PsrpAction::Accept(AcceptResponsResult::ErrorRecord { error_record: rendered, handle: PipelineHandle { id } }))),
                None => Err(PwshCoreError::InvalidResponse(String::from_str("ErrorRecord message must have a command_id"))),
            },
            PsrpMessage::ProgressRecord { rendered } => match command_id {
                Some(id) => Ok(one_action(PsrpAction::Accept(AcceptResponsResult::PipelineRecord { record: rendered, handle: PipelineHandle { id } }))),
                None => Err(PwshCoreError::InvalidResponse(String::from_str("ProgressRecord message must have a command_id"))),
            },
            PsrpMessage::Record { rendered } => match command_id {
                Some(id) => Ok(one_action(PsrpAction::Accept(AcceptResponsResult::PipelineRecord { record: rendered, handle: PipelineHandle { id } }))),
                None => Ok(Vec::new()),
            },
            PsrpMessage::Unsupported { preview } => match command_id {
                Some(id) => Ok(one_action(PsrpAction::Accept(AcceptResponsResult::PipelineRecord { record: preview, handle: PipelineHandle { id } }))),
                None => Ok(Vec::new()),
            },
        }
    }
}

impl RunspacePool {
    /// Handles the PSRP messages of a Receive in order (each with the command id of its
    /// stream), with the host-call gate: their actions in order, or the first error.
    pub fn handle_psrp_messages(&mut self, gate: &mut HostCallGate, msgs: Vec<(Option<u128>, PsrpMessage)>) -> (r:
        Result<Vec<PsrpAction>, PwshCoreError>)
        requires
            old(self).wf(),
        ensures
            final(self).wf(),
            psrp_run(*old(self), *old(gate), msgs@, *final(self), *final(gate), seq_result(r)),
    {
        let ghost all = msgs@;
        let ghost mut pools: Seq<RunspacePool> = seq![*self];
        let ghost mut gates: Seq<HostCallGate> = seq![*gate];
        let ghost mut outs: Seq<Seq<PsrpAction>> = Seq::empty();
        let mut rest = msgs;
        let mut out: Vec<PsrpAction> = Vec::new();
        let ghost mut k: int = 0;
        while rest.len() > 0
            invariant
                self.wf(),
                all == msgs@,
                k + rest@.len() == all.len(),
                rest@ == all.skip(k),
                psrp_history(all, pools, gates, outs, k),
                pools[0] == *old(self),
                gates[0] == *old(gate),
                pools[k] == *self,
                gates[k] == *gate,
                out@ == outs.flatten(),
            decreases rest@.len(),
        {
            let (cid, m) = rest.remove(0);
            proof {
                assert(all[k] == (cid, m));
                assert(rest@ =~= all.skip(k + 1));
            }
            let step = self.handle_psrp_message(gate, cid, m);
            match step {
                Ok(v) => {
                    let ghost vs = v@;
                    let mut v = v;
                    out.append(&mut v);
                    proof {
                        outs.lemma_flatten_push(vs);
                        let ghost old_pools = pools;
                        let ghost old_gates = gates;
                        let ghost old_outs = outs;
                        pools = pools.push(*self);
                        gates = gates.push(*gate);
                        outs = outs.push(vs);
                        assert forall|i: int| 0 <= i < k + 1 implies #[trigger] psrp_step(
                            pools[i],
                            gates[i],
                            all[i].0,
                            all[i].1,
                            pools[i + 1],
                            gates[i + 1],
                            Ok(outs[i]),
                        ) by {
                            if i < k {
                                assert(psrp_step(old_pools[i], old_gates[i], all[i].0, all[i].1, old_pools[i + 1], old_gates[i + 1], Ok(old_outs[i])));
                            }
                        }
                        k = k + 1;
                    }
                },
                Err(e) => {
                    proof {
                        assert(psrp_history(all, pools, gates, outs, k));
                        assert(k < all.len());
                        assert(psrp_step(pools[k], gates[k], all[k].0, all[k].1, *self, *gate, Err(e)));
                    }
                    return Err(e);
                },
            }
        }
        proof {
            assert(psrp_history(all, pools, gates, outs, k));
        }
        Ok(out)
    }
}

/// Whether the pool has a pipeline with this id.
pub open spec fn has_pipeline(pipes: Seq<PipelineEntry>, id: u128) -> bool {
    exists|i: int| 0 <= i < pipes.len() && #[trigger] pipes[i].id == id
}

/// The command ids of the streams that have one, in order.
pub open spec fn stream_ids(s: Seq<Option<u128>>) -> Seq<u128>
    decreases s.len(),
{
    if s.len() == 0 {
        Seq::empty()
    } else {
        let rest = stream_ids(s.drop_last());
        match s.last() {
            Some(id) => rest.push(id),
            None => rest,
        }
    }
}

/// The pipelines to receive on next: the ids among `ids` that the pool still
/// has, each once, in the order they first appear.
pub open spec fn next_ids(ids: Seq<u128>, pipes: Seq<PipelineEntry>) -> Seq<u128>
    decreases ids.len(),
{
    if ids.len() == 0 {
        Seq::empty()
    } else {
        let rest = next_ids(ids.drop_last(), pipes);
        let x = ids.last();
        if has_pipeline(pipes, x) && !rest.contains(x) {
            rest.push(x)
        } else {
            rest
        }
    }
}

/// `ds` is the standard output of each of `ids`, in order.
pub open spec fn stdout_streams(ds: Seq<DesiredStream>, ids: Seq<u128>) -> bool {
    ds.len() == ids.len() && forall|i: int| 0 <= i < ds.len() ==> is_stdout_of(#[trigger] ds[i], Some(ids[i]))
}

} // verus!

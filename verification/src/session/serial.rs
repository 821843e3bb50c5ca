//! Protocol decision core of the serial session loop: one connection, one
//! request in flight. The core owns the queues and decides what to send next;
//! the loop around it performs the I/O, calls the active session, and hands
//! the results back.
use vstd::prelude::*;
use std::collections::VecDeque;

use crate::connector::active_session::{ActiveSessionOutput, UserEvent, UserOperation};
use crate::connector::connection_pool::TrySend;
use crate::error::PwshCoreError;
use crate::host::call::{HostCall, HostCallScope, Submission};
use crate::runspace_pool::streams::DesiredStream;
use crate::session::scheduler::{
    cancel_noted, finished_noted, progress_noted, target_of, timeout_noted, DefaultReceiveScheduler, ReceiveScheduler,
    TargetId,
};

verus! {

/// Whether requests go to the front or the back of the work queue. `Front`
/// is for a user's KillPipeline signal, which must overtake everything else
/// on the single connection.
#[derive(Debug, Clone, Copy, PartialEq, Eq, Structural)]
pub enum SendPriority {
    Normal,
    Front,
}

impl SendPriority {
    /// `Front` for KillPipeline, `Normal` for every other operation.
    pub fn for_user_op(op: &UserOperation) -> (r: Self)
        ensures
            r == (if op is KillPipeline { SendPriority::Front } else { SendPriority::Normal }),
    {
        match op {
            UserOperation::KillPipeline { .. } => SendPriority::Front,
            _ => SendPriority::Normal,
        }
    }
}

/// The host's answer to a host call, with the envelope that carries it.
#[derive(Debug)]
pub struct HostResponse {
    pub call_id: i64,
    pub scope: HostCallScope,
    pub submission: Submission<Option<String>>,
    pub response_xml: String,
}

/// What to send next.
pub enum Promotion {
    /// A queued request.
    Send(TrySend),
    /// A Receive on this stream, whose target is now in flight: build its
    /// envelope and fire it through the active session.
    Receive { stream: DesiredStream, target: TargetId },
    /// Nothing to send now.
    Idle,
}

/// Whether two streams name the same stream.
pub open spec fn same_stream(a: DesiredStream, b: DesiredStream) -> bool {
    a.name@ == b.name@ && a.command_id == b.command_id
}

pub open spec fn has_stream(s: Seq<DesiredStream>, x: DesiredStream) -> bool {
    exists|i: int| 0 <= i < s.len() && same_stream(#[trigger] s[i], x)
}

/// The speculative streams after merging `new` into `existing`: each new stream
/// is appended unless the list already has it.
pub open spec fn merged(existing: Seq<DesiredStream>, new: Seq<DesiredStream>) -> Seq<DesiredStream>
    decreases new.len(),
{
    if new.len() == 0 {
        existing
    } else {
        let m = merged(existing, new.drop_last());
        if has_stream(m, new.last()) {
            m
        } else {
            m.push(new.last())
        }
    }
}

/// No stream occurs twice.
pub open spec fn no_dup_streams(s: Seq<DesiredStream>) -> bool {
    forall|i: int, j: int| 0 <= i < j < s.len() ==> !same_stream(#[trigger] s[i], #[trigger] s[j])
}

/// Merges new desired streams into the speculative list, keeping out duplicates.
pub fn merge_speculative_streams(existing: &mut Vec<DesiredStream>, new_streams: Vec<DesiredStream>)
    ensures
        final(existing)@ == merged(old(existing)@, new_streams@),
{
    let ghost start = existing@;
    let ghost all = new_streams@;
    let mut rest = new_streams;
    let ghost mut done: Seq<DesiredStream> = Seq::empty();
    while rest.len() > 0
        invariant
            done + rest@ == all,
            existing@ == merged(start, done),
        decreases rest@.len(),
    {
        let ghost before = rest@;
        let s = rest.remove(0);
        proof {
            assert(before =~= seq![s] + rest@);
            assert(done.push(s) + rest@ =~= done + before);
            assert(done.push(s).drop_last() =~= done);
        }
        let mut found = false;
        let mut j: usize = 0;
        while j < existing.len()
            invariant
                j <= existing@.len(),
                found <==> exists|k: int| 0 <= k < j && same_stream(#[trigger] existing@[k], s),
            decreases existing@.len() - j,
        {
            if existing[j].same_as(&s) {
                found = true;
            }
            j = j + 1;
        }
        if !found {
            existing.push(s);
        }
        proof {
            done = done.push(s);
        }
    }
    proof {
        assert(done =~= all);
    }
}

proof fn lemma_first_demanded_unique(c: SessionCore, a: int, b: int)
    requires
        c.first_demanded(a),
        c.first_demanded(b),
    ensures
        a == b,
{
    if a < b {
        assert(!c.demanded_ok(c.demanded_streams@[a]));
    }
    if b < a {
        assert(!c.demanded_ok(c.demanded_streams@[b]));
    }
}

proof fn lemma_first_speculative_unique(c: SessionCore, a: int, b: int)
    requires
        c.first_speculative(a),
        c.first_speculative(b),
    ensures
        a == b,
{
    if a < b {
        assert(!c.speculative_ok(c.speculative_streams@[a]));
    }
    if b < a {
        assert(!c.speculative_ok(c.speculative_streams@[b]));
    }
}

/// Protocol decision core of the serial session loop.
///
/// Sends always go before Receives; a demanded Receive (the server will
/// answer: key exchange, host-response acknowledgement) goes before a
/// speculative one; a speculative Receive of the pool alone is never sent, as
/// it would only block for the operation timeout (a pipeline Receive carries
/// the pool's data too). No Receive goes out while a host call is unanswered:
/// the server holds Receives until it has the answer.
pub struct SessionCore {
    pub scheduler: DefaultReceiveScheduler,
    pub next_wakeup_at_ms: Option<u64>,
    pub in_flight_receive_target: Option<TargetId>,
    /// Pending requests (commands, host responses, signals).
    pub work_queue: VecDeque<TrySend>,
    /// Receives the server is expected to answer promptly.
    pub demanded_streams: VecDeque<DesiredStream>,
    /// Receives worth polling eventually.
    pub speculative_streams: Vec<DesiredStream>,
    /// Host calls waiting to be handed to the host.
    pub pending_host_calls: VecDeque<HostCall>,
    /// Whether a host call is with the host and not answered yet.
    pub host_call_active: bool,
    /// User operations buffered while a request is in flight.
    pub pending_user_ops: VecDeque<UserOperation>,
    /// User events gathered for the loop to drain.
    pub pending_user_events: Vec<UserEvent>,
}

impl SessionCore {
    pub open spec fn wf(&self) -> bool {
        self.scheduler.wf()
    }

    /// A demanded stream may be received unless its pipeline finished.
    pub open spec fn demanded_ok(&self, s: DesiredStream) -> bool {
        !self.scheduler.is_finished(target_of(s))
    }

    /// A speculative stream is received only for a pipeline that did not finish.
    pub open spec fn speculative_ok(&self, s: DesiredStream) -> bool {
        s.command_id is Some && self.demanded_ok(s)
    }

    /// `k` is the first demanded stream that may be received.
    pub open spec fn first_demanded(&self, k: int) -> bool {
        &&& 0 <= k < self.demanded_streams@.len()
        &&& self.demanded_ok(self.demanded_streams@[k])
        &&& forall|j: int| 0 <= j < k ==> !self.demanded_ok(#[trigger] self.demanded_streams@[j])
    }

    /// `k` is the first speculative stream that may be received.
    pub open spec fn first_speculative(&self, k: int) -> bool {
        &&& 0 <= k < self.speculative_streams@.len()
        &&& self.speculative_ok(self.speculative_streams@[k])
        &&& forall|j: int| 0 <= j < k ==> !self.speculative_ok(#[trigger] self.speculative_streams@[j])
    }

    /// The queues and flags other than the ones named stay as they were.
    pub open spec fn same_host_side(&self, old: &Self) -> bool {
        &&& self.pending_host_calls@ == old.pending_host_calls@
        &&& self.host_call_active == old.host_call_active
        &&& self.pending_user_ops@ == old.pending_user_ops@
        &&& self.pending_user_events@ == old.pending_user_events@
    }

    /// A core whose first request to send is `first_receive`.
    pub fn new(first_receive: TrySend) -> (r: Self)
        ensures
            r.wf(),
            forall|t: TargetId| #[trigger] r.scheduler.state_of(t) == None::<crate::session::scheduler::TargetState>,
            r.scheduler.last_activity() is None,
            r.next_wakeup_at_ms is None,
            r.in_flight_receive_target is None,
            r.work_queue@ == seq![first_receive],
            r.demanded_streams@.len() == 0,
            r.speculative_streams@.len() == 0,
            r.pending_host_calls@.len() == 0,
            !r.host_call_active,
            r.pending_user_ops@.len() == 0,
            r.pending_user_events@.len() == 0,
    {
        let mut work_queue: VecDeque<TrySend> = VecDeque::new();
        work_queue.push_back(first_receive);
        SessionCore {
            scheduler: DefaultReceiveScheduler::new(),
            next_wakeup_at_ms: None,
            in_flight_receive_target: None,
            work_queue,
            demanded_streams: VecDeque::new(),
            speculative_streams: Vec::new(),
            pending_host_calls: VecDeque::new(),
            host_call_active: false,
            pending_user_ops: VecDeque::new(),
            pending_user_events: Vec::new(),
        }
    }

    /// How long until the next scheduled wakeup, if one is scheduled.
    pub fn next_wakeup_in_ms(&self, now_ms: u64) -> (r: Option<u64>)
        ensures
            r == match self.next_wakeup_at_ms {
                Some(at) => Some(at.saturating_sub(now_ms)),
                None => None::<u64>,
            },
    {
        match self.next_wakeup_at_ms {
            Some(at) => Some(at.saturating_sub(now_ms)),
            None => None,
        }
    }

    /// Whether a host call is with the host (the loop's guard for dispatching another).
    pub fn is_host_call_active(&self) -> (r: bool)
        ensures
            r == self.host_call_active,
    {
        self.host_call_active
    }

    /// Picks what to send next: a queued request, else (when no host call is
    /// pending) the first demanded stream that may be received, dropping the
    /// finished ones before it, else the first speculative pipeline stream
    /// that may be received.
    pub fn promote_next_request(&mut self, now_ms: u64) -> (r: Promotion)
        requires
            old(self).wf(),
        ensures
            final(self).wf(),
            final(self).scheduler == old(self).scheduler,
            final(self).same_host_side(&*old(self)),
            final(self).next_wakeup_at_ms is None,
            r matches Promotion::Receive { stream, target } ==> target == target_of(stream)
                && !old(self).scheduler.is_finished(target),
            if old(self).work_queue@.len() > 0 {
                &&& r == Promotion::Send(old(self).work_queue@[0])
                &&& final(self).work_queue@ == old(self).work_queue@.drop_first()
                &&& final(self).in_flight_receive_target is None
                &&& final(self).demanded_streams@ == old(self).demanded_streams@
                &&& final(self).speculative_streams@ == old(self).speculative_streams@
            } else if old(self).host_call_active || old(self).pending_host_calls@.len() > 0 {
                &&& r is Idle
                &&& final(self).work_queue@ == old(self).work_queue@
                &&& final(self).in_flight_receive_target == old(self).in_flight_receive_target
                &&& final(self).demanded_streams@ == old(self).demanded_streams@
                &&& final(self).speculative_streams@ == old(self).speculative_streams@
            } else if exists|k: int| old(self).first_demanded(k) {
                let k = choose|k: int| old(self).first_demanded(k);
                let stream = old(self).demanded_streams@[k];
                &&& r == Promotion::Receive { stream, target: target_of(stream) }
                &&& final(self).work_queue@ == old(self).work_queue@
                &&& final(self).in_flight_receive_target == Some(target_of(stream))
                &&& final(self).demanded_streams@ == old(self).demanded_streams@.skip(k + 1)
                &&& final(self).speculative_streams@ == old(self).speculative_streams@
            } else {
                &&& final(self).work_queue@ == old(self).work_queue@
                &&& final(self).demanded_streams@.len() == 0
                &&& if exists|k: int| old(self).first_speculative(k) {
                    let k = choose|k: int| old(self).first_speculative(k);
                    let stream = old(self).speculative_streams@[k];
                    &&& r == Promotion::Receive { stream, target: target_of(stream) }
                    &&& final(self).in_flight_receive_target == Some(target_of(stream))
                    &&& final(self).speculative_streams@ == old(self).speculative_streams@.remove(k)
                } else {
                    &&& r is Idle
                    &&& final(self).in_flight_receive_target is None
                    &&& final(self).speculative_streams@ == old(self).speculative_streams@
                }
            },
    {
        self.next_wakeup_at_ms = None;
        if self.work_queue.len() > 0 {
            let req = self.work_queue.pop_front().unwrap();
            self.in_flight_receive_target = None;
            return Promotion::Send(req);
        }
        if self.host_call_active || self.pending_host_calls.len() > 0 {
            return Promotion::Idle;
        }
        let ghost mid = *self;
        assert forall|k: int|
            #![trigger mid.first_demanded(k)]
            #![trigger old(self).first_demanded(k)]
            mid.first_demanded(k) == old(self).first_demanded(k) by {}
        match self.try_promote_demanded_receive(now_ms) {
            Some(p) => {
                proof {
                    let k = choose|k: int| #[trigger] mid.first_demanded(k) && {
                        let stream = mid.demanded_streams@[k];
                        &&& p == Promotion::Receive { stream, target: target_of(stream) }
                        &&& self.in_flight_receive_target == Some(target_of(stream))
                        &&& self.demanded_streams@ == mid.demanded_streams@.skip(k + 1)
                    };
                    let k2 = choose|k: int| old(self).first_demanded(k);
                    lemma_first_demanded_unique(*old(self), k, k2);
                }
                return p;
            },
            None => {},
        }
        let ghost mid2 = *self;
        assert forall|k: int|
            #![trigger mid2.first_speculative(k)]
            #![trigger old(self).first_speculative(k)]
            mid2.first_speculative(k) == old(self).first_speculative(k) by {}
        let r = self.try_promote_speculative_receive(now_ms);
        proof {
            if r is Receive {
                let k = choose|k: int| #[trigger] mid2.first_speculative(k) && {
                    &&& r->stream == mid2.speculative_streams@[k]
                    &&& r->target == target_of(r->stream)
                    &&& self.in_flight_receive_target == Some(r->target)
                    &&& self.speculative_streams@ == mid2.speculative_streams@.remove(k)
                };
                let k2 = choose|k: int| old(self).first_speculative(k);
                lemma_first_speculative_unique(*old(self), k, k2);
            }
        }
        r
    }

    /// Routes one output of the active session to its queue. Never sends.
    pub fn route_output(&mut self, output: ActiveSessionOutput, priority: SendPriority) -> (r: Result<(), PwshCoreError>)
        requires
            old(self).wf(),
        ensures
            routed(*old(self), *final(self), output, priority, r),
    {
        match output {
            ActiveSessionOutput::SendBack(reqs) => {
                let mut reqs = reqs;
                let ghost all = reqs@;
                if priority == SendPriority::Front {
                    // Keep the order while pushing to the front.
                    while reqs.len() > 0
                        invariant
                            self.wf(),
                            self.scheduler == old(self).scheduler,
                            reqs@ + self.work_queue@ == all + old(self).work_queue@,
                            queues_same(*self, *old(self)) || true,
                            self.next_wakeup_at_ms == old(self).next_wakeup_at_ms,
                            self.in_flight_receive_target == old(self).in_flight_receive_target,
                            self.host_call_active == old(self).host_call_active,
                            self.pending_user_ops@ == old(self).pending_user_ops@,
                            self.demanded_streams@ == old(self).demanded_streams@,
                            self.speculative_streams@ == old(self).speculative_streams@,
                            self.pending_host_calls@ == old(self).pending_host_calls@,
                            self.pending_user_events@ == old(self).pending_user_events@,
                        decreases reqs@.len(),
                    {
                        let ghost before_r = reqs@;
                        let ghost before_q = self.work_queue@;
                        let req = reqs.pop().unwrap();
                        self.work_queue.push_front(req);
                        proof {
                            assert(before_r =~= reqs@.push(req));
                            assert(reqs@ + self.work_queue@ =~= before_r + before_q);
                        }
                    }
                    proof {
                        assert(reqs@ + self.work_queue@ =~= self.work_queue@);
                    }
                } else {
                    let ghost mut done: Seq<TrySend> = Seq::empty();
                    while reqs.len() > 0
                        invariant
                            self.wf(),
                            self.scheduler == old(self).scheduler,
                            done + reqs@ == all,
                            self.work_queue@ == old(self).work_queue@ + done,
                            self.next_wakeup_at_ms == old(self).next_wakeup_at_ms,
                            self.in_flight_receive_target == old(self).in_flight_receive_target,
                            self.host_call_active == old(self).host_call_active,
                            self.pending_user_ops@ == old(self).pending_user_ops@,
                            self.demanded_streams@ == old(self).demanded_streams@,
                            self.speculative_streams@ == old(self).speculative_streams@,
                            self.pending_host_calls@ == old(self).pending_host_calls@,
                            self.pending_user_events@ == old(self).pending_user_events@,
                        decreases reqs@.len(),
                    {
                        let ghost before = reqs@;
                        let req = reqs.remove(0);
                        proof {
                            assert(before =~= seq![req] + reqs@);
                            assert(done.push(req) + reqs@ =~= done + before);
                        }
                        self.work_queue.push_back(req);
                        proof {
                            assert(self.work_queue@ =~= old(self).work_queue@ + done.push(req));
                            done = done.push(req);
                        }
                    }
                    proof {
                        assert(done =~= all);
                    }
                }
                Ok(())
            },
            ActiveSessionOutput::SendAndThenReceive { send_request, then_receive_streams } => {
                self.work_queue.push_back(send_request);
                let mut streams = then_receive_streams;
                let ghost all = streams@;
                let ghost mut done: Seq<DesiredStream> = Seq::empty();
                while streams.len() > 0
                    invariant
                        self.wf(),
                        self.scheduler == old(self).scheduler,
                        done + streams@ == all,
                        self.demanded_streams@ == old(self).demanded_streams@ + done,
                        self.work_queue@ == old(self).work_queue@.push(send_request),
                        self.next_wakeup_at_ms == old(self).next_wakeup_at_ms,
                        self.in_flight_receive_target == old(self).in_flight_receive_target,
                        self.host_call_active == old(self).host_call_active,
                        self.pending_user_ops@ == old(self).pending_user_ops@,
                        self.speculative_streams@ == old(self).speculative_streams@,
                        self.pending_host_calls@ == old(self).pending_host_calls@,
                        self.pending_user_events@ == old(self).pending_user_events@,
                    decreases streams@.len(),
                {
                    let ghost before = streams@;
                    let s = streams.remove(0);
                    proof {
                        assert(before =~= seq![s] + streams@);
                        assert(done.push(s) + streams@ =~= done + before);
                    }
                    self.demanded_streams.push_back(s);
                    proof {
                        assert(self.demanded_streams@ =~= old(self).demanded_streams@ + done.push(s));
                        done = done.push(s);
                    }
                }
                proof {
                    assert(done =~= all);
                }
                Ok(())
            },
            ActiveSessionOutput::PendingReceive { desired_streams } => {
                merge_speculative_streams(&mut self.speculative_streams, desired_streams);
                Ok(())
            },
            ActiveSessionOutput::HostCall(hc) => {
                self.pending_host_calls.push_back(hc);
                Ok(())
            },
            ActiveSessionOutput::UserEvent(event) => {
                match &event {
                    UserEvent::PipelineFinished { pipeline } => {
                        self.scheduler.note_pipeline_finished(pipeline.id(), 0);
                    },
                    _ => {},
                }
                self.pending_user_events.push(event);
                Ok(())
            },
            ActiveSessionOutput::SendBackError(e) => Err(e),
            ActiveSessionOutput::OperationSuccess => Ok(()),
            ActiveSessionOutput::Ignore => Ok(()),
        }
    }

    /// Tells the scheduler how the Receive in flight went: an empty poll when
    /// the response only asked to poll again or reported nothing, progress
    /// otherwise.
    pub fn note_response(&mut self, outputs: &Vec<ActiveSessionOutput>, now_ms: u64)
        requires
            old(self).wf(),
        ensures
            final(self).wf(),
            response_noted(*old(self), *final(self), outputs@),
    {
        let in_flight = self.in_flight_receive_target;
        self.in_flight_receive_target = None;
        match in_flight {
            Some(target) => {
                let mut all_timeout_like = true;
                let mut i: usize = 0;
                while i < outputs.len()
                    invariant
                        i <= outputs@.len(),
                        all_timeout_like <==> forall|j: int|
                            0 <= j < i ==> (#[trigger] outputs@[j] is PendingReceive || outputs@[j] is OperationSuccess
                                || outputs@[j] is Ignore),
                    decreases outputs@.len() - i,
                {
                    let like = match &outputs[i] {
                        ActiveSessionOutput::PendingReceive { .. } => true,
                        ActiveSessionOutput::OperationSuccess => true,
                        ActiveSessionOutput::Ignore => true,
                        _ => false,
                    };
                    all_timeout_like = all_timeout_like && like;
                    i = i + 1;
                }
                if all_timeout_like {
                    self.scheduler.note_receive_timeout(target, now_ms);
                } else {
                    self.scheduler.note_receive_progress(target, now_ms);
                }
            },
            None => {},
        }
    }

    /// A server response, after the active session turned it into outputs:
    /// the scheduler hears how the Receive in flight went, then every output
    /// is routed in order; a `SendBackError` ends the step with its error.
    pub fn accept_response(&mut self, outputs: Vec<ActiveSessionOutput>, now_ms: u64) -> (r: Result<(), PwshCoreError>)
        requires
            old(self).wf(),
        ensures
            final(self).wf(),
            exists|states: Seq<SessionCore>, n: int|
                #![trigger route_chain(states, outputs@.take(n), r)]
                response_noted(*old(self), states[0], outputs@) && 0 <= n <= outputs@.len() && route_chain(
                    states,
                    outputs@.take(n),
                    r,
                ) && states.last() == *final(self) && (r is Ok ==> n == outputs@.len()) && (r is Err ==> n > 0
                    && outputs@[n - 1] is SendBackError),
    {
        self.note_response(&outputs, now_ms);
        let ghost noted = *self;
        let ghost all = outputs@;
        let mut rest = outputs;
        let ghost mut done: Seq<ActiveSessionOutput> = Seq::empty();
        let ghost mut states: Seq<SessionCore> = seq![noted];
        while rest.len() > 0
            invariant
                self.wf(),
                done + rest@ == all,
                all == outputs@,
                response_noted(*old(self), noted, outputs@),
                states[0] == noted,
                states.last() == *self,
                route_chain(states, done, Ok(())),
            decreases rest@.len(),
        {
            let ghost before = rest@;
            let o = rest.remove(0);
            proof {
                assert(before =~= seq![o] + rest@);
                assert(done.push(o) + rest@ =~= done + before);
            }
            let ghost og = o;
            let step = self.route_output(o, SendPriority::Normal);
            let ghost states2 = states.push(*self);
            proof {
                let d2 = done.push(og);
                assert forall|i: int| 0 <= i < d2.len() implies routed(
                    #[trigger] states2[i],
                    states2[i + 1],
                    d2[i],
                    SendPriority::Normal,
                    if i == d2.len() - 1 { step } else { Ok(()) },
                ) by {
                    if i < done.len() {
                        assert(states2[i] == states[i]);
                        assert(states2[i + 1] == states[i + 1]);
                        assert(d2[i] == done[i]);
                    }
                }
                assert(route_chain(states2, d2, step));
                assert(all.take(d2.len() as int) =~= d2);
            }
            match step {
                Ok(()) => {},
                Err(e) => {
                    proof {
                        assert(og is SendBackError);
                        assert(all[done.len() as int] == og);
                        assert(route_chain(states2, outputs@.take(done.len() + 1 as int), Err(e)));
                    }
                    return Err(e);
                },
            }
            proof {
                done = done.push(og);
                states = states2;
            }
        }
        proof {
            assert(done =~= all);
            assert(all.take(all.len() as int) =~= all);
        }
        Ok(())
    }

    /// Observes a user operation: a KillPipeline tells the scheduler that
    /// cancellation of the pipeline was requested at `now_ms`.
    pub fn observe_user_op(&mut self, op: &UserOperation, now_ms: u64)
        requires
            old(self).wf(),
        ensures
            op_observed(*old(self), *final(self), *op, now_ms),
    {
        match op {
            UserOperation::KillPipeline { pipeline, .. } => {
                self.scheduler.note_cancel_requested(pipeline.id(), now_ms);
            },
            _ => {},
        }
    }

    /// The output of a user operation that the active session processed while
    /// the connection was idle: a KillPipeline's requests go first.
    pub fn accept_user_op(&mut self, op: &UserOperation, output: ActiveSessionOutput, now_ms: u64) -> (r: Result<(), PwshCoreError>)
        requires
            old(self).wf(),
        ensures
            exists|observed: SessionCore| #[trigger] op_observed(*old(self), observed, *op, now_ms) && routed(
                observed,
                *final(self),
                output,
                if op is KillPipeline { SendPriority::Front } else { SendPriority::Normal },
                r,
            ),
    {
        let priority = SendPriority::for_user_op(op);
        self.observe_user_op(op, now_ms);
        let ghost observed = *self;
        let r = self.route_output(output, priority);
        assert(op_observed(*old(self), observed, *op, now_ms));
        r
    }

    /// The output of a host response that the active session processed while
    /// the connection was idle; the next host call may now be dispatched.
    pub fn accept_host_response(&mut self, output: ActiveSessionOutput) -> (r: Result<(), PwshCoreError>)
        requires
            old(self).wf(),
        ensures
            exists|cleared: SessionCore| #[trigger] routed(cleared, *final(self), output, SendPriority::Normal, r) && {
                &&& !cleared.host_call_active
                &&& cleared.scheduler == old(self).scheduler
                &&& cleared.next_wakeup_at_ms == old(self).next_wakeup_at_ms
                &&& cleared.in_flight_receive_target == old(self).in_flight_receive_target
                &&& cleared.work_queue@ == old(self).work_queue@
                &&& cleared.demanded_streams@ == old(self).demanded_streams@
                &&& cleared.speculative_streams@ == old(self).speculative_streams@
                &&& cleared.pending_host_calls@ == old(self).pending_host_calls@
                &&& cleared.pending_user_ops@ == old(self).pending_user_ops@
                &&& cleared.pending_user_events@ == old(self).pending_user_events@
            },
    {
        self.host_call_active = false;
        let ghost cleared = *self;
        let r = self.route_output(output, SendPriority::Normal);
        assert(routed(cleared, *self, output, SendPriority::Normal, r));
        r
    }

    /// Buffers a user operation while a request is in flight: a KillPipeline
    /// goes to the front.
    pub fn buffer_user_op(&mut self, op: UserOperation, now_ms: u64)
        requires
            old(self).wf(),
        ensures
            final(self).wf(),
            final(self).pending_user_ops@ == (if op is KillPipeline {
                seq![op] + old(self).pending_user_ops@
            } else {
                old(self).pending_user_ops@.push(op)
            }),
            match op {
                UserOperation::KillPipeline { pipeline, .. } => cancel_noted(old(self).scheduler, final(self).scheduler, pipeline.id, now_ms),
                _ => final(self).scheduler == old(self).scheduler,
            },
            final(self).next_wakeup_at_ms == old(self).next_wakeup_at_ms,
            final(self).in_flight_receive_target == old(self).in_flight_receive_target,
            final(self).work_queue@ == old(self).work_queue@,
            final(self).demanded_streams@ == old(self).demanded_streams@,
            final(self).speculative_streams@ == old(self).speculative_streams@,
            final(self).pending_host_calls@ == old(self).pending_host_calls@,
            final(self).host_call_active == old(self).host_call_active,
            final(self).pending_user_events@ == old(self).pending_user_events@,
    {
        self.observe_user_op(&op, now_ms);
        let kill = match &op {
            UserOperation::KillPipeline { .. } => true,
            _ => false,
        };
        if kill {
            self.pending_user_ops.push_front(op);
        } else {
            self.pending_user_ops.push_back(op);
        }
    }

    /// Buffers a host response while a request is in flight, as a
    /// SubmitHostResponse operation; the next host call may now be dispatched.
    pub fn buffer_host_response(&mut self, hr: HostResponse)
        ensures
            final(self).pending_user_ops@.len() == old(self).pending_user_ops@.len() + 1,
            final(self).pending_user_ops@.drop_last() == old(self).pending_user_ops@,
            final(self).pending_user_ops@.last() matches UserOperation::SubmitHostResponse {
                call_id,
                scope,
                ..
            } && call_id == hr.call_id && scope == hr.scope,
            !final(self).host_call_active,
            final(self).scheduler == old(self).scheduler,
            final(self).next_wakeup_at_ms == old(self).next_wakeup_at_ms,
            final(self).in_flight_receive_target == old(self).in_flight_receive_target,
            final(self).work_queue@ == old(self).work_queue@,
            final(self).demanded_streams@ == old(self).demanded_streams@,
            final(self).speculative_streams@ == old(self).speculative_streams@,
            final(self).pending_host_calls@ == old(self).pending_host_calls@,
            final(self).pending_user_events@ == old(self).pending_user_events@,
    {
        let HostResponse { call_id, scope, submission, response_xml } = hr;
        self.pending_user_ops.push_back(UserOperation::SubmitHostResponse { submission, scope, call_id, response_xml });
        self.host_call_active = false;
        proof {
            assert(self.pending_user_ops@.drop_last() =~= old(self).pending_user_ops@);
        }
    }

    /// The next host call to hand to the host, unless one is with it already;
    /// the handed one becomes active.
    pub fn poll_host_call(&mut self) -> (r: Option<HostCall>)
        ensures
            final(self).scheduler == old(self).scheduler,
            final(self).work_queue@ == old(self).work_queue@,
            final(self).demanded_streams@ == old(self).demanded_streams@,
            final(self).speculative_streams@ == old(self).speculative_streams@,
            final(self).pending_user_ops@ == old(self).pending_user_ops@,
            final(self).pending_user_events@ == old(self).pending_user_events@,
            final(self).next_wakeup_at_ms == old(self).next_wakeup_at_ms,
            final(self).in_flight_receive_target == old(self).in_flight_receive_target,
            if old(self).host_call_active || old(self).pending_host_calls@.len() == 0 {
                &&& r is None
                &&& final(self).pending_host_calls@ == old(self).pending_host_calls@
                &&& final(self).host_call_active == old(self).host_call_active
            } else {
                &&& r == Some(old(self).pending_host_calls@[0])
                &&& final(self).pending_host_calls@ == old(self).pending_host_calls@.drop_first()
                &&& final(self).host_call_active
            },
    {
        if self.host_call_active {
            return None;
        }
        if self.pending_host_calls.len() == 0 {
            return None;
        }
        let hc = self.pending_host_calls.pop_front().unwrap();
        self.host_call_active = true;
        Some(hc)
    }

    /// Takes the gathered user events.
    pub fn drain_user_events(&mut self) -> (r: Vec<UserEvent>)
        ensures
            r@ == old(self).pending_user_events@,
            final(self).pending_user_events@.len() == 0,
            final(self).scheduler == old(self).scheduler,
            final(self).work_queue@ == old(self).work_queue@,
            final(self).demanded_streams@ == old(self).demanded_streams@,
            final(self).speculative_streams@ == old(self).speculative_streams@,
            final(self).pending_host_calls@ == old(self).pending_host_calls@,
            final(self).host_call_active == old(self).host_call_active,
            final(self).pending_user_ops@ == old(self).pending_user_ops@,
            final(self).next_wakeup_at_ms == old(self).next_wakeup_at_ms,
            final(self).in_flight_receive_target == old(self).in_flight_receive_target,
    {
        let mut taken: Vec<UserEvent> = Vec::new();
        std::mem::swap(&mut taken, &mut self.pending_user_events);
        taken
    }

    /// Takes one buffered user operation when the connection is idle (the work
    /// queue is empty), or a buffered KillPipeline at any time; the operation
    /// is observed and handed out with the priority its requests get. One at a
    /// time, as processing it may queue a request again.
    pub fn process_one_buffered_op(&mut self, now_ms: u64) -> (r: Option<(UserOperation, SendPriority)>)
        requires
            old(self).wf(),
        ensures
            final(self).wf(),
            final(self).work_queue@ == old(self).work_queue@,
            final(self).demanded_streams@ == old(self).demanded_streams@,
            final(self).speculative_streams@ == old(self).speculative_streams@,
            final(self).pending_host_calls@ == old(self).pending_host_calls@,
            final(self).host_call_active == old(self).host_call_active,
            final(self).pending_user_events@ == old(self).pending_user_events@,
            final(self).next_wakeup_at_ms == old(self).next_wakeup_at_ms,
            final(self).in_flight_receive_target == old(self).in_flight_receive_target,
            if old(self).pending_user_ops@.len() > 0 && (old(self).work_queue@.len() == 0
                || old(self).pending_user_ops@[0] is KillPipeline) {
                let op = old(self).pending_user_ops@[0];
                &&& r == Some((op, if op is KillPipeline { SendPriority::Front } else { SendPriority::Normal }))
                &&& final(self).pending_user_ops@ == old(self).pending_user_ops@.drop_first()
                &&& match op {
                    UserOperation::KillPipeline { pipeline, .. } => cancel_noted(old(self).scheduler, final(self).scheduler, pipeline.id, now_ms),
                    _ => final(self).scheduler == old(self).scheduler,
                }
            } else {
                &&& r is None
                &&& final(self).pending_user_ops@ == old(self).pending_user_ops@
                &&& final(self).scheduler == old(self).scheduler
            },
    {
        let can_process = if self.work_queue.len() == 0 {
            true
        } else if self.pending_user_ops.len() > 0 {
            match &self.pending_user_ops[0] {
                UserOperation::KillPipeline { .. } => true,
                _ => false,
            }
        } else {
            false
        };
        if !can_process || self.pending_user_ops.len() == 0 {
            return None;
        }
        let op = self.pending_user_ops.pop_front().unwrap();
        let priority = SendPriority::for_user_op(&op);
        self.observe_user_op(&op, now_ms);
        Some((op, priority))
    }

    /// The first demanded stream that may be received, the finished ones
    /// before it dropped.
    fn try_promote_demanded_receive(&mut self, now_ms: u64) -> (r: Option<Promotion>)
        requires
            old(self).wf(),
            old(self).next_wakeup_at_ms is None,
        ensures
            final(self).wf(),
            final(self).scheduler == old(self).scheduler,
            final(self).same_host_side(&*old(self)),
            final(self).next_wakeup_at_ms is None,
            final(self).work_queue@ == old(self).work_queue@,
            final(self).speculative_streams@ == old(self).speculative_streams@,
            match r {
                Some(p) => exists|k: int| #[trigger] old(self).first_demanded(k) && {
                    let stream = old(self).demanded_streams@[k];
                    &&& p == Promotion::Receive { stream, target: target_of(stream) }
                    &&& final(self).in_flight_receive_target == Some(target_of(stream))
                    &&& final(self).demanded_streams@ == old(self).demanded_streams@.skip(k + 1)
                },
                None => {
                    &&& forall|k: int| !(#[trigger] old(self).first_demanded(k))
                    &&& final(self).demanded_streams@.len() == 0
                    &&& final(self).in_flight_receive_target == old(self).in_flight_receive_target
                },
            },
    {
        let ghost d0 = self.demanded_streams@;
        let ghost k: int = 0;
        while self.demanded_streams.len() > 0
            invariant
                self.wf(),
                self.scheduler == old(self).scheduler,
                self.same_host_side(&*old(self)),
                self.next_wakeup_at_ms is None,
                self.work_queue@ == old(self).work_queue@,
                self.speculative_streams@ == old(self).speculative_streams@,
                self.in_flight_receive_target == old(self).in_flight_receive_target,
                d0 == old(self).demanded_streams@,
                0 <= k <= d0.len(),
                self.demanded_streams@ == d0.skip(k),
                forall|j: int| 0 <= j < k ==> !old(self).demanded_ok(#[trigger] d0[j]),
            decreases self.demanded_streams@.len(),
        {
            let stream = self.demanded_streams.pop_front().unwrap();
            proof {
                assert(stream == d0[k]);
                assert(self.demanded_streams@ =~= d0.skip(k + 1));
            }
            let target = TargetId::from_stream(&stream);
            if !self.scheduler.is_allowed_target(target, now_ms) {
                match self.scheduler.next_eligible_at_ms(target) {
                    Some(at) => {
                        self.next_wakeup_at_ms = match self.next_wakeup_at_ms {
                            Some(cur) => Some(if cur < at { cur } else { at }),
                            None => Some(at),
                        };
                    },
                    None => {},
                }
                proof {
                    k = k + 1;
                }
                continue;
            }
            self.in_flight_receive_target = Some(target);
            proof {
                assert(old(self).first_demanded(k));
            }
            return Some(Promotion::Receive { stream, target });
        }
        proof {
            assert forall|j: int| !(#[trigger] old(self).first_demanded(j)) by {
                if old(self).first_demanded(j) {
                    assert(j < k);
                }
            }
        }
        None
    }

    /// The first speculative pipeline stream that may be received.
    fn try_promote_speculative_receive(&mut self, now_ms: u64) -> (r: Promotion)
        requires
            old(self).wf(),
            old(self).next_wakeup_at_ms is None,
        ensures
            final(self).wf(),
            final(self).scheduler == old(self).scheduler,
            final(self).same_host_side(&*old(self)),
            final(self).next_wakeup_at_ms is None,
            final(self).work_queue@ == old(self).work_queue@,
            final(self).demanded_streams@ == old(self).demanded_streams@,
            match r {
                Promotion::Receive { stream, target } => exists|k: int| #[trigger] old(self).first_speculative(k) && {
                    &&& stream == old(self).speculative_streams@[k]
                    &&& target == target_of(stream)
                    &&& final(self).in_flight_receive_target == Some(target)
                    &&& final(self).speculative_streams@ == old(self).speculative_streams@.remove(k)
                },
                Promotion::Idle => {
                    &&& forall|k: int| !(#[trigger] old(self).first_speculative(k))
                    &&& final(self).in_flight_receive_target is None
                    &&& final(self).speculative_streams@ == old(self).speculative_streams@
                },
                Promotion::Send(_) => false,
            },
    {
        let mut earliest_blocked: Option<u64> = None;
        let mut idx_to_take: Option<usize> = None;
        let mut idx: usize = 0;
        while idx < self.speculative_streams.len()
            invariant_except_break
                idx_to_take is None,
            invariant
                self.wf(),
                *self == *old(self),
                idx <= self.speculative_streams@.len(),
                earliest_blocked is None,
                forall|j: int| 0 <= j < idx ==> !self.speculative_ok(#[trigger] self.speculative_streams@[j]),
            ensures
                match idx_to_take {
                    Some(i) => i == idx && idx < self.speculative_streams@.len() && self.speculative_ok(
                        self.speculative_streams@[idx as int],
                    ),
                    None => idx >= self.speculative_streams@.len(),
                },
            decreases self.speculative_streams@.len() - idx,
        {
            let s = &self.speculative_streams[idx];
            if s.command_id().is_none() {
                idx = idx + 1;
                continue;
            }
            let target = TargetId::from_stream(s);
            if self.scheduler.is_allowed_target(target, now_ms) {
                idx_to_take = Some(idx);
                break;
            }
            match self.scheduler.next_eligible_at_ms(target) {
                Some(at) => {
                    earliest_blocked = match earliest_blocked {
                        Some(cur) => Some(if cur < at { cur } else { at }),
                        None => Some(at),
                    };
                },
                None => {},
            }
            idx = idx + 1;
        }
        match idx_to_take {
            Some(i) => {
                proof {
                    assert(self.first_speculative(i as int));
                }
                let stream = self.speculative_streams.remove(i);
                let target = TargetId::from_stream(&stream);
                self.in_flight_receive_target = Some(target);
                return Promotion::Receive { stream, target };
            },
            None => {},
        }
        match earliest_blocked {
            Some(at) => {
                self.next_wakeup_at_ms = match self.next_wakeup_at_ms {
                    Some(cur) => Some(if cur < at { cur } else { at }),
                    None => Some(at),
                };
                return Promotion::Idle;
            },
            None => {},
        }
        self.in_flight_receive_target = None;
        proof {
            assert forall|k: int| !(#[trigger] old(self).first_speculative(k)) by {
                if old(self).first_speculative(k) {
                    assert(k < idx);
                }
            }
        }
        Promotion::Idle
    }
}


/// Every field of the core but the scheduler is as it was.
pub open spec fn queues_same(a: SessionCore, b: SessionCore) -> bool {
    &&& a.next_wakeup_at_ms == b.next_wakeup_at_ms
    &&& a.in_flight_receive_target == b.in_flight_receive_target
    &&& a.work_queue@ == b.work_queue@
    &&& a.demanded_streams@ == b.demanded_streams@
    &&& a.speculative_streams@ == b.speculative_streams@
    &&& a.pending_host_calls@ == b.pending_host_calls@
    &&& a.host_call_active == b.host_call_active
    &&& a.pending_user_ops@ == b.pending_user_ops@
    &&& a.pending_user_events@ == b.pending_user_events@
}

/// Where one output of the active session goes. A `SendBack` joins the work
/// queue (at the front, in order, for `Front`); a send-then-receive queues its
/// request and demands its streams; a pending Receive is merged into the
/// speculative streams; host calls and user events are queued (a finished
/// pipeline is never polled again); an error ends the session step; the rest
/// changes nothing.
pub open spec fn routed(
    c0: SessionCore,
    c1: SessionCore,
    output: ActiveSessionOutput,
    priority: SendPriority,
    r: Result<(), PwshCoreError>,
) -> bool {
    let frame = c1.next_wakeup_at_ms == c0.next_wakeup_at_ms && c1.in_flight_receive_target
        == c0.in_flight_receive_target && c1.host_call_active == c0.host_call_active
        && c1.pending_user_ops@ == c0.pending_user_ops@;
    &&& frame
    &&& c1.wf()
    &&& match output {
        ActiveSessionOutput::SendBack(reqs) => {
            &&& r is Ok
            &&& c1.work_queue@ == (if priority == SendPriority::Front {
                reqs@ + c0.work_queue@
            } else {
                c0.work_queue@ + reqs@
            })
            &&& c1.scheduler == c0.scheduler
            &&& c1.demanded_streams@ == c0.demanded_streams@
            &&& c1.speculative_streams@ == c0.speculative_streams@
            &&& c1.pending_host_calls@ == c0.pending_host_calls@
            &&& c1.pending_user_events@ == c0.pending_user_events@
        },
        ActiveSessionOutput::SendAndThenReceive { send_request, then_receive_streams } => {
            &&& r is Ok
            &&& c1.work_queue@ == c0.work_queue@.push(send_request)
            &&& c1.demanded_streams@ == c0.demanded_streams@ + then_receive_streams@
            &&& c1.scheduler == c0.scheduler
            &&& c1.speculative_streams@ == c0.speculative_streams@
            &&& c1.pending_host_calls@ == c0.pending_host_calls@
            &&& c1.pending_user_events@ == c0.pending_user_events@
        },
        ActiveSessionOutput::PendingReceive { desired_streams } => {
            &&& r is Ok
            &&& c1.speculative_streams@ == merged(c0.speculative_streams@, desired_streams@)
            &&& c1.scheduler == c0.scheduler
            &&& c1.work_queue@ == c0.work_queue@
            &&& c1.demanded_streams@ == c0.demanded_streams@
            &&& c1.pending_host_calls@ == c0.pending_host_calls@
            &&& c1.pending_user_events@ == c0.pending_user_events@
        },
        ActiveSessionOutput::HostCall(hc) => {
            &&& r is Ok
            &&& c1.pending_host_calls@ == c0.pending_host_calls@.push(hc)
            &&& c1.scheduler == c0.scheduler
            &&& c1.work_queue@ == c0.work_queue@
            &&& c1.demanded_streams@ == c0.demanded_streams@
            &&& c1.speculative_streams@ == c0.speculative_streams@
            &&& c1.pending_user_events@ == c0.pending_user_events@
        },
        ActiveSessionOutput::UserEvent(ev) => {
            &&& r is Ok
            &&& c1.pending_user_events@ == c0.pending_user_events@.push(ev)
            &&& match ev {
                UserEvent::PipelineFinished { pipeline } => finished_noted(c0.scheduler, c1.scheduler, pipeline.id),
                _ => c1.scheduler == c0.scheduler,
            }
            &&& c1.work_queue@ == c0.work_queue@
            &&& c1.demanded_streams@ == c0.demanded_streams@
            &&& c1.speculative_streams@ == c0.speculative_streams@
            &&& c1.pending_host_calls@ == c0.pending_host_calls@
        },
        ActiveSessionOutput::SendBackError(e) => {
            &&& r == Err::<(), PwshCoreError>(e)
            &&& c1.scheduler == c0.scheduler
            &&& queues_same(c0, c1)
        },
        _ => {
            &&& r is Ok
            &&& c1.scheduler == c0.scheduler
            &&& queues_same(c0, c1)
        },
    }
}

/// `states` is the core before and after routing each output of `outs` in
/// order; every output but the last routes without error, the last gives `r`.
pub open spec fn route_chain(states: Seq<SessionCore>, outs: Seq<ActiveSessionOutput>, r: Result<(), PwshCoreError>) -> bool {
    &&& states.len() == outs.len() + 1
    &&& outs.len() == 0 ==> r is Ok
    &&& forall|i: int|
        0 <= i < outs.len() ==> routed(
            #[trigger] states[i],
            states[i + 1],
            outs[i],
            SendPriority::Normal,
            if i == outs.len() - 1 { r } else { Ok(()) },
        )
}

/// A response that only asked to poll again, or reported nothing: an empty poll.
pub open spec fn timeout_like(outs: Seq<ActiveSessionOutput>) -> bool {
    forall|i: int|
        0 <= i < outs.len() ==> (#[trigger] outs[i] is PendingReceive || outs[i] is OperationSuccess || outs[i] is Ignore)
}

/// The scheduler has heard how the Receive in flight went, and nothing is in flight.
pub open spec fn response_noted(c0: SessionCore, c1: SessionCore, outs: Seq<ActiveSessionOutput>) -> bool {
    &&& c1.in_flight_receive_target is None
    &&& match c0.in_flight_receive_target {
        Some(t) => if timeout_like(outs) {
            timeout_noted(c0.scheduler, c1.scheduler, t)
        } else {
            progress_noted(c0.scheduler, c1.scheduler, t)
        },
        None => c1.scheduler == c0.scheduler,
    }
    &&& c1.next_wakeup_at_ms == c0.next_wakeup_at_ms
    &&& c1.work_queue@ == c0.work_queue@
    &&& c1.demanded_streams@ == c0.demanded_streams@
    &&& c1.speculative_streams@ == c0.speculative_streams@
    &&& c1.pending_host_calls@ == c0.pending_host_calls@
    &&& c1.host_call_active == c0.host_call_active
    &&& c1.pending_user_ops@ == c0.pending_user_ops@
    &&& c1.pending_user_events@ == c0.pending_user_events@
}

/// A user operation observed at `now`: a KillPipeline tells the scheduler that
/// cancellation of the pipeline was requested.
pub open spec fn op_observed(c0: SessionCore, c1: SessionCore, op: UserOperation, now: u64) -> bool {
    &&& queues_same(c0, c1)
    &&& c1.wf()
    &&& match op {
        UserOperation::KillPipeline { pipeline, .. } => cancel_noted(c0.scheduler, c1.scheduler, pipeline.id, now),
        _ => c1.scheduler == c0.scheduler,
    }
}

/// Merging keeps the speculative streams free of duplicates, and every merged
/// stream is among them afterwards.
pub proof fn lemma_merge_keeps_streams_unique(existing: Seq<DesiredStream>, new: Seq<DesiredStream>)
    requires
        no_dup_streams(existing),
    ensures
        no_dup_streams(merged(existing, new)),
        forall|i: int| 0 <= i < new.len() ==> has_stream(merged(existing, new), #[trigger] new[i]),
        forall|i: int| 0 <= i < existing.len() ==> has_stream(merged(existing, new), #[trigger] existing[i]),
    decreases new.len(),
{
    if new.len() == 0 {
        assert forall|i: int| 0 <= i < existing.len() implies has_stream(existing, #[trigger] existing[i]) by {
            assert(same_stream(existing[i], existing[i]));
        }
    } else {
        let pre = new.drop_last();
        lemma_merge_keeps_streams_unique(existing, pre);
        let m = merged(existing, pre);
        let x = new.last();
        if has_stream(m, x) {
            assert forall|i: int| 0 <= i < new.len() implies has_stream(merged(existing, new), #[trigger] new[i]) by {
                if i < new.len() - 1 {
                    assert(new[i] == pre[i]);
                }
            }
        } else {
            let m2 = m.push(x);
            assert forall|i: int, j: int| 0 <= i < j < m2.len() implies !same_stream(#[trigger] m2[i], #[trigger] m2[j]) by {
                if j == m.len() {
                    assert(m2[i] == m[i]);
                    if same_stream(m[i], x) {
                        assert(has_stream(m, x));
                    }
                } else {
                    assert(m2[i] == m[i] && m2[j] == m[j]);
                }
            }
            assert forall|k: int| 0 <= k < m.len() implies #[trigger] m2[k] == m[k] by {}
            assert forall|i: int| 0 <= i < new.len() implies has_stream(m2, #[trigger] new[i]) by {
                if i < new.len() - 1 {
                    assert(new[i] == pre[i]);
                    assert(has_stream(m, pre[i]));
                    let k = choose|k: int| 0 <= k < m.len() && same_stream(#[trigger] m[k], pre[i]);
                    assert(m2[k] == m[k]);
                } else {
                    assert(same_stream(m2[m.len() as int], x));
                }
            }
            assert forall|i: int| 0 <= i < existing.len() implies has_stream(m2, #[trigger] existing[i]) by {
                assert(has_stream(m, existing[i]));
                let k = choose|k: int| 0 <= k < m.len() && same_stream(#[trigger] m[k], existing[i]);
                assert(m2[k] == m[k]);
            }
        }
    }
}

} // verus!

//! Receive scheduling policy of the serial session loop: which targets may
//! still be polled, and how long the server should hold each Receive.
use vstd::prelude::*;
use vstd::arithmetic::power2::{lemma_pow2_strictly_increases, lemma2_to64, pow2};
use vstd::bits::{lemma_u64_pow2_no_overflow, lemma_u64_shl_is_mul};

use crate::runspace_pool::streams::DesiredStream;

verus! {

/// Server-side hold of a fresh target, in milliseconds.
pub const BASE_HOLD_MS: u64 = 250;
/// Largest server-side hold, in milliseconds.
pub const MAX_HOLD_MS: u64 = 1000;
/// Largest hold once cancellation of a pipeline was requested.
pub const MAX_HOLD_AFTER_CANCEL_MS: u64 = 500;
/// Largest hold while the user was recently active.
pub const ACTIVITY_CAP_MS: u64 = 250;
/// How long after user activity the activity cap applies.
pub const ACTIVITY_WINDOW_MS: u64 = 3000;

/// What a Receive polls: the pool itself or one pipeline.
#[derive(Debug, Clone, Copy, PartialEq, Eq, Hash, Structural)]
pub enum TargetId {
    RunspacePool,
    Pipeline(u128),
}

/// The target a stream belongs to.
pub open spec fn target_of(s: DesiredStream) -> TargetId {
    match s.command_id {
        Some(id) => TargetId::Pipeline(id),
        None => TargetId::RunspacePool,
    }
}

impl TargetId {
    pub fn from_stream(s: &DesiredStream) -> (r: Self)
        ensures
            r == target_of(*s),
    {
        match s.command_id() {
            Some(id) => TargetId::Pipeline(id),
            None => TargetId::RunspacePool,
        }
    }
}

/// What the scheduler remembers of one target.
#[derive(Debug, Clone, Copy, PartialEq, Eq, Structural)]
pub struct TargetState {
    /// Empty polls in a row.
    pub timeout_streak: u32,
    /// The pipeline finished; it is never polled again.
    pub finished: bool,
    /// When cancellation was requested, if it was.
    pub cancel_requested_at_ms: Option<u64>,
}

/// The state of a target the scheduler has not heard of.
pub open spec fn fresh_state() -> TargetState {
    TargetState { timeout_streak: 0, finished: false, cancel_requested_at_ms: None }
}

impl Default for TargetState {
    fn default() -> (r: Self)
        ensures
            r == fresh_state(),
    {
        TargetState { timeout_streak: 0, finished: false, cancel_requested_at_ms: None }
    }
}

/// The state a note about a target starts from.
pub open spec fn state_or_fresh(st: Option<TargetState>) -> TargetState {
    match st {
        Some(s) => s,
        None => fresh_state(),
    }
}

pub open spec fn min_nat(a: nat, b: nat) -> nat {
    if a <= b { a } else { b }
}

/// Hold for a streak of empty polls: the base hold doubled per empty poll
/// (the exponent capped at 31), never above the maximum.
pub open spec fn streak_hold(streak: nat) -> nat {
    min_nat(BASE_HOLD_MS as nat * pow2(min_nat(streak, 31)), MAX_HOLD_MS as nat)
}

/// Whether user activity at `last` is recent at `now`.
pub open spec fn recently_active(last: Option<u64>, now: u64) -> bool {
    match last {
        Some(l) => (if now >= l { now - l } else { 0 }) <= ACTIVITY_WINDOW_MS,
        None => false,
    }
}

/// The server-side hold for a target in the given state.
pub open spec fn hold_for(st: Option<TargetState>, active: bool) -> nat {
    let streak: nat = match st {
        Some(s) => s.timeout_streak as nat,
        None => 0,
    };
    let h0 = streak_hold(streak);
    let h1 = match st {
        Some(s) => if s.cancel_requested_at_ms is Some { min_nat(h0, MAX_HOLD_AFTER_CANCEL_MS as nat) } else { h0 },
        None => h0,
    };
    if active { min_nat(h1, ACTIVITY_CAP_MS as nat) } else { h1 }
}

/// Scheduling policy of the serial loop, for whoever drives it.
pub trait ReceiveScheduler {
    /// The scheduler's internal invariant.
    spec fn inv(&self) -> bool;

    fn note_cancel_requested(&mut self, pipeline_id: u128, now_ms: u64)
        requires
            old(self).inv(),
        ensures
            final(self).inv(),
    ;

    fn note_pipeline_finished(&mut self, pipeline_id: u128, now_ms: u64)
        requires
            old(self).inv(),
        ensures
            final(self).inv(),
    ;

    fn note_receive_timeout(&mut self, target: TargetId, now_ms: u64)
        requires
            old(self).inv(),
        ensures
            final(self).inv(),
    ;

    fn note_receive_progress(&mut self, target: TargetId, now_ms: u64)
        requires
            old(self).inv(),
        ensures
            final(self).inv(),
    ;

    fn note_user_activity(&mut self, now_ms: u64)
        requires
            old(self).inv(),
        ensures
            final(self).inv(),
    ;

    fn is_allowed_target(&self, target: TargetId, now_ms: u64) -> bool
        requires
            self.inv(),
    ;

    /// The earliest time the target may be polled, or `None` for a finished
    /// target, which is never scheduled again.
    fn next_eligible_at_ms(&self, target: TargetId) -> Option<u64>
        requires
            self.inv(),
    ;

    /// Server-side hold (the Receive operation timeout) for the next poll of
    /// the target, in milliseconds.
    fn receive_hold_ms(&self, target: TargetId, now_ms: u64) -> u64
        requires
            self.inv(),
    ;
}

/// The default policy:
/// - a finished pipeline is never polled again;
/// - after cancellation is requested the hold is capped, so that the finish is seen quickly;
/// - each empty poll doubles the server-side hold up to a maximum, so that the
///   connection always has a Receive parked instead of sleeping on the client;
/// - while the user is active the hold is capped low.
#[derive(Debug)]
pub struct DefaultReceiveScheduler {
    targets: Vec<(TargetId, TargetState)>,
    last_user_activity_ms: Option<u64>,
}

impl DefaultReceiveScheduler {
    /// No target is listed twice.
    pub closed spec fn wf(&self) -> bool {
        forall|i: int, j: int|
            0 <= i < self.targets@.len() && 0 <= j < self.targets@.len() && i != j
                ==> #[trigger] self.targets@[i].0 != #[trigger] self.targets@[j].0
    }

    /// What the scheduler remembers of a target, if anything.
    pub closed spec fn state_of(&self, t: TargetId) -> Option<TargetState> {
        if exists|i: int| 0 <= i < self.targets@.len() && #[trigger] self.targets@[i].0 == t {
            let i = choose|i: int| 0 <= i < self.targets@.len() && #[trigger] self.targets@[i].0 == t;
            Some(self.targets@[i].1)
        } else {
            None
        }
    }

    /// When the user was last active, if ever.
    pub closed spec fn last_activity(&self) -> Option<u64> {
        self.last_user_activity_ms
    }

    pub open spec fn is_finished(&self, t: TargetId) -> bool {
        self.state_of(t) matches Some(s) && s.finished
    }

    pub open spec fn is_cancel_requested(&self, t: TargetId) -> bool {
        self.state_of(t) matches Some(s) && s.cancel_requested_at_ms is Some
    }

    /// The hold the scheduler gives a target at a time.
    pub open spec fn hold_at(&self, t: TargetId, now: u64) -> nat {
        hold_for(self.state_of(t), recently_active(self.last_activity(), now))
    }

    /// Every target other than `t` is remembered as before, and so is the
    /// last user activity.
    pub open spec fn others_unchanged(&self, old: &Self, t: TargetId) -> bool {
        &&& forall|u: TargetId| u != t ==> #[trigger] self.state_of(u) == old.state_of(u)
        &&& self.last_activity() == old.last_activity()
    }

    /// A finished target stays finished, and a cancelled one stays cancelled.
    pub open spec fn keeps_marks(&self, old: &Self) -> bool {
        &&& forall|t: TargetId| #[trigger] old.is_finished(t) ==> self.is_finished(t)
        &&& forall|t: TargetId| #[trigger] old.is_cancel_requested(t) ==> self.is_cancel_requested(t)
    }

    proof fn lemma_state_at(&self, i: int)
        requires
            self.wf(),
            0 <= i < self.targets@.len(),
        ensures
            self.state_of(self.targets@[i].0) == Some(self.targets@[i].1),
    {
        let t = self.targets@[i].0;
        assert(self.targets@[i].0 == t);
        let k = choose|k: int| 0 <= k < self.targets@.len() && #[trigger] self.targets@[k].0 == t;
        assert(k == i);
    }

    pub fn new() -> (r: Self)
        ensures
            r.wf(),
            forall|t: TargetId| #[trigger] r.state_of(t) == None::<TargetState>,
            r.last_activity() == None::<u64>,
    {
        DefaultReceiveScheduler { targets: Vec::new(), last_user_activity_ms: None }
    }

    fn find(&self, id: TargetId) -> (r: Option<usize>)
        requires
            self.wf(),
        ensures
            match r {
                Some(i) => i < self.targets@.len() && self.targets@[i as int].0 == id
                    && self.state_of(id) == Some(self.targets@[i as int].1),
                None => self.state_of(id) == None::<TargetState>
                    && forall|k: int| 0 <= k < self.targets@.len() ==> #[trigger] self.targets@[k].0 != id,
            },
    {
        let mut i: usize = 0;
        while i < self.targets.len()
            invariant
                i <= self.targets@.len(),
                self.wf(),
                forall|k: int| 0 <= k < i ==> #[trigger] self.targets@[k].0 != id,
            decreases self.targets@.len() - i,
        {
            if self.targets[i].0 == id {
                proof {
                    self.lemma_state_at(i as int);
                }
                return Some(i);
            }
            i = i + 1;
        }
        None
    }

    /// The state of `id` after `f` changed it, all else kept.
    fn update(&mut self, id: TargetId, st: TargetState)
        requires
            old(self).wf(),
        ensures
            final(self).wf(),
            final(self).state_of(id) == Some(st),
            final(self).others_unchanged(&*old(self), id),
    {
        match self.find(id) {
            Some(i) => {
                let ghost before = *self;
                self.targets.set(i, (id, st));
                proof {
                    assert forall|k: int| 0 <= k < self.targets@.len() implies #[trigger] self.targets@[k].0
                        == before.targets@[k].0 by {}
                    assert(self.wf());
                    self.lemma_state_at(i as int);
                    assert forall|u: TargetId| u != id implies #[trigger] self.state_of(u) == before.state_of(u) by {
                        if exists|k: int| 0 <= k < before.targets@.len() && #[trigger] before.targets@[k].0 == u {
                            let k = choose|k: int| 0 <= k < before.targets@.len() && #[trigger] before.targets@[k].0 == u;
                            before.lemma_state_at(k);
                            self.lemma_state_at(k);
                        } else {
                            assert forall|k: int| 0 <= k < self.targets@.len() implies #[trigger] self.targets@[k].0 != u by {
                                if k != i {
                                    assert(before.targets@[k].0 != u);
                                }
                            }
                        }
                    }
                }
            },
            None => {
                let ghost before = *self;
                self.targets.push((id, st));
                proof {
                    let n = before.targets@.len() as int;
                    self.lemma_state_at(n);
                    assert forall|u: TargetId| u != id implies #[trigger] self.state_of(u) == before.state_of(u) by {
                        if exists|k: int| 0 <= k < before.targets@.len() && #[trigger] before.targets@[k].0 == u {
                            let k = choose|k: int| 0 <= k < before.targets@.len() && #[trigger] before.targets@[k].0 == u;
                            before.lemma_state_at(k);
                            self.lemma_state_at(k);
                        } else {
                            assert forall|k: int| 0 <= k < self.targets@.len() implies #[trigger] self.targets@[k].0 != u by {
                                if k != n {
                                    assert(before.targets@[k].0 != u);
                                }
                            }
                        }
                    }
                }
            },
        }
    }

    /// The remembered state of `id`, or that of a fresh target.
    fn current(&self, id: TargetId) -> (r: TargetState)
        requires
            self.wf(),
        ensures
            r == state_or_fresh(self.state_of(id)),
    {
        match self.find(id) {
            Some(i) => self.targets[i].1,
            None => TargetState::default(),
        }
    }
}

impl ReceiveScheduler for DefaultReceiveScheduler {
    open spec fn inv(&self) -> bool {
        self.wf()
    }

    /// Cancellation is cooperative: the pipeline stays polled, with short
    /// holds, so that its finish is observed.
    fn note_cancel_requested(&mut self, pipeline_id: u128, now_ms: u64)
        ensures
            cancel_noted(*old(self), *final(self), pipeline_id, now_ms),
            final(self).keeps_marks(&*old(self)),
    {
        let id = TargetId::Pipeline(pipeline_id);
        let mut st = self.current(id);
        st.cancel_requested_at_ms = Some(now_ms);
        st.timeout_streak = 0;
        self.update(id, st);
    }

    fn note_pipeline_finished(&mut self, pipeline_id: u128, now_ms: u64)
        ensures
            finished_noted(*old(self), *final(self), pipeline_id),
            final(self).keeps_marks(&*old(self)),
    {
        let id = TargetId::Pipeline(pipeline_id);
        let mut st = self.current(id);
        st.finished = true;
        self.update(id, st);
    }

    /// An empty poll: no client-side sleep, the next hold grows instead.
    fn note_receive_timeout(&mut self, target: TargetId, now_ms: u64)
        ensures
            timeout_noted(*old(self), *final(self), target),
            final(self).keeps_marks(&*old(self)),
    {
        let mut st = self.current(target);
        st.timeout_streak = st.timeout_streak.saturating_add(1);
        self.update(target, st);
    }

    fn note_receive_progress(&mut self, target: TargetId, now_ms: u64)
        ensures
            progress_noted(*old(self), *final(self), target),
            final(self).keeps_marks(&*old(self)),
    {
        let mut st = self.current(target);
        st.timeout_streak = 0;
        self.update(target, st);
    }

    fn note_user_activity(&mut self, now_ms: u64)
        ensures
            forall|t: TargetId| #[trigger] final(self).state_of(t) == old(self).state_of(t),
            final(self).last_activity() == Some(now_ms),
            final(self).keeps_marks(&*old(self)),
    {
        let ghost before = *self;
        self.last_user_activity_ms = Some(now_ms);
        assert(self.targets == before.targets);
        assert forall|t: TargetId| #[trigger] self.state_of(t) == before.state_of(t) by {}
    }

    fn is_allowed_target(&self, target: TargetId, now_ms: u64) -> (r: bool)
        ensures
            r == !self.is_finished(target),
    {
        match self.find(target) {
            Some(i) => !self.targets[i].1.finished,
            None => true,
        }
    }

    fn next_eligible_at_ms(&self, target: TargetId) -> (r: Option<u64>)
        ensures
            r == (if self.is_finished(target) { None } else { Some(0u64) }),
    {
        match self.find(target) {
            Some(i) => if self.targets[i].1.finished { None } else { Some(0) },
            None => Some(0),
        }
    }

    fn receive_hold_ms(&self, target: TargetId, now_ms: u64) -> (r: u64)
        ensures
            r == self.hold_at(target, now_ms),
    {
        let found = self.find(target);
        let streak: u32 = match found {
            Some(i) => self.targets[i].1.timeout_streak,
            None => 0,
        };
        let exp: u64 = if streak < 31 { streak as u64 } else { 31 };
        proof {
            lemma_u64_pow2_no_overflow(exp as nat);
            lemma2_to64();
            if exp < 31 {
                lemma_pow2_strictly_increases(exp as nat, 31);
            }
            assert(pow2(exp as nat) <= 0x80000000);
            lemma_u64_shl_is_mul(1, exp);
            assert(BASE_HOLD_MS * pow2(exp as nat) <= 250 * 0x80000000) by (nonlinear_arith)
                requires
                    pow2(exp as nat) <= 0x80000000,
            ;
        }
        let pow: u64 = 1u64 << exp;
        let product: u64 = BASE_HOLD_MS * pow;
        let mut hold: u64 = if product < MAX_HOLD_MS { product } else { MAX_HOLD_MS };
        let cancelled = match found {
            Some(i) => self.targets[i].1.cancel_requested_at_ms.is_some(),
            None => false,
        };
        if cancelled && MAX_HOLD_AFTER_CANCEL_MS < hold {
            hold = MAX_HOLD_AFTER_CANCEL_MS;
        }
        let active = match self.last_user_activity_ms {
            Some(last) => now_ms.saturating_sub(last) <= ACTIVITY_WINDOW_MS,
            None => false,
        };
        if active && ACTIVITY_CAP_MS < hold {
            hold = ACTIVITY_CAP_MS;
        }
        hold
    }
}

/// Cancellation of a pipeline noted at `now`: its streak restarts and the
/// request time is remembered.
pub open spec fn cancel_noted(s0: DefaultReceiveScheduler, s1: DefaultReceiveScheduler, id: u128, now: u64) -> bool {
    let t = TargetId::Pipeline(id);
    &&& s1.wf()
    &&& s1.state_of(t) == Some(TargetState {
        timeout_streak: 0,
        cancel_requested_at_ms: Some(now),
        ..state_or_fresh(s0.state_of(t))
    })
    &&& s1.others_unchanged(&s0, t)
}

/// A pipeline's finish noted: it is never polled again.
pub open spec fn finished_noted(s0: DefaultReceiveScheduler, s1: DefaultReceiveScheduler, id: u128) -> bool {
    let t = TargetId::Pipeline(id);
    &&& s1.wf()
    &&& s1.state_of(t) == Some(TargetState { finished: true, ..state_or_fresh(s0.state_of(t)) })
    &&& s1.others_unchanged(&s0, t)
}

/// An empty poll of a target noted: its streak grows by one (saturating).
pub open spec fn timeout_noted(s0: DefaultReceiveScheduler, s1: DefaultReceiveScheduler, t: TargetId) -> bool {
    &&& s1.wf()
    &&& s1.state_of(t) == Some(TargetState {
        timeout_streak: (state_or_fresh(s0.state_of(t)).timeout_streak).saturating_add(1),
        ..state_or_fresh(s0.state_of(t))
    })
    &&& s1.others_unchanged(&s0, t)
}

/// Data from a target noted: its streak restarts.
pub open spec fn progress_noted(s0: DefaultReceiveScheduler, s1: DefaultReceiveScheduler, t: TargetId) -> bool {
    &&& s1.wf()
    &&& s1.state_of(t) == Some(TargetState { timeout_streak: 0, ..state_or_fresh(s0.state_of(t)) })
    &&& s1.others_unchanged(&s0, t)
}

/// The server-side hold never falls below the base hold nor rises above the
/// maximum, whatever the target's state and the user's activity.
pub proof fn lemma_hold_bounds(st: Option<TargetState>, active: bool)
    ensures
        BASE_HOLD_MS <= hold_for(st, active) <= MAX_HOLD_MS,
{
    let streak: nat = match st {
        Some(s) => s.timeout_streak as nat,
        None => 0,
    };
    let e = min_nat(streak, 31);
    vstd::arithmetic::power2::lemma_pow2_pos(e);
    assert(BASE_HOLD_MS as nat * pow2(e) >= BASE_HOLD_MS) by (nonlinear_arith)
        requires
            pow2(e) >= 1,
    ;
}

/// Each empty poll doubles the hold of the previous one, up to the maximum.
pub proof fn lemma_empty_poll_doubles_hold(streak: nat)
    requires
        streak < 31,
    ensures
        streak_hold(streak + 1) == min_nat(2 * streak_hold(streak), MAX_HOLD_MS as nat),
{
    vstd::arithmetic::power2::lemma_pow2_unfold(streak + 1);
    assert(BASE_HOLD_MS as nat * pow2(streak + 1) == 2 * (BASE_HOLD_MS as nat * pow2(streak))) by (nonlinear_arith)
        requires
            pow2(streak + 1) == 2 * pow2(streak),
    ;
}

/// Once the streak of empty polls is over, the hold is the base hold again,
/// whatever else the scheduler remembers of the target.
pub proof fn lemma_progress_resets_hold(s: DefaultReceiveScheduler, t: TargetId, now: u64)
    requires
        s.state_of(t) matches Some(st) && st.timeout_streak == 0,
    ensures
        s.hold_at(t, now) == BASE_HOLD_MS,
{
    vstd::arithmetic::power2::lemma2_to64();
}

/// After cancellation of a pipeline was requested, its hold never exceeds the
/// cancellation cap.
pub proof fn lemma_cancel_caps_hold(s: DefaultReceiveScheduler, t: TargetId, now: u64)
    requires
        s.is_cancel_requested(t),
    ensures
        s.hold_at(t, now) <= MAX_HOLD_AFTER_CANCEL_MS,
{
}

/// While the user was active within the window, no hold exceeds the activity cap.
pub proof fn lemma_activity_caps_hold(s: DefaultReceiveScheduler, t: TargetId, now: u64)
    requires
        recently_active(s.last_activity(), now),
    ensures
        s.hold_at(t, now) <= ACTIVITY_CAP_MS,
{
}

/// A note handed to the scheduler, as the serial loop makes them.
pub enum SchedulerNote {
    CancelRequested(u128, u64),
    PipelineFinished(u128),
    ReceiveTimeout(TargetId),
    ReceiveProgress(TargetId),
    UserActivity(u64),
}

/// `s1` is `s0` after the note, as the note's method states it.
pub open spec fn note_applied(s0: DefaultReceiveScheduler, s1: DefaultReceiveScheduler, n: SchedulerNote) -> bool {
    match n {
        SchedulerNote::CancelRequested(id, now) => cancel_noted(s0, s1, id, now),
        SchedulerNote::PipelineFinished(id) => finished_noted(s0, s1, id),
        SchedulerNote::ReceiveTimeout(t) => timeout_noted(s0, s1, t),
        SchedulerNote::ReceiveProgress(t) => progress_noted(s0, s1, t),
        SchedulerNote::UserActivity(now) => {
            &&& s1.wf()
            &&& forall|t: TargetId| #[trigger] s1.state_of(t) == s0.state_of(t)
            &&& s1.last_activity() == Some(now)
        },
    }
}

/// `states` are the scheduler as made by `new`, then after each note in turn.
pub open spec fn noted_history(states: Seq<DefaultReceiveScheduler>, notes: Seq<SchedulerNote>) -> bool {
    &&& states.len() == notes.len() + 1
    &&& states[0].wf()
    &&& forall|t: TargetId| #[trigger] states[0].state_of(t) == None::<TargetState>
    &&& states[0].last_activity() == None::<u64>
    &&& forall|i: int| 0 <= i < notes.len() ==> #[trigger] note_applied(states[i], states[i + 1], notes[i])
}

/// Empty polls of `t` noted since its last progress or cancellation (or since the start).
pub open spec fn empty_polls_since_reset(notes: Seq<SchedulerNote>, t: TargetId) -> nat
    decreases notes.len(),
{
    if notes.len() == 0 {
        0
    } else {
        let prev = empty_polls_since_reset(notes.drop_last(), t);
        match notes.last() {
            SchedulerNote::ReceiveTimeout(u) => if u == t { prev + 1 } else { prev },
            SchedulerNote::ReceiveProgress(u) => if u == t { 0 } else { prev },
            SchedulerNote::CancelRequested(id, _) => if TargetId::Pipeline(id) == t { 0 } else { prev },
            _ => prev,
        }
    }
}

/// Whether cancellation of `t` was ever noted.
pub open spec fn cancel_noted_in(notes: Seq<SchedulerNote>, t: TargetId) -> bool
    decreases notes.len(),
{
    if notes.len() == 0 {
        false
    } else {
        cancel_noted_in(notes.drop_last(), t) || (notes.last() matches SchedulerNote::CancelRequested(id, _)
            && TargetId::Pipeline(id) == t)
    }
}

/// Whether the finish of `t` was ever noted.
pub open spec fn finish_noted_in(notes: Seq<SchedulerNote>, t: TargetId) -> bool
    decreases notes.len(),
{
    if notes.len() == 0 {
        false
    } else {
        finish_noted_in(notes.drop_last(), t) || (notes.last() matches SchedulerNote::PipelineFinished(id)
            && TargetId::Pipeline(id) == t)
    }
}

/// The time of the last user activity noted, if any.
pub open spec fn last_activity_in(notes: Seq<SchedulerNote>) -> Option<u64>
    decreases notes.len(),
{
    if notes.len() == 0 {
        None
    } else {
        match notes.last() {
            SchedulerNote::UserActivity(now) => Some(now),
            _ => last_activity_in(notes.drop_last()),
        }
    }
}

/// The hold in closed form: 250 ms doubled per empty poll (the exponent capped at 31),
/// at most 1000 ms, at most 500 ms once cancellation was requested, and at most 250 ms
/// while the user was recently active.
pub open spec fn closed_form_hold(empty_polls: nat, cancelled: bool, active: bool) -> nat {
    let h = min_nat(250 * pow2(min_nat(empty_polls, 31)), 1000);
    let h = if cancelled { min_nat(h, 500) } else { h };
    if active { min_nat(h, 250) } else { h }
}

proof fn lemma_history_prefix(states: Seq<DefaultReceiveScheduler>, notes: Seq<SchedulerNote>, t: TargetId, k: nat)
    requires
        noted_history(states, notes),
        k <= notes.len(),
    ensures
        state_or_fresh(states[k as int].state_of(t)).timeout_streak as nat == min_nat(
            empty_polls_since_reset(notes.take(k as int), t),
            u32::MAX as nat,
        ),
        (state_or_fresh(states[k as int].state_of(t)).cancel_requested_at_ms is Some) == cancel_noted_in(
            notes.take(k as int),
            t,
        ),
        state_or_fresh(states[k as int].state_of(t)).finished == finish_noted_in(notes.take(k as int), t),
        states[k as int].last_activity() == last_activity_in(notes.take(k as int)),
    decreases k,
{
    if k == 0 {
        assert(notes.take(0) =~= Seq::<SchedulerNote>::empty());
        assert(states[0].state_of(t) == None::<TargetState>);
    } else {
        let j = (k - 1) as nat;
        lemma_history_prefix(states, notes, t, j);
        let pre = notes.take(k as int);
        assert(pre.drop_last() =~= notes.take(j as int));
        assert(pre.last() == notes[j as int]);
        assert(note_applied(states[j as int], states[j as int + 1], notes[j as int]));
    }
}

/// Over any series of notes on a new scheduler, a target is finished exactly when its
/// finish was noted (a cancellation never stops it from being polled), and its hold is
/// the closed form of the empty polls since its last progress or cancellation, whether
/// its cancellation was ever requested, and whether the last user activity is recent.
pub proof fn lemma_history_closed_form(
    states: Seq<DefaultReceiveScheduler>,
    notes: Seq<SchedulerNote>,
    t: TargetId,
    now: u64,
)
    requires
        noted_history(states, notes),
    ensures
        states.last().is_finished(t) == finish_noted_in(notes, t),
        states.last().hold_at(t, now) == closed_form_hold(
            empty_polls_since_reset(notes, t),
            cancel_noted_in(notes, t),
            recently_active(last_activity_in(notes), now),
        ),
{
    lemma_history_prefix(states, notes, t, notes.len());
    assert(notes.take(notes.len() as int) =~= notes);
}

/// Once cancellation of a pipeline was noted, however many empty polls follow its hold
/// never exceeds 500 ms, and right after the cancellation it is the base hold; the
/// pipeline stays polled until its finish is noted.
pub proof fn lemma_cancel_caps_hold_over_history(
    states: Seq<DefaultReceiveScheduler>,
    notes: Seq<SchedulerNote>,
    id: u128,
    now: u64,
)
    requires
        noted_history(states, notes),
        cancel_noted_in(notes, TargetId::Pipeline(id)),
    ensures
        states.last().hold_at(TargetId::Pipeline(id), now) <= MAX_HOLD_AFTER_CANCEL_MS,
        (notes.last() matches SchedulerNote::CancelRequested(i, _) && i == id) ==> states.last().hold_at(
            TargetId::Pipeline(id),
            now,
        ) == BASE_HOLD_MS,
        states.last().is_finished(TargetId::Pipeline(id)) == finish_noted_in(notes, TargetId::Pipeline(id)),
{
    let t = TargetId::Pipeline(id);
    lemma_history_closed_form(states, notes, t, now);
    if notes.last() matches SchedulerNote::CancelRequested(i, _) && i == id {
        assert(empty_polls_since_reset(notes, t) == 0);
        vstd::arithmetic::power2::lemma2_to64();
    }
}

} // verus!

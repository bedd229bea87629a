//! The claims that keep the audio callbacks' phases apart.
//!
//! libbela calls `setup`, `render_pre`, `render_post` and `cleanup` on
//! their own, and `render` once per render thread, all at once. The
//! references handed to an application are only sound while those
//! calls keep to that shape, so the shape is checked rather than
//! assumed: a [`Guard`] grants one exclusive claim for the
//! single-threaded phases and one slot per render thread, and a
//! callback that cannot claim what it needs is refused and counted.
//!
//! A refusal after a stop was already asked for is the shutdown libbela
//! does, seen from inside, and is counted apart from one while the run
//! is live.

use vstd::prelude::*;

use crate::stop_requested;
use crate::application::ThreadInfo;

verus! {

/// The number of slots in `busy` that are held.
pub open spec fn spec_held(busy: Seq<bool>) -> nat
    decreases busy.len(),
{
    if busy.len() == 0 {
        0
    } else {
        spec_held(busy.drop_last()) + (if busy.last() { 1nat } else { 0nat })
    }
}

/// A counter that wraps, as the guard's fault counters do.
pub open spec fn spec_tally(count: u32) -> u32 {
    if count == u32::MAX {
        0
    } else {
        (count + 1) as u32
    }
}

/// What a [`Guard`] holds.
pub struct GuardModel {
    /// Whether a single-threaded phase holds the exclusive claim.
    pub exclusive: bool,
    /// One entry per render thread: whether that thread is inside `render`.
    pub busy: Seq<bool>,
    /// Refusals while the run was live.
    pub faults: u32,
    /// Refusals after a stop was already asked for.
    pub faults_while_stopping: u32,
    /// What the phase taking the current exclusive claim saw of the
    /// stop flag.
    pub stopping: bool,
}

/// No render slot is held.
pub open spec fn spec_no_render(m: GuardModel) -> bool {
    forall|i: int| 0 <= i < m.busy.len() ==> !m.busy[i]
}

/// The phases are apart: while the exclusive claim is held, no render
/// slot is.
pub open spec fn spec_apart(m: GuardModel) -> bool {
    m.exclusive ==> spec_no_render(m)
}

/// Nothing is in flight, so an exclusive phase may begin.
pub open spec fn spec_idle(m: GuardModel) -> bool {
    !m.exclusive && spec_no_render(m)
}

/// A render on `thread` may begin.
pub open spec fn spec_render_free(m: GuardModel, thread: int) -> bool {
    &&& 0 <= thread < m.busy.len()
    &&& !m.exclusive
    &&& !m.busy[thread]
}

/// One refusal, counted by whether a stop had been asked for.
pub open spec fn spec_record_fault(m: GuardModel, while_stopping: bool) -> GuardModel {
    if while_stopping {
        GuardModel { faults_while_stopping: spec_tally(m.faults_while_stopping), ..m }
    } else {
        GuardModel { faults: spec_tally(m.faults), ..m }
    }
}

/// The guard after an exclusive phase asked for its claim, having seen
/// `stopping` of the stop flag.
pub open spec fn spec_enter_exclusive(m: GuardModel, stopping: bool) -> GuardModel {
    let seen = GuardModel { stopping, ..m };
    if spec_idle(m) {
        GuardModel { exclusive: true, ..seen }
    } else {
        spec_record_fault(seen, stopping)
    }
}

/// The guard after render thread `thread` asked for its slot, with the
/// stop flag reading `stop_now`.
///
/// A render turned away by an exclusive phase is classified by what that
/// phase saw, not by this thread's own reading.
pub open spec fn spec_enter_render(m: GuardModel, thread: int, stop_now: bool) -> GuardModel {
    if !(0 <= thread < m.busy.len()) {
        spec_record_fault(m, stop_now)
    } else if m.exclusive {
        spec_record_fault(m, m.stopping)
    } else if m.busy[thread] {
        spec_record_fault(m, stop_now)
    } else {
        GuardModel { busy: m.busy.update(thread, true), ..m }
    }
}

/// The guard after the exclusive claim is given back.
pub open spec fn spec_exit_exclusive(m: GuardModel) -> GuardModel {
    GuardModel { exclusive: false, ..m }
}

/// The guard after render slot `thread` is given back.
pub open spec fn spec_exit_render(m: GuardModel, thread: int) -> GuardModel {
    GuardModel { busy: m.busy.update(thread, false), ..m }
}

proof fn lemma_held_update(s: Seq<bool>, i: int, v: bool)
    requires
        0 <= i < s.len(),
    ensures
        spec_held(s.update(i, v)) + (if s[i] { 1int } else { 0int }) == spec_held(s) + (if v {
            1int
        } else {
            0int
        }),
    decreases s.len(),
{
    let t = s.update(i, v);
    if i == s.len() - 1 {
        assert(t.drop_last() =~= s.drop_last());
    } else {
        lemma_held_update(s.drop_last(), i, v);
        assert(t.drop_last() =~= s.drop_last().update(i, v));
    }
}

proof fn lemma_held_zero(s: Seq<bool>)
    ensures
        spec_held(s) == 0 <==> forall|i: int| 0 <= i < s.len() ==> !s[i],
    decreases s.len(),
{
    if s.len() > 0 {
        let d = s.drop_last();
        lemma_held_zero(d);
        if spec_held(s) == 0 {
            assert forall|i: int| 0 <= i < s.len() implies !s[i] by {
                if i < s.len() - 1 {
                    assert(s[i] == d[i]);
                }
            }
        }
        if forall|i: int| 0 <= i < s.len() ==> !s[i] {
            assert forall|i: int| 0 <= i < d.len() implies !d[i] by {
                assert(d[i] == s[i]);
            }
        }
    }
}

proof fn lemma_held_bounded(s: Seq<bool>)
    ensures
        spec_held(s) <= s.len(),
    decreases s.len(),
{
    if s.len() > 0 {
        lemma_held_bounded(s.drop_last());
    }
}

/// Every transition of the guard keeps the phases apart: whatever the
/// callbacks do, an exclusive phase and a render never hold their claims
/// at the same time.
pub proof fn lemma_phases_stay_apart(m: GuardModel, thread: int, stopping: bool, stop_now: bool)
    requires
        spec_apart(m),
    ensures
        spec_apart(spec_enter_exclusive(m, stopping)),
        spec_apart(spec_enter_render(m, thread, stop_now)),
        spec_apart(spec_exit_exclusive(m)),
        0 <= thread < m.busy.len() && m.busy[thread] ==> spec_apart(spec_exit_render(m, thread)),
        spec_apart(spec_record_fault(m, stop_now)),
{
}

/// A claim that was granted and then given back leaves the guard as it
/// found it, but for what the exclusive phase published of the stop flag.
pub proof fn lemma_a_released_claim_restores(m: GuardModel, thread: int, stopping: bool, stop_now: bool)
    ensures
        spec_render_free(m, thread) ==> spec_exit_render(spec_enter_render(m, thread, stop_now), thread)
            == m,
        spec_idle(m) ==> spec_exit_exclusive(spec_enter_exclusive(m, stopping)) == (GuardModel {
            stopping,
            ..m
        }),
{
    if spec_render_free(m, thread) {
        assert(m.busy.update(thread, true).update(thread, false) =~= m.busy);
    }
}

/// A refused claim changes no claim, and counts exactly one fault, in
/// exactly one of the two counters.
pub proof fn lemma_a_refusal_counts_once(m: GuardModel, thread: int, stopping: bool, stop_now: bool)
    ensures
        !spec_render_free(m, thread) ==> {
            let after = spec_enter_render(m, thread, stop_now);
            &&& after.busy == m.busy
            &&& after.exclusive == m.exclusive
            &&& after.stopping == m.stopping
            &&& (after.faults == spec_tally(m.faults) && after.faults_while_stopping
                == m.faults_while_stopping) || (after.faults == m.faults
                && after.faults_while_stopping == spec_tally(m.faults_while_stopping))
        },
        !spec_idle(m) ==> {
            let after = spec_enter_exclusive(m, stopping);
            &&& after.busy == m.busy
            &&& after.exclusive == m.exclusive
            &&& (after.faults == spec_tally(m.faults) && after.faults_while_stopping
                == m.faults_while_stopping) || (after.faults == m.faults
                && after.faults_while_stopping == spec_tally(m.faults_while_stopping))
        },
{
}

/// A granted exclusive claim. Give it back with [`Guard::exit_exclusive`].
pub struct Exclusive {
    granted: (),
}

/// A granted render slot. Give it back with [`Guard::exit_render`].
pub struct Active {
    thread: usize,
}

impl Active {
    /// The render thread whose slot this is.
    pub closed spec fn spec_thread(&self) -> int {
        self.thread as int
    }

    /// The render thread whose slot this is.
    pub fn thread(&self) -> (thread: usize)
        ensures
            thread == self.spec_thread(),
    {
        self.thread
    }
}

/// The non-blocking claims that keep the callback phases apart.
pub struct Guard {
    exclusive: bool,
    in_flight: usize,
    busy: Vec<bool>,
    faults: u32,
    faults_while_stopping: u32,
    stopping: bool,
}

impl View for Guard {
    type V = GuardModel;

    closed spec fn view(&self) -> GuardModel {
        GuardModel {
            exclusive: self.exclusive,
            busy: self.busy@,
            faults: self.faults,
            faults_while_stopping: self.faults_while_stopping,
            stopping: self.stopping,
        }
    }
}

impl Guard {
    /// The guard's invariant: the in-flight count is the number of held
    /// slots, and the phases are apart.
    pub closed spec fn wf(&self) -> bool {
        &&& self.in_flight == spec_held(self.busy@)
        &&& (self.exclusive ==> self.in_flight == 0)
    }

    /// The guard's invariant gives the phases apart.
    pub proof fn lemma_wf_apart(&self)
        requires
            self.wf(),
        ensures
            spec_apart(self@),
    {
        lemma_held_zero(self.busy@);
    }

    /// A guard for `threads` render threads, with nothing claimed and
    /// nothing counted.
    pub fn new(threads: usize) -> (guard: Self)
        ensures
            guard.wf(),
            guard@.busy == Seq::new(threads as nat, |i: int| false),
            !guard@.exclusive,
            guard@.faults == 0,
            guard@.faults_while_stopping == 0,
            !guard@.stopping,
    {
        let mut busy: Vec<bool> = Vec::new();
        let mut i: usize = 0;
        while i < threads
            invariant
                i <= threads,
                busy@ == Seq::new(i as nat, |j: int| false),
            decreases threads - i,
        {
            busy.push(false);
            i = i + 1;
            assert(busy@ =~= Seq::new(i as nat, |j: int| false));
        }
        proof {
            lemma_held_zero(busy@);
        }
        Self { exclusive: false, in_flight: 0, busy, faults: 0, faults_while_stopping: 0, stopping: false }
    }

    /// How many render threads this guard was built for.
    pub fn threads(&self) -> (threads: usize)
        ensures
            threads == self@.busy.len(),
    {
        self.busy.len()
    }

    /// How many callbacks have been refused while the run was live.
    pub fn faults(&self) -> (faults: u32)
        ensures
            faults == self@.faults,
    {
        self.faults
    }

    /// How many callbacks have been refused after a stop was already
    /// asked for.
    pub fn faults_while_stopping(&self) -> (faults: u32)
        ensures
            faults == self@.faults_while_stopping,
    {
        self.faults_while_stopping
    }

    /// Whether an exclusive phase holds its claim.
    pub fn is_exclusive(&self) -> (held: bool)
        ensures
            held == self@.exclusive,
    {
        self.exclusive
    }

    /// How many render slots are held.
    pub fn in_flight(&self) -> (count: usize)
        requires
            self.wf(),
        ensures
            count == spec_held(self@.busy),
    {
        self.in_flight
    }

    /// Records a refused callback: in the second counter when a stop had
    /// already been asked for, in the first otherwise.
    ///
    /// Returns whether this was the first live refusal of the run, the one
    /// worth telling someone about. A live refusal also means the audio
    /// system should be asked to stop; one while stopping does not.
    pub fn record_fault(&mut self, while_stopping: bool) -> (first_live: bool)
        requires
            old(self).wf(),
        ensures
            final(self).wf(),
            final(self)@ == spec_record_fault(old(self)@, while_stopping),
            first_live == (!while_stopping && old(self)@.faults == 0),
    {
        if while_stopping {
            self.faults_while_stopping = self.faults_while_stopping.wrapping_add(1);
            return false;
        }
        let first = self.faults == 0;
        self.faults = self.faults.wrapping_add(1);
        first
    }

    /// Records a refused callback, classified by whether a stop has
    /// been asked for.
    pub fn fault(&mut self) -> (first_live: bool)
        requires
            old(self).wf(),
        ensures
            final(self).wf(),
            final(self)@ == spec_record_fault(old(self)@, crate::spec_stop_requested()),
            first_live == (!crate::spec_stop_requested() && old(self)@.faults == 0),
    {
        let stopping = stop_requested();
        self.record_fault(stopping)
    }

    /// Claims the guard for a single-threaded phase, which needs every
    /// render thread to be out, having read `stopping` of the stop flag.
    ///
    /// What was read is published with the claim, so that a render turned
    /// away by it is classified by it. A refusal is counted by the same
    /// reading.
    pub fn enter_exclusive_seeing(&mut self, stopping: bool) -> (claim: Option<Exclusive>)
        requires
            old(self).wf(),
        ensures
            final(self).wf(),
            final(self)@ == spec_enter_exclusive(old(self)@, stopping),
            claim is Some <==> spec_idle(old(self)@),
    {
        proof {
            lemma_held_zero(self.busy@);
        }
        self.stopping = stopping;
        if self.exclusive || self.in_flight != 0 {
            self.record_fault(stopping);
            return None;
        }
        self.exclusive = true;
        Some(Exclusive { granted: () })
    }

    /// [`enter_exclusive_seeing`](Guard::enter_exclusive_seeing), with the
    /// stop flag read now.
    pub fn enter_exclusive(&mut self) -> (claim: Option<Exclusive>)
        requires
            old(self).wf(),
        ensures
            final(self).wf(),
            final(self)@ == spec_enter_exclusive(old(self)@, crate::spec_stop_requested()),
            claim is Some <==> spec_idle(old(self)@),
    {
        let stopping = stop_requested();
        self.enter_exclusive_seeing(stopping)
    }

    /// Claims render slot `thread`.
    ///
    /// Refused, and counted, for a thread number past the slots, while an
    /// exclusive phase holds the guard, and for a slot already held.
    pub fn enter_render(&mut self, thread: usize) -> (claim: Option<Active>)
        requires
            old(self).wf(),
        ensures
            final(self).wf(),
            final(self)@ == spec_enter_render(old(self)@, thread as int, crate::spec_stop_requested()),
            claim is Some <==> spec_render_free(old(self)@, thread as int),
            claim matches Some(active) ==> active.spec_thread() == thread,
    {
        if thread >= self.busy.len() {
            self.fault();
            return None;
        }
        if self.exclusive {
            let stopping = self.stopping;
            self.record_fault(stopping);
            return None;
        }
        if self.busy[thread] {
            self.fault();
            return None;
        }
        proof {
            lemma_held_update(self.busy@, thread as int, true);
            lemma_held_bounded(self.busy@.update(thread as int, true));
        }
        self.busy.set(thread, true);
        self.in_flight = self.in_flight + 1;
        Some(Active { thread })
    }

    /// Gives the exclusive claim back.
    pub fn exit_exclusive(&mut self, claim: Exclusive)
        requires
            old(self).wf(),
            old(self)@.exclusive,
        ensures
            final(self).wf(),
            final(self)@ == spec_exit_exclusive(old(self)@),
    {
        self.exclusive = false;
    }

    /// Gives render slot `claim` back.
    pub fn exit_render(&mut self, claim: Active)
        requires
            old(self).wf(),
            0 <= claim.spec_thread() < old(self)@.busy.len(),
            old(self)@.busy[claim.spec_thread()],
        ensures
            final(self).wf(),
            final(self)@ == spec_exit_render(old(self)@, claim.spec_thread()),
    {
        let thread = claim.thread;
        proof {
            lemma_held_update(self.busy@, thread as int, false);
        }
        self.busy.set(thread, false);
        self.in_flight = self.in_flight - 1;
    }
}

/// What a [`Runtime`] holds.
pub struct RuntimeModel {
    /// The claims.
    pub guard: GuardModel,
    /// Whether `setup` finished building the render states.
    pub ready: bool,
}

/// The guard after a callback that holds a claim was refused by a later
/// check: one fault, and the claim given back.
pub open spec fn spec_refuse_exclusive(g: GuardModel) -> GuardModel {
    spec_exit_exclusive(spec_record_fault(g, crate::spec_stop_requested()))
}

/// As [`spec_refuse_exclusive`], for a render slot.
pub open spec fn spec_refuse_render(g: GuardModel, thread: int) -> GuardModel {
    spec_exit_render(spec_record_fault(g, crate::spec_stop_requested()), thread)
}

/// Whether `setup` may run, for a context that renders on `threads`
/// threads: nothing in flight, the thread counts agree, and no render
/// states built yet.
pub open spec fn spec_setup_granted(r: RuntimeModel, threads: int) -> bool {
    spec_idle(r.guard) && threads == r.guard.busy.len() && !r.ready
}

/// The runtime after `setup` asked to run.
pub open spec fn spec_begin_setup(r: RuntimeModel, threads: int) -> RuntimeModel {
    let claimed = spec_enter_exclusive(r.guard, crate::spec_stop_requested());
    if !spec_idle(r.guard) || spec_setup_granted(r, threads) {
        RuntimeModel { guard: claimed, ..r }
    } else {
        RuntimeModel { guard: spec_refuse_exclusive(claimed), ..r }
    }
}

/// The runtime after `setup` returned, `accepted` saying whether the
/// application agreed to start and its render states were built.
pub open spec fn spec_finish_setup(r: RuntimeModel, accepted: bool) -> RuntimeModel {
    RuntimeModel { guard: spec_exit_exclusive(r.guard), ready: r.ready || accepted }
}

/// Whether `render` may run on `thread`, for a context that renders on
/// `threads` threads.
pub open spec fn spec_render_granted(r: RuntimeModel, thread: int, threads: int) -> bool {
    spec_render_free(r.guard, thread) && threads == r.guard.busy.len() && r.ready
}

/// The runtime after `render` asked to run on `thread`.
pub open spec fn spec_begin_render(r: RuntimeModel, thread: int, threads: int) -> RuntimeModel {
    let claimed = spec_enter_render(r.guard, thread, crate::spec_stop_requested());
    if !spec_render_free(r.guard, thread) || spec_render_granted(r, thread, threads) {
        RuntimeModel { guard: claimed, ..r }
    } else {
        RuntimeModel { guard: spec_refuse_render(claimed, thread), ..r }
    }
}

/// Whether a block phase (`render_pre`, `render_post` or `cleanup`) may
/// run, for a context that renders on `threads` threads.
pub open spec fn spec_block_granted(r: RuntimeModel, threads: int) -> bool {
    spec_idle(r.guard) && r.ready && threads == r.guard.busy.len()
}

/// The runtime after a block phase asked to run.
pub open spec fn spec_begin_block(r: RuntimeModel, threads: int) -> RuntimeModel {
    let claimed = spec_enter_exclusive(r.guard, crate::spec_stop_requested());
    if !spec_idle(r.guard) || spec_block_granted(r, threads) {
        RuntimeModel { guard: claimed, ..r }
    } else {
        RuntimeModel { guard: spec_refuse_exclusive(claimed), ..r }
    }
}

/// The render states are built once: no callback runs over states that
/// do not exist, a second `setup` is refused once they do, and nothing
/// takes them away again.
pub proof fn lemma_states_are_built_once(r: RuntimeModel, thread: int, threads: int, accepted: bool)
    ensures
        !r.ready ==> !spec_render_granted(r, thread, threads) && !spec_block_granted(r, threads),
        r.ready ==> !spec_setup_granted(r, threads),
        r.ready ==> spec_begin_setup(r, threads).ready,
        r.ready ==> spec_finish_setup(r, accepted).ready,
        spec_begin_render(r, thread, threads).ready == r.ready,
        spec_begin_block(r, threads).ready == r.ready,
{
}

/// A phase is granted only to a context whose thread count is the one
/// the render states were built for, so that wherever an application
/// can see both, the states and the context agree. A context that
/// disagrees, arriving when the phase would otherwise run, is refused,
/// holds no claim afterwards, and is counted as exactly one fault.
pub proof fn lemma_a_phase_needs_the_states_thread_count(r: RuntimeModel, thread: int, threads: int)
    ensures
        spec_setup_granted(r, threads) ==> threads == r.guard.busy.len(),
        spec_render_granted(r, thread, threads) ==> threads == r.guard.busy.len(),
        spec_block_granted(r, threads) ==> threads == r.guard.busy.len(),
        threads != r.guard.busy.len() && r.guard.faults < u32::MAX && r.guard.faults_while_stopping
            < u32::MAX ==> ({
            &&& (spec_idle(r.guard) && !r.ready ==> {
                let after = spec_begin_setup(r, threads);
                &&& !spec_setup_granted(r, threads)
                &&& !after.guard.exclusive
                &&& after.guard.busy == r.guard.busy
                &&& after.guard.faults + after.guard.faults_while_stopping == r.guard.faults
                    + r.guard.faults_while_stopping + 1
            })
            &&& (spec_idle(r.guard) && r.ready ==> {
                let after = spec_begin_block(r, threads);
                &&& !spec_block_granted(r, threads)
                &&& !after.guard.exclusive
                &&& after.guard.busy == r.guard.busy
                &&& after.guard.faults + after.guard.faults_while_stopping == r.guard.faults
                    + r.guard.faults_while_stopping + 1
            })
            &&& (spec_render_free(r.guard, thread) && r.ready ==> {
                let after = spec_begin_render(r, thread, threads);
                &&& !spec_render_granted(r, thread, threads)
                &&& after.guard.exclusive == r.guard.exclusive
                &&& after.guard.busy =~= r.guard.busy
                &&& after.guard.faults + after.guard.faults_while_stopping == r.guard.faults
                    + r.guard.faults_while_stopping + 1
            })
        }),
{
    if spec_render_free(r.guard, thread) {
        assert(r.guard.busy.update(thread, true).update(thread, false) =~= r.guard.busy);
    }
}

/// Decides, callback by callback, whether libbela's calls may reach the
/// application: the claims of a [`Guard`], the thread count the context
/// reports against the one the render states were built for, and
/// whether `setup` has built them yet.
///
/// Each `begin_` method either grants a claim, which the caller gives
/// back with the matching `finish_` method once the application's
/// callback has returned, or refuses and counts the refusal; a refused
/// callback must not run any application code.
pub struct Runtime {
    guard: Guard,
    ready: bool,
}

impl View for Runtime {
    type V = RuntimeModel;

    closed spec fn view(&self) -> RuntimeModel {
        RuntimeModel { guard: self.guard@, ready: self.ready }
    }
}

impl Runtime {
    /// The runtime's invariant.
    pub closed spec fn wf(&self) -> bool {
        self.guard.wf() && self.guard@.busy.len() >= 1
    }

    /// Prepares to render on `threads` threads, with 0 read as 1:
    /// libbela passes the thread count through unchanged and creates
    /// extra threads only above 1.
    pub fn new(threads: usize) -> (runtime: Self)
        ensures
            runtime.wf(),
            runtime@.guard.busy == Seq::new(
                (if threads == 0 { 1 } else { threads }) as nat,
                |i: int| false,
            ),
            !runtime@.guard.exclusive,
            runtime@.guard.faults == 0,
            runtime@.guard.faults_while_stopping == 0,
            !runtime@.guard.stopping,
            !runtime@.ready,
    {
        let threads = if threads == 0 { 1 } else { threads };
        Self { guard: Guard::new(threads), ready: false }
    }

    /// How many render threads this runtime was built for.
    pub fn threads(&self) -> (threads: usize)
        ensures
            threads == self@.guard.busy.len(),
    {
        self.guard.threads()
    }

    /// How many callbacks have been refused while the run was live.
    pub fn faults(&self) -> (faults: u32)
        ensures
            faults == self@.guard.faults,
    {
        self.guard.faults()
    }

    /// How many callbacks have been refused after a stop was already
    /// asked for.
    pub fn faults_while_stopping(&self) -> (faults: u32)
        ensures
            faults == self@.guard.faults_while_stopping,
    {
        self.guard.faults_while_stopping()
    }

    /// Whether `setup` has built the render states.
    pub fn is_ready(&self) -> (ready: bool)
        ensures
            ready == self@.ready,
    {
        self.ready
    }

    /// Asks whether `setup` may run for a context that renders on
    /// `threads` threads.
    pub fn begin_setup(&mut self, threads: usize) -> (claim: Option<Exclusive>)
        requires
            old(self).wf(),
        ensures
            final(self).wf(),
            final(self)@ == spec_begin_setup(old(self)@, threads as int),
            claim is Some <==> spec_setup_granted(old(self)@, threads as int),
            claim is Some ==> final(self)@.guard.exclusive,
    {
        let claim = match self.guard.enter_exclusive() {
            Some(claim) => claim,
            None => return None,
        };
        if threads != self.guard.threads() || self.ready {
            self.guard.fault();
            self.guard.exit_exclusive(claim);
            return None;
        }
        Some(claim)
    }

    /// The whole of `setup` for a context that renders on `threads`
    /// threads: the claim is asked for, and only if it is granted is the
    /// application's `setup` called; only if that agrees to start is
    /// `create` called, for threads 0, 1, ..., n - 1 in that order, with
    /// the [`ThreadInfo`] of each, and the states it makes are returned
    /// in that order. The claim is given back either way.
    ///
    /// `None` when the claim was refused (a fault is counted, and
    /// nothing of the application's runs) or the application declined.
    pub fn setup<S, A, C>(&mut self, threads: usize, app_setup: A, create: C) -> (states: Option<Vec<S>>)
        where
            A: FnOnce() -> bool,
            C: Fn(ThreadInfo) -> S,
        requires
            old(self).wf(),
            app_setup.requires(()),
            forall|info: ThreadInfo| create.requires((info,)),
        ensures
            final(self).wf(),
            !spec_setup_granted(old(self)@, threads as int) ==> states is None && final(self)@
                == spec_begin_setup(old(self)@, threads as int),
            spec_setup_granted(old(self)@, threads as int) ==> exists|agreed: bool| {
                &&& app_setup.ensures((), agreed)
                &&& (states is Some <==> agreed)
                &&& final(self)@ == spec_finish_setup(spec_begin_setup(old(self)@, threads as int), agreed)
            },
            states matches Some(built) ==> {
                &&& built@.len() == old(self)@.guard.busy.len()
                &&& forall|i: int| 0 <= i < built@.len() ==> create.ensures(
                    (ThreadInfo::spec_new(i as usize, built@.len() as usize),),
                    #[trigger] built@[i],
                )
            },
    {
        let claim = match self.begin_setup(threads) {
            Some(claim) => claim,
            None => return None,
        };
        let agreed = app_setup();
        if !agreed {
            self.finish_setup(claim, false);
            return None;
        }
        let n = self.guard.threads();
        let mut built: Vec<S> = Vec::new();
        let mut index: usize = 0;
        while index < n
            invariant
                index <= n,
                built@.len() == index,
                forall|info: ThreadInfo| create.requires((info,)),
                forall|i: int| 0 <= i < index ==> create.ensures(
                    (ThreadInfo::spec_new(i as usize, n),),
                    #[trigger] built@[i],
                ),
            decreases n - index,
        {
            let state = create(ThreadInfo::new(index, n));
            built.push(state);
            index = index + 1;
        }
        self.finish_setup(claim, true);
        Some(built)
    }

    /// Gives the claim `setup` ran under back; `accepted` says whether
    /// the application agreed to start and its render states were built.
    pub fn finish_setup(&mut self, claim: Exclusive, accepted: bool)
        requires
            old(self).wf(),
            old(self)@.guard.exclusive,
        ensures
            final(self).wf(),
            final(self)@ == spec_finish_setup(old(self)@, accepted),
    {
        self.guard.exit_exclusive(claim);
        if accepted {
            self.ready = true;
        }
    }

    /// Asks whether `render` may run on render thread `thread`, for a
    /// context that renders on `threads` threads.
    pub fn begin_render(&mut self, thread: usize, threads: usize) -> (claim: Option<Active>)
        requires
            old(self).wf(),
        ensures
            final(self).wf(),
            final(self)@ == spec_begin_render(old(self)@, thread as int, threads as int),
            claim is Some <==> spec_render_granted(old(self)@, thread as int, threads as int),
            claim matches Some(active) ==> active.spec_thread() == thread && 0 <= thread
                < final(self)@.guard.busy.len() && final(self)@.guard.busy[thread as int],
    {
        let claim = match self.guard.enter_render(thread) {
            Some(claim) => claim,
            None => return None,
        };
        if threads != self.guard.threads() || !self.ready {
            self.guard.fault();
            self.guard.exit_render(claim);
            return None;
        }
        Some(claim)
    }

    /// Gives a render slot back once `render` has returned.
    pub fn finish_render(&mut self, claim: Active)
        requires
            old(self).wf(),
            0 <= claim.spec_thread() < old(self)@.guard.busy.len(),
            old(self)@.guard.busy[claim.spec_thread()],
        ensures
            final(self).wf(),
            final(self)@ == (RuntimeModel {
                guard: spec_exit_render(old(self)@.guard, claim.spec_thread()),
                ..old(self)@
            }),
    {
        self.guard.exit_render(claim);
    }

    /// Asks whether a block phase (`render_pre`, `render_post` or
    /// `cleanup`) may run, for a context that renders on `threads`
    /// threads.
    pub fn begin_block(&mut self, threads: usize) -> (claim: Option<Exclusive>)
        requires
            old(self).wf(),
        ensures
            final(self).wf(),
            final(self)@ == spec_begin_block(old(self)@, threads as int),
            claim is Some <==> spec_block_granted(old(self)@, threads as int),
            claim is Some ==> final(self)@.guard.exclusive,
    {
        let claim = match self.guard.enter_exclusive() {
            Some(claim) => claim,
            None => return None,
        };
        if !self.ready || threads != self.guard.threads() {
            self.guard.fault();
            self.guard.exit_exclusive(claim);
            return None;
        }
        Some(claim)
    }

    /// Gives the claim a block phase ran under back.
    pub fn finish_block(&mut self, claim: Exclusive)
        requires
            old(self).wf(),
            old(self)@.guard.exclusive,
        ensures
            final(self).wf(),
            final(self)@ == (RuntimeModel { guard: spec_exit_exclusive(old(self)@.guard), ..old(self)@ }),
    {
        self.guard.exit_exclusive(claim);
    }
}

} // verus!

//! The native frame registry: frame loops and single-frame requests driven
//! either by explicit `tick` calls (manual and headless use) or by host
//! redraws (`step_hosted_frame`), with an optional host redraw requester
//! that is asked for a redraw whenever frames are pending.
//!
//! `tick` and `step_hosted_frame` serve a whole frame while they hold the
//! registry. A host whose callbacks register or cancel while a frame runs
//! serves it step by step instead: `begin_frame` (or `begin_hosted_frame`),
//! then `next_frame_call` until it reports the end, handing each lent loop
//! callback back with `return_loop_callback` (then `finish_hosted_frame`).
//! Between steps the registry is free for the callbacks' own calls.

use std::time::{Duration, Instant};
use vstd::prelude::*;

use super::model::{
    dispatches, hosted_delta, hosted_headroom, lemma_filter_absent, lemma_remove_is_filter, other_than,
    strictly_increasing, FrameDispatch, FrameModel,
};
use super::types::{frame_info, FrameInfo, FrameLoopError, FrameLoopGuard, FrameRequestGuard, HostRedrawGuard};
use crate::time::{
    checked_add, duration_nanos, duration_since, from_millis, instant_gap, instant_now,
    max_duration_nanos, nanos_of, NANOS_PER_MILLI,
};

verus! {

/// An active frame loop and its callback, which is `None` while a frame
/// in progress has lent it out.
pub struct LoopSubscriber<L> {
    id: u64,
    callback: Option<L>,
}

/// A pending single-frame request and its callback.
pub struct OneShotRequest<O> {
    id: u64,
    callback: O,
}

/// A frame being served step by step: its timing values, the single-frame
/// requests it has still to serve, the ids of the frame loops it has still
/// to serve, and the loop whose callback is out, if any.
pub struct FrameRun<O> {
    info: FrameInfo,
    one_shots: Vec<OneShotRequest<O>>,
    loops: Vec<u64>,
    lent: Option<u64>,
}

/// What a frame served step by step calls next.
pub enum FrameCall<L, O> {
    /// Invoke this single-frame callback with these timing values.
    OneShot(O, FrameInfo),
    /// Invoke the callback of the frame loop with this id with these timing
    /// values, then hand the callback back.
    Loop(u64, L, FrameInfo),
    /// The frame is over.
    Done,
}

/// The frame registry. `L` is the type of frame-loop callbacks, `O` that of
/// single-frame callbacks and `R` that of the host redraw requester.
pub struct NativeFrameState<L, O, R> {
    now: Duration,
    next_id: u64,
    loop_subscribers: Vec<LoopSubscriber<L>>,
    one_shot_requests: Vec<OneShotRequest<O>>,
    last_real_time: Option<Instant>,
    redraw_requester: Option<R>,
    run: Option<FrameRun<O>>,
    redraws: Ghost<nat>,
    log: Ghost<Seq<FrameDispatch>>,
}

impl<L, O, R> View for NativeFrameState<L, O, R> {
    type V = FrameModel;

    closed spec fn view(&self) -> FrameModel {
        FrameModel {
            now: duration_nanos(self.now),
            next_id: self.next_id,
            loops: self.loop_subscribers@.map_values(|s: LoopSubscriber<L>| s.id),
            one_shots: self.one_shot_requests@.map_values(|r: OneShotRequest<O>| r.id),
            requester: self.redraw_requester is Some,
            timed: self.last_real_time is Some,
            redraws: self.redraws@,
            log: self.log@,
        }
    }
}

impl<L, O, R> NativeFrameState<L, O, R> {
    /// The monotonic clock.
    pub closed spec fn clock(self) -> Duration {
        self.now
    }

    /// The callbacks of the active frame loops, oldest first (in the order
    /// of the model's `loops`).
    pub closed spec fn loop_callbacks(self) -> Seq<L> {
        self.loop_subscribers@.map_values(|s: LoopSubscriber<L>| s.callback->0)
    }

    /// The callbacks of the pending single-frame requests, oldest first (in
    /// the order of the model's `one_shots`).
    pub closed spec fn one_shot_callbacks(self) -> Seq<O> {
        self.one_shot_requests@.map_values(|r: OneShotRequest<O>| r.callback)
    }

    /// The registered host redraw requester.
    pub closed spec fn requester_value(self) -> Option<R> {
        self.redraw_requester
    }

    /// Whether a frame is being served step by step.
    pub closed spec fn in_frame(self) -> bool {
        self.run is Some
    }

    /// The ids of the single-frame requests that the frame in progress has
    /// still to serve, oldest first.
    pub closed spec fn serving_one_shot_ids(self) -> Seq<u64> {
        match self.run {
            Some(r) => r.one_shots@.map_values(|q: OneShotRequest<O>| q.id),
            None => Seq::empty(),
        }
    }

    /// The callbacks of those requests, in the same order.
    pub closed spec fn serving_one_shot_callbacks(self) -> Seq<O> {
        match self.run {
            Some(r) => r.one_shots@.map_values(|q: OneShotRequest<O>| q.callback),
            None => Seq::empty(),
        }
    }

    /// The ids of the frame loops that the frame in progress has still to
    /// consider, in order.
    pub closed spec fn serving_loop_ids(self) -> Seq<u64> {
        match self.run {
            Some(r) => r.loops@,
            None => Seq::empty(),
        }
    }

    /// The frame loop whose callback the frame in progress has lent out.
    pub closed spec fn lent_loop(self) -> Option<u64> {
        match self.run {
            Some(r) => r.lent,
            None => None,
        }
    }

    /// The timing values of the frame in progress.
    pub closed spec fn run_info(self) -> FrameInfo {
        self.run->0.info
    }

    /// The frame in progress, if any, is the same in both states.
    pub open spec fn same_run(self, other: Self) -> bool {
        &&& self.in_frame() == other.in_frame()
        &&& self.serving_one_shot_ids() == other.serving_one_shot_ids()
        &&& self.serving_one_shot_callbacks() == other.serving_one_shot_callbacks()
        &&& self.serving_loop_ids() == other.serving_loop_ids()
        &&& self.lent_loop() == other.lent_loop()
        &&& self.run_info() == other.run_info()
    }
}

impl<L: FnMut(FrameInfo), O: FnOnce(FrameInfo), R: Fn()> NativeFrameState<L, O, R> {
    /// Well-formedness: ids are valid and every stored callback accepts
    /// every input it can be handed.
    pub closed spec fn wf(self) -> bool {
        &&& self@.ids_valid()
        &&& forall|i: int, info: FrameInfo|
            0 <= i < self.loop_subscribers@.len() && self.loop_subscribers@[i].callback is Some
                ==> #[trigger] call_requires(self.loop_subscribers@[i].callback->0, (info,))
        &&& forall|i: int|
            0 <= i < self.loop_subscribers@.len() ==> (#[trigger] self.loop_subscribers@[i].callback is Some
                || self.lent_loop() == Some(self.loop_subscribers@[i].id))
        &&& strictly_increasing(self.serving_one_shot_ids())
        &&& match self.run {
            Some(r) => forall|i: int, info: FrameInfo|
                0 <= i < r.one_shots@.len() ==> #[trigger] call_requires(
                    r.one_shots@[i].callback,
                    (info,),
                ),
            None => true,
        }
        &&& forall|i: int, info: FrameInfo|
            0 <= i < self.one_shot_requests@.len() ==> #[trigger] call_requires(
                self.one_shot_requests@[i].callback,
                (info,),
            )
        &&& match self.redraw_requester {
            Some(r) => call_requires(r, ()),
            None => true,
        }
    }

    /// An empty registry with its clock at zero.
    pub fn new() -> (s: Self)
        ensures
            s.wf(),
            s@ == FrameModel::initial(),
            !s.in_frame(),
            s.loop_callbacks() == Seq::<L>::empty(),
            s.one_shot_callbacks() == Seq::<O>::empty(),
            s.requester_value() is None,
            s.last_frame_instant() is None,
    {
        let s = NativeFrameState {
            now: from_millis(0),
            next_id: 0,
            loop_subscribers: Vec::new(),
            one_shot_requests: Vec::new(),
            last_real_time: None,
            redraw_requester: None,
            run: None,
            redraws: Ghost(0),
            log: Ghost(Seq::empty()),
        };
        assert(s@.loops =~= Seq::<u64>::empty());
        assert(s@.one_shots =~= Seq::<u64>::empty());
        assert(s.loop_callbacks() =~= Seq::<L>::empty());
        assert(s.one_shot_callbacks() =~= Seq::<O>::empty());
        s
    }

    /// The stored callbacks line up with the registrations' ids: one per
    /// frame loop, one per pending request, one per request that the frame
    /// in progress has still to serve.
    pub proof fn lemma_callbacks_match_ids(self)
        requires
            self.wf(),
        ensures
            self.loop_callbacks().len() == self@.loops.len(),
            self.one_shot_callbacks().len() == self@.one_shots.len(),
            self.serving_one_shot_callbacks().len() == self.serving_one_shot_ids().len(),
    {
    }

    /// The time of the previous hosted frame, while the hosted clock runs.
    pub closed spec fn last_frame_instant(self) -> Option<Instant> {
        self.last_real_time
    }

    /// The monotonic clock.
    pub fn now(&self) -> (d: Duration)
        ensures
            duration_nanos(d) == self@.now,
    {
        self.now
    }

    /// Whether a frame is being served step by step.
    pub fn frame_in_progress(&self) -> (r: bool)
        ensures
            r == self.in_frame(),
    {
        self.run.is_some()
    }

    /// Whether the hosted clock holds the time of a previous hosted frame.
    pub fn hosted_clock_running(&self) -> (r: bool)
        ensures
            r == self@.timed,
    {
        self.last_real_time.is_some()
    }

    /// The frame loop whose callback the frame in progress has lent out.
    pub fn lent_loop_id(&self) -> (r: Option<u64>)
        ensures
            r == self.lent_loop(),
    {
        match &self.run {
            Some(run) => run.lent,
            None => None,
        }
    }

    /// The id that the next registration receives.
    pub fn next_id(&self) -> (id: u64)
        ensures
            id == self@.next_id,
    {
        self.next_id
    }

    /// Whether some frame loop is active or some single-frame request waits.
    pub fn has_pending_frames(&self) -> (r: bool)
        ensures
            r == self@.pending(),
    {
        self.one_shot_requests.len() > 0 || self.loop_subscribers.len() > 0
    }

    /// Asks the host for a redraw when a requester is registered and frames
    /// are pending. Returns whether it asked.
    fn notify_host_redraw(&mut self) -> (requested: bool)
        requires
            old(self).wf(),
        ensures
            final(self).wf(),
            final(self)@ == old(self)@.notified(),
            final(self).last_frame_instant() == old(self).last_frame_instant(),
            requested == (old(self)@.requester && old(self)@.pending()),
            requested ==> call_ensures(old(self).requester_value()->0, (), ()),
            final(self).requester_value() == old(self).requester_value(),
            final(self).loop_callbacks() == old(self).loop_callbacks(),
            final(self).one_shot_callbacks() == old(self).one_shot_callbacks(),
            final(self).clock() == old(self).clock(),
            final(self).same_run(*old(self)),
    {
        let pending = self.has_pending_frames();
        match &self.redraw_requester {
            Some(requester) => {
                if pending {
                    requester();
                    self.redraws = Ghost(self.redraws@ + 1);
                    true
                } else {
                    false
                }
            },
            None => false,
        }
    }
}

/// Starts a frame loop that `on_frame` serves on every subsequent frame,
/// under the next id, and asks the host for a redraw if a requester is
/// registered. Cancelling the returned guard unregisters the loop.
pub fn start_frame_loop<L: FnMut(FrameInfo), O: FnOnce(FrameInfo), R: Fn()>(
    state: &mut NativeFrameState<L, O, R>,
    on_frame: L,
) -> (r: Result<FrameLoopGuard, FrameLoopError>)
    requires
        old(state).wf(),
        old(state)@.next_id < u64::MAX,
        forall|info: FrameInfo| call_requires(on_frame, (info,)),
    ensures
        final(state).wf(),
        final(state)@ == old(state)@.with_loop(),
        r matches Ok(g) && g.spec_id() == old(state)@.next_id,
        final(state).loop_callbacks() == old(state).loop_callbacks().push(on_frame),
        final(state).one_shot_callbacks() == old(state).one_shot_callbacks(),
        final(state).requester_value() == old(state).requester_value(),
        final(state).clock() == old(state).clock(),
        old(state)@.requester ==> call_ensures(old(state).requester_value()->0, (), ()),
        final(state).same_run(*old(state)),
{
    let id = state.next_id;
    state.next_id = id + 1;
    state.loop_subscribers.push(LoopSubscriber { id, callback: Some(on_frame) });
    proof {
        let old_ids = old(state).loop_subscribers@.map_values(|s: LoopSubscriber<L>| s.id);
        assert(state@.loops =~= old_ids.push(id));
        assert(state.loop_callbacks() =~= old(state).loop_callbacks().push(on_frame));
        assert(state.one_shot_callbacks() =~= old(state).one_shot_callbacks());
    }
    state.notify_host_redraw();
    Ok(FrameLoopGuard::new(id))
}

/// Requests a single invocation of `on_frame` on the next frame, under the
/// next id, and asks the host for a redraw if a requester is registered.
/// Cancelling the returned guard withdraws the request.
pub fn request_next_frame<L: FnMut(FrameInfo), O: FnOnce(FrameInfo), R: Fn()>(
    state: &mut NativeFrameState<L, O, R>,
    on_frame: O,
) -> (r: Result<FrameRequestGuard, FrameLoopError>)
    requires
        old(state).wf(),
        old(state)@.next_id < u64::MAX,
        forall|info: FrameInfo| call_requires(on_frame, (info,)),
    ensures
        final(state).wf(),
        final(state)@ == old(state)@.with_one_shot(),
        r matches Ok(g) && g.spec_id() == old(state)@.next_id,
        final(state).one_shot_callbacks() == old(state).one_shot_callbacks().push(on_frame),
        final(state).loop_callbacks() == old(state).loop_callbacks(),
        final(state).requester_value() == old(state).requester_value(),
        final(state).clock() == old(state).clock(),
        old(state)@.requester ==> call_ensures(old(state).requester_value()->0, (), ()),
        final(state).same_run(*old(state)),
{
    let id = state.next_id;
    state.next_id = id + 1;
    state.one_shot_requests.push(OneShotRequest { id, callback: on_frame });
    proof {
        let old_ids = old(state).one_shot_requests@.map_values(|r: OneShotRequest<O>| r.id);
        assert(state@.one_shots =~= old_ids.push(id));
        assert(state.one_shot_callbacks() =~= old(state).one_shot_callbacks().push(on_frame));
        assert(state.loop_callbacks() =~= old(state).loop_callbacks());
    }
    state.notify_host_redraw();
    Ok(FrameRequestGuard::new(id))
}

/// Advances the clock by `dt` and serves one frame: every pending
/// single-frame request is invoked once, oldest first, and dropped; then
/// every active frame loop is invoked, oldest first. All are handed the
/// advanced clock and `dt`. A frame served step by step may be in progress,
/// as when a single-frame callback ticks, provided no loop callback is lent
/// out: that frame then goes on with its own timing values and its own
/// registrations.
pub fn tick<L: FnMut(FrameInfo), O: FnOnce(FrameInfo), R: Fn()>(
    state: &mut NativeFrameState<L, O, R>,
    dt: Duration,
)
    requires
        old(state).wf(),
        old(state).lent_loop() is None,
        old(state)@.now + duration_nanos(dt) <= max_duration_nanos(),
    ensures
        final(state).wf(),
        final(state)@ == old(state)@.ticked(duration_nanos(dt)),
        final(state).same_run(*old(state)),
        final(state).last_frame_instant() == old(state).last_frame_instant(),
        forall|j: int|
            0 <= j < old(state).one_shot_callbacks().len() ==> call_ensures(
                #[trigger] old(state).one_shot_callbacks()[j],
                (frame_info(final(state).clock(), dt),),
                (),
            ),
        forall|j: int|
            0 <= j < old(state).loop_callbacks().len() ==> call_ensures(
                #[trigger] old(state).loop_callbacks()[j],
                (frame_info(final(state).clock(), dt),),
                (),
            ),
        final(state).loop_callbacks() == old(state).loop_callbacks(),
        final(state).one_shot_callbacks().len() == 0,
        final(state).requester_value() == old(state).requester_value(),
{
    let now = checked_add(state.now, dt).unwrap();
    state.now = now;
    let info = FrameInfo { now, delta: dt };
    let ghost t = duration_nanos(now);
    let ghost d = duration_nanos(dt);
    let ghost start_log = state.log@;
    let ghost one_shot_ids = old(state)@.one_shots;
    let ghost loop_ids = old(state)@.loops;
    let ghost loops0 = state.loop_subscribers@;
    let ghost next0 = state.next_id;
    let ghost requester0 = state.redraw_requester;
    let ghost run0 = state.run;
    let ghost timed0 = state.last_real_time;
    let ghost redraws0 = state.redraws@;
    let ghost one_shot_cbs = old(state).one_shot_callbacks();
    let ghost loop_cbs = old(state).loop_callbacks();

    // 1. Drain and serve the single-frame requests.
    let mut one_shots: Vec<OneShotRequest<O>> = Vec::new();
    std::mem::swap(&mut one_shots, &mut state.one_shot_requests);
    let n = one_shots.len();
    let mut served: usize = 0;
    while one_shots.len() > 0
        invariant
            served + one_shots@.len() == n,
            n == one_shot_ids.len(),
            forall|i: int| 0 <= i < one_shots@.len() ==> #[trigger] one_shots@[i].id
                == one_shot_ids[served + i],
            forall|i: int, info: FrameInfo|
                0 <= i < one_shots@.len() ==> #[trigger] call_requires(
                    one_shots@[i].callback,
                    (info,),
                ),
            state.log@ == start_log + dispatches(one_shot_ids.take(served as int), t, d),
            n == one_shot_cbs.len(),
            forall|i: int| 0 <= i < one_shots@.len() ==> #[trigger] one_shots@[i].callback
                == one_shot_cbs[served + i],
            forall|k: int| 0 <= k < served ==> call_ensures(#[trigger] one_shot_cbs[k], (info,), ()),
            info == frame_info(now, dt),
            state.one_shot_requests@.len() == 0,
            state.loop_subscribers@ == loops0,
            state.next_id == next0,
            state.redraw_requester == requester0,
            state.run == run0,
            old(state).lent_loop() is None,
            state.last_real_time == timed0,
            state.redraws@ == redraws0,
            state.now == now,
        decreases one_shots@.len(),
    {
        let OneShotRequest { id, callback } = one_shots.remove(0);
        assert(callback == one_shot_cbs[served as int]);
        callback(info);
        proof {
            let before = one_shot_ids.take(served as int);
            assert(one_shot_ids.take(served + 1) =~= before.push(id));
            assert(dispatches(before.push(id), t, d) =~= dispatches(before, t, d).push(
                FrameDispatch { id, now: t, delta: d },
            ));
        }
        state.log = Ghost(state.log@.push(FrameDispatch { id, now: t, delta: d }));
        served = served + 1;
    }
    proof {
        assert(one_shot_ids.take(n as int) =~= one_shot_ids);
    }
    let ghost mid_log = state.log@;

    // 2. Serve the frame loops.
    let m = state.loop_subscribers.len();
    let mut i: usize = 0;
    while i < m
        invariant
            m == state.loop_subscribers@.len(),
            i <= m,
            state.loop_subscribers@.map_values(|s: LoopSubscriber<L>| s.id) == loop_ids,
            state.loop_subscribers@ == loops0,
            forall|k: int, info: FrameInfo|
                0 <= k < loops0.len() && loops0[k].callback is Some ==> #[trigger] call_requires(
                    loops0[k].callback->0,
                    (info,),
                ),
            forall|k: int| 0 <= k < loops0.len() ==> #[trigger] loops0[k].callback is Some,
            state.log@ == mid_log + dispatches(loop_ids.take(i as int), t, d),
            loops0.map_values(|s: LoopSubscriber<L>| s.callback->0) == loop_cbs,
            forall|k: int| 0 <= k < i ==> call_ensures(#[trigger] loop_cbs[k], (info,), ()),
            info == frame_info(now, dt),
            state.one_shot_requests@.len() == 0,
            state.next_id == next0,
            state.redraw_requester == requester0,
            state.run == run0,
            old(state).lent_loop() is None,
            state.last_real_time == timed0,
            state.redraws@ == redraws0,
            state.now == now,
        decreases m - i,
    {
        let sub = state.loop_subscribers.remove(i);
        let id = sub.id;
        match sub.callback {
            Some(mut cb) => {
                assert(cb == loop_cbs[i as int]);
                cb(info);
                state.loop_subscribers.insert(i, LoopSubscriber { id, callback: Some(cb) });
            },
            None => {
                assert(false);
                state.loop_subscribers.insert(i, LoopSubscriber { id, callback: None });
            },
        }
        assert(state.loop_subscribers@ =~= loops0);
        proof {
            let before = loop_ids.take(i as int);
            assert(loop_ids.take(i + 1) =~= before.push(id));
            assert(dispatches(before.push(id), t, d) =~= dispatches(before, t, d).push(
                FrameDispatch { id, now: t, delta: d },
            ));
        }
        state.log = Ghost(state.log@.push(FrameDispatch { id, now: t, delta: d }));
        i = i + 1;
    }
    proof {
        assert(loop_ids.take(m as int) =~= loop_ids);
        assert(state@.one_shots =~= Seq::<u64>::empty());
    }
}

impl FrameLoopGuard {
    /// Stops the frame loop: it is unregistered and never invoked again.
    /// Cancelling a loop that is no longer registered changes nothing.
    pub fn cancel<L: FnMut(FrameInfo), O: FnOnce(FrameInfo), R: Fn()>(
        self,
        state: &mut NativeFrameState<L, O, R>,
    )
        requires
            old(state).wf(),
        ensures
            final(state).wf(),
            final(state)@ == old(state)@.without_loop(self.spec_id()),
            !old(state)@.loops.contains(self.spec_id()) ==> final(state).loop_callbacks()
                == old(state).loop_callbacks(),
            old(state)@.loops.contains(self.spec_id()) ==> exists|k: int|
                0 <= k < old(state)@.loops.len() && old(state)@.loops[k] == self.spec_id()
                    && final(state).loop_callbacks() == #[trigger] old(state).loop_callbacks().remove(k),
            final(state).one_shot_callbacks() == old(state).one_shot_callbacks(),
            final(state).requester_value() == old(state).requester_value(),
            final(state).clock() == old(state).clock(),
            final(state).same_run(*old(state)),
    {
        let id = self.id();
        let ghost s0 = *state;
        let ghost ids = old(state)@.loops;
        let n = state.loop_subscribers.len();
        let mut i: usize = 0;
        while i < n
            invariant
                i <= n,
                n == state.loop_subscribers@.len(),
                *state == s0,
                s0 == *old(state),
                id == self.spec_id(),
                ids == s0@.loops,
                s0.wf(),
                forall|k: int| 0 <= k < i ==> ids[k] != id,
            decreases n - i,
        {
            if state.loop_subscribers[i].id == id {
                assert(ids[i as int] == id);
                state.loop_subscribers.remove(i);
                proof {
                    lemma_remove_is_filter(ids, i as int);
                    assert(state@.loops =~= ids.remove(i as int));
                    assert(state.loop_callbacks() =~= s0.loop_callbacks().remove(i as int));
                }
                return;
            }
            i = i + 1;
        }
        proof {
            lemma_filter_absent(ids, id);
        }
    }
}

/// Withdraws the pending single-frame request `id`, if there is one.
fn withdraw_pending<L: FnMut(FrameInfo), O: FnOnce(FrameInfo), R: Fn()>(
    state: &mut NativeFrameState<L, O, R>,
    id: u64,
)
    requires
        old(state).wf(),
    ensures
        final(state).wf(),
        final(state)@ == old(state)@.without_one_shot(id),
        !old(state)@.one_shots.contains(id) ==> final(state).one_shot_callbacks()
            == old(state).one_shot_callbacks(),
        old(state)@.one_shots.contains(id) ==> exists|k: int|
            0 <= k < old(state)@.one_shots.len() && old(state)@.one_shots[k] == id
                && final(state).one_shot_callbacks() == #[trigger] old(state).one_shot_callbacks().remove(k),
        final(state).loop_callbacks() == old(state).loop_callbacks(),
        final(state).requester_value() == old(state).requester_value(),
        final(state).clock() == old(state).clock(),
        final(state).same_run(*old(state)),
        final(state).last_frame_instant() == old(state).last_frame_instant(),
{
    
    let ghost s0 = *state;
    let ghost ids = old(state)@.one_shots;
    let n = state.one_shot_requests.len();
    let mut i: usize = 0;
    while i < n
        invariant
            i <= n,
            n == state.one_shot_requests@.len(),
            *state == s0,
            s0 == *old(state),
            
            ids == s0@.one_shots,
            s0.wf(),
            forall|k: int| 0 <= k < i ==> ids[k] != id,
        decreases n - i,
    {
        if state.one_shot_requests[i].id == id {
            assert(ids[i as int] == id);
            state.one_shot_requests.remove(i);
            proof {
                lemma_remove_is_filter(ids, i as int);
                assert(state@.one_shots =~= ids.remove(i as int));
                assert(state.one_shot_callbacks() =~= s0.one_shot_callbacks().remove(i as int));
            }
            return;
        }
        i = i + 1;
    }
    proof {
        lemma_filter_absent(ids, id);
    }
}

/// The position of the request `id` in `requests`, if it is there.
fn find_request<O>(requests: &Vec<OneShotRequest<O>>, id: u64) -> (r: Option<usize>)
    ensures
        match r {
            Some(k) => k < requests@.len() && requests@[k as int].id == id,
            None => forall|j: int| 0 <= j < requests@.len() ==> requests@[j].id != id,
        },
{
    let n = requests.len();
    let mut i: usize = 0;
    while i < n
        invariant
            i <= n,
            n == requests@.len(),
            forall|j: int| 0 <= j < i ==> requests@[j].id != id,
        decreases n - i,
    {
        if requests[i].id == id {
            return Some(i);
        }
        i = i + 1;
    }
    None
}

/// Withdraws the request `id` from the single-frame requests that the frame
/// in progress has still to serve, if it is among them.
fn withdraw_serving<L: FnMut(FrameInfo), O: FnOnce(FrameInfo), R: Fn()>(
    state: &mut NativeFrameState<L, O, R>,
    id: u64,
)
    requires
        old(state).wf(),
    ensures
        final(state).wf(),
        final(state)@ == old(state)@,
        final(state).serving_one_shot_ids() == old(state).serving_one_shot_ids().filter(other_than(id)),
        !old(state).serving_one_shot_ids().contains(id) ==> final(state).serving_one_shot_callbacks()
            == old(state).serving_one_shot_callbacks(),
        old(state).serving_one_shot_ids().contains(id) ==> exists|k: int|
            0 <= k < old(state).serving_one_shot_ids().len() && old(state).serving_one_shot_ids()[k]
                == id && final(state).serving_one_shot_callbacks() == #[trigger] old(state).serving_one_shot_callbacks().remove(k),
        final(state).in_frame() == old(state).in_frame(),
        final(state).serving_loop_ids() == old(state).serving_loop_ids(),
        final(state).lent_loop() == old(state).lent_loop(),
        final(state).run_info() == old(state).run_info(),
        final(state).loop_callbacks() == old(state).loop_callbacks(),
        final(state).one_shot_callbacks() == old(state).one_shot_callbacks(),
        final(state).requester_value() == old(state).requester_value(),
        final(state).clock() == old(state).clock(),
        final(state).last_frame_instant() == old(state).last_frame_instant(),
{
    let ghost s0 = *state;
    match state.run.take() {
        None => {
            proof {
                assert(Seq::<u64>::empty().filter(other_than(id)) =~= Seq::<u64>::empty()) by {
                    lemma_filter_absent(Seq::<u64>::empty(), id);
                }
            }
        },
        Some(mut run) => {
            let ghost ids = run.one_shots@.map_values(|q: OneShotRequest<O>| q.id);
            let ghost cbs = run.one_shots@.map_values(|q: OneShotRequest<O>| q.callback);
            let ghost run0 = run;
            let found = find_request(&run.one_shots, id);
            proof {
                assert forall|k: int| 0 <= k < ids.len() implies ids[k] == run0.one_shots@[k].id by {}
            }
            match found {
                Some(i) => {
                    run.one_shots.remove(i);
                    proof {
                        lemma_remove_is_filter(ids, i as int);
                        assert(run.one_shots@.map_values(|q: OneShotRequest<O>| q.id) =~= ids.remove(i as int));
                        assert(run.one_shots@.map_values(|q: OneShotRequest<O>| q.callback) =~= cbs.remove(i as int));
                        assert forall|k: int, info: FrameInfo| 0 <= k < run.one_shots@.len() implies #[trigger] call_requires(
                            run.one_shots@[k].callback, (info,)) by {
                            if k < i {
                                assert(run.one_shots@[k] == run0.one_shots@[k]);
                            } else {
                                assert(run.one_shots@[k] == run0.one_shots@[k + 1]);
                            }
                        }
                    }
                },
                None => {
                    proof {
                        lemma_filter_absent(ids, id);
                    }
                },
            }
            state.run = Some(run);
            proof {
                if found is Some {
                    let k = found->0 as int;
                    assert(state.serving_one_shot_callbacks() =~= s0.serving_one_shot_callbacks().remove(k));
                    assert(s0.serving_one_shot_ids()[k] == id);
                }
            }
        },
    }
}

impl FrameRequestGuard {
    /// Withdraws the single-frame request: it is never invoked, neither by
    /// a later frame nor by the frame in progress, if any. Cancelling a
    /// request that has already been served changes nothing.
    pub fn cancel<L: FnMut(FrameInfo), O: FnOnce(FrameInfo), R: Fn()>(
        self,
        state: &mut NativeFrameState<L, O, R>,
    )
        requires
            old(state).wf(),
        ensures
            final(state).wf(),
            final(state)@ == old(state)@.without_one_shot(self.spec_id()),
            !old(state)@.one_shots.contains(self.spec_id()) ==> final(state).one_shot_callbacks()
                == old(state).one_shot_callbacks(),
            old(state)@.one_shots.contains(self.spec_id()) ==> exists|k: int|
                0 <= k < old(state)@.one_shots.len() && old(state)@.one_shots[k] == self.spec_id()
                    && final(state).one_shot_callbacks() == #[trigger] old(state).one_shot_callbacks().remove(k),
            final(state).serving_one_shot_ids() == old(state).serving_one_shot_ids().filter(
                other_than(self.spec_id()),
            ),
            old(state).serving_one_shot_ids().contains(self.spec_id()) ==> exists|k: int|
                0 <= k < old(state).serving_one_shot_ids().len()
                    && old(state).serving_one_shot_ids()[k] == self.spec_id()
                    && final(state).serving_one_shot_callbacks()
                    == #[trigger] old(state).serving_one_shot_callbacks().remove(k),
            final(state).in_frame() == old(state).in_frame(),
            final(state).serving_loop_ids() == old(state).serving_loop_ids(),
            final(state).lent_loop() == old(state).lent_loop(),
            final(state).loop_callbacks() == old(state).loop_callbacks(),
            final(state).requester_value() == old(state).requester_value(),
            final(state).clock() == old(state).clock(),
    {
        let id = self.id();
        withdraw_pending(state, id);
        let ghost mid = *state;
        assert(mid.serving_one_shot_callbacks() == old(state).serving_one_shot_callbacks());
        assert(mid.serving_one_shot_ids() == old(state).serving_one_shot_ids());
        withdraw_serving(state, id);
    }
}

/// Registers `requester` as the host redraw requester, replacing any
/// earlier one. The hosted clock restarts, and a redraw is requested at
/// once if frames are pending. Releasing the returned guard detaches it.
pub fn set_host_redraw_requester<L: FnMut(FrameInfo), O: FnOnce(FrameInfo), R: Fn()>(
    state: &mut NativeFrameState<L, O, R>,
    requester: R,
) -> (g: HostRedrawGuard)
    requires
        old(state).wf(),
        call_requires(requester, ()),
    ensures
        final(state).wf(),
        final(state)@ == old(state)@.with_requester(),
        final(state).requester_value() == Some(requester),
        old(state)@.pending() ==> call_ensures(requester, (), ()),
        final(state).loop_callbacks() == old(state).loop_callbacks(),
        final(state).one_shot_callbacks() == old(state).one_shot_callbacks(),
        final(state).clock() == old(state).clock(),
        final(state).same_run(*old(state)),
{
    let guard = HostRedrawGuard::new();
    state.redraw_requester = Some(requester);
    state.last_real_time = None;
    state.notify_host_redraw();
    guard
}

impl HostRedrawGuard {
    /// Detaches the host redraw requester, whichever is registered, and
    /// restarts the hosted clock.
    pub fn release<L: FnMut(FrameInfo), O: FnOnce(FrameInfo), R: Fn()>(
        self,
        state: &mut NativeFrameState<L, O, R>,
    )
        requires
            old(state).wf(),
        ensures
            final(state).wf(),
            final(state)@ == old(state)@.without_requester(),
            final(state).requester_value() is None,
            final(state).loop_callbacks() == old(state).loop_callbacks(),
            final(state).one_shot_callbacks() == old(state).one_shot_callbacks(),
            final(state).clock() == old(state).clock(),
            final(state).same_run(*old(state)),
    {
        state.redraw_requester = None;
        state.last_real_time = None;
    }
}

/// Whether some frame loop is active or some single-frame request waits.
pub fn has_pending_frames<L: FnMut(FrameInfo), O: FnOnce(FrameInfo), R: Fn()>(
    state: &NativeFrameState<L, O, R>,
) -> (r: bool)
    ensures
        r == state@.pending(),
{
    state.has_pending_frames()
}

/// The delta of a hosted frame, from the time measured since the previous
/// hosted frame: 16 ms when there was none, otherwise the measured time
/// clamped to the range from 1 ms to 100 ms.
pub fn hosted_frame_delta(elapsed: Option<Duration>) -> (dt: Duration)
    ensures
        duration_nanos(dt) == hosted_delta(
            match elapsed {
                Some(e) => Some(duration_nanos(e)),
                None => None,
            },
        ),
{
    match elapsed {
        Some(d) => {
            let n = nanos_of(d);
            if n < NANOS_PER_MILLI as u128 {
                from_millis(1)
            } else if n > 100 * NANOS_PER_MILLI as u128 {
                from_millis(100)
            } else {
                d
            }
        },
        None => from_millis(16),
    }
}

/// Serves one frame on a host redraw. The frame delta is the real time
/// elapsed since the previous hosted frame, clamped to the range from 1 ms
/// to 100 ms, or 16 ms for the first hosted frame. After the frame, the next
/// redraw is requested if frames remain; otherwise the hosted clock stops.
/// Returns the delta that was served.
pub fn step_hosted_frame<L: FnMut(FrameInfo), O: FnOnce(FrameInfo), R: Fn()>(
    state: &mut NativeFrameState<L, O, R>,
) -> (dt: Duration)
    requires
        old(state).wf(),
        old(state).lent_loop() is None,
        old(state)@.now + hosted_headroom(old(state)@.timed) <= max_duration_nanos(),
    ensures
        final(state).wf(),
        final(state)@ == old(state)@.hosted_step(duration_nanos(dt)),
        final(state).same_run(*old(state)),
        !old(state)@.timed ==> duration_nanos(dt) == 16 * NANOS_PER_MILLI,
        old(state)@.timed ==> NANOS_PER_MILLI <= duration_nanos(dt) <= 100 * NANOS_PER_MILLI,
        old(state)@.timed && final(state)@.timed ==> duration_nanos(dt) == hosted_delta(
            Some(
                instant_gap(
                    final(state).last_frame_instant()->0,
                    old(state).last_frame_instant()->0,
                ),
            ),
        ),
        old(state)@.timed ==> exists|i: Instant|
            duration_nanos(dt) == hosted_delta(
                Some(#[trigger] instant_gap(i, old(state).last_frame_instant()->0)),
            ),
        forall|j: int|
            0 <= j < old(state).one_shot_callbacks().len() ==> call_ensures(
                #[trigger] old(state).one_shot_callbacks()[j],
                (frame_info(final(state).clock(), dt),),
                (),
            ),
        forall|j: int|
            0 <= j < old(state).loop_callbacks().len() ==> call_ensures(
                #[trigger] old(state).loop_callbacks()[j],
                (frame_info(final(state).clock(), dt),),
                (),
            ),
        final(state).loop_callbacks() == old(state).loop_callbacks(),
        final(state).one_shot_callbacks().len() == 0,
        final(state).requester_value() == old(state).requester_value(),
        final(state)@.pending() && final(state)@.requester ==> call_ensures(
            old(state).requester_value()->0,
            (),
            (),
        ),
{
    let now_instant = instant_now();
    let elapsed = match &state.last_real_time {
        Some(last) => Some(duration_since(&now_instant, last)),
        None => None,
    };
    let dt = hosted_frame_delta(elapsed);
    state.last_real_time = Some(now_instant);
    assert(state.one_shot_callbacks() == old(state).one_shot_callbacks());
    assert(state.loop_callbacks() == old(state).loop_callbacks());
    tick(state, dt);
    if state.has_pending_frames() {
        state.notify_host_redraw();
    } else {
        state.last_real_time = None;
    }
    dt
}

/// The position of the frame loop `id` among `subscribers`, if it is there.
fn find_loop<L>(subscribers: &Vec<LoopSubscriber<L>>, id: u64) -> (r: Option<usize>)
    ensures
        match r {
            Some(k) => k < subscribers@.len() && subscribers@[k as int].id == id,
            None => forall|j: int| 0 <= j < subscribers@.len() ==> subscribers@[j].id != id,
        },
{
    let n = subscribers.len();
    let mut i: usize = 0;
    while i < n
        invariant
            i <= n,
            n == subscribers@.len(),
            forall|j: int| 0 <= j < i ==> subscribers@[j].id != id,
        decreases n - i,
    {
        if subscribers[i].id == id {
            return Some(i);
        }
        i = i + 1;
    }
    None
}

/// Begins serving a frame of length `dt` step by step, so that the
/// callbacks it invokes may register and cancel frame loops and requests:
/// the clock advances by `dt`, the pending single-frame requests pass to
/// the frame, and the active frame loops are noted in order. Requests made
/// from now on wait for the next frame, and loops started from now on are
/// served from the next frame on.
pub fn begin_frame<L: FnMut(FrameInfo), O: FnOnce(FrameInfo), R: Fn()>(
    state: &mut NativeFrameState<L, O, R>,
    dt: Duration,
)
    requires
        old(state).wf(),
        !old(state).in_frame(),
        old(state)@.now + duration_nanos(dt) <= max_duration_nanos(),
    ensures
        final(state).wf(),
        final(state)@ == old(state)@.frame_started(duration_nanos(dt)),
        final(state).in_frame(),
        final(state).run_info() == frame_info(final(state).clock(), dt),
        final(state).serving_one_shot_ids() == old(state)@.one_shots,
        final(state).serving_one_shot_callbacks() == old(state).one_shot_callbacks(),
        final(state).serving_loop_ids() == old(state)@.loops,
        final(state).lent_loop() is None,
        final(state).loop_callbacks() == old(state).loop_callbacks(),
        final(state).one_shot_callbacks().len() == 0,
        final(state).requester_value() == old(state).requester_value(),
        final(state).last_frame_instant() == old(state).last_frame_instant(),
{
    let now = checked_add(state.now, dt).unwrap();
    state.now = now;
    let mut one_shots: Vec<OneShotRequest<O>> = Vec::new();
    std::mem::swap(&mut one_shots, &mut state.one_shot_requests);
    let ghost ids = state@.loops;
    let mut loops: Vec<u64> = Vec::new();
    let n = state.loop_subscribers.len();
    let mut i: usize = 0;
    while i < n
        invariant
            i <= n,
            n == state.loop_subscribers@.len(),
            ids == state.loop_subscribers@.map_values(|s: LoopSubscriber<L>| s.id),
            loops@ == ids.take(i as int),
        decreases n - i,
    {
        loops.push(state.loop_subscribers[i].id);
        proof {
            assert(ids.take(i + 1) =~= ids.take(i as int).push(ids[i as int]));
        }
        i = i + 1;
    }
    proof {
        assert(ids.take(n as int) =~= ids);
        assert(state.one_shot_requests@.map_values(|q: OneShotRequest<O>| q.id) =~= Seq::<u64>::empty());
    }
    state.run = Some(FrameRun { info: FrameInfo { now, delta: dt }, one_shots, loops, lent: None });
}

/// The next step of the frame in progress. First each single-frame request
/// that the frame took over and that was not withdrawn since, oldest first;
/// then each frame loop noted when the frame began that is still
/// registered, in order, whose callback is lent out until it is handed
/// back with [`return_loop_callback`]; then the end of the frame.
pub fn next_frame_call<L: FnMut(FrameInfo), O: FnOnce(FrameInfo), R: Fn()>(
    state: &mut NativeFrameState<L, O, R>,
) -> (c: FrameCall<L, O>)
    requires
        old(state).wf(),
        old(state).in_frame(),
        old(state).lent_loop() is None,
    ensures
        final(state).wf(),
        final(state)@ == old(state)@,
        final(state).requester_value() == old(state).requester_value(),
        final(state).clock() == old(state).clock(),
        final(state).last_frame_instant() == old(state).last_frame_instant(),
        final(state).one_shot_callbacks() == old(state).one_shot_callbacks(),
        (c is OneShot) <==> old(state).serving_one_shot_ids().len() > 0,
        c matches FrameCall::OneShot(cb, info) ==> {
            &&& cb == old(state).serving_one_shot_callbacks()[0]
            &&& info == old(state).run_info()
            &&& forall|i: FrameInfo| call_requires(cb, (i,))
            &&& final(state).serving_one_shot_ids() == old(state).serving_one_shot_ids().drop_first()
            &&& final(state).serving_one_shot_callbacks() == old(state).serving_one_shot_callbacks().drop_first()
            &&& final(state).serving_loop_ids() == old(state).serving_loop_ids()
            &&& final(state).in_frame()
            &&& final(state).lent_loop() is None
            &&& final(state).run_info() == old(state).run_info()
            &&& final(state).loop_callbacks() == old(state).loop_callbacks()
        },
        c matches FrameCall::Loop(id, cb, info) ==> {
            &&& info == old(state).run_info()
            &&& forall|i: FrameInfo| call_requires(cb, (i,))
            &&& exists|k: int|
                0 <= k < old(state).serving_loop_ids().len() && #[trigger] old(state).serving_loop_ids()[k]
                    == id && (forall|j: int|
                    0 <= j < k ==> !old(state)@.loops.contains(old(state).serving_loop_ids()[j]))
                    && final(state).serving_loop_ids() == old(state).serving_loop_ids().skip(k + 1)
            &&& exists|p: int|
                0 <= p < old(state)@.loops.len() && #[trigger] old(state)@.loops[p] == id && cb == old(state).loop_callbacks()[p] && (forall|j: int|
                    0 <= j < old(state)@.loops.len() && j != p ==> final(state).loop_callbacks()[j]
                        == old(state).loop_callbacks()[j])
            &&& final(state).lent_loop() == Some(id)
            &&& final(state).in_frame()
            &&& final(state).serving_one_shot_ids() == old(state).serving_one_shot_ids()
            &&& final(state).run_info() == old(state).run_info()
        },
        c is Done ==> {
            &&& old(state).serving_one_shot_ids().len() == 0
            &&& forall|j: int|
                0 <= j < old(state).serving_loop_ids().len() ==> !old(state)@.loops.contains(
                    #[trigger] old(state).serving_loop_ids()[j],
                )
            &&& !final(state).in_frame()
            &&& final(state).loop_callbacks() == old(state).loop_callbacks()
        },
{
    let ghost s0 = *state;
    let mut run = state.run.take().unwrap();
    let info = run.info;
    if run.one_shots.len() > 0 {
        let q = run.one_shots.remove(0);
        proof {
            assert(run.one_shots@.map_values(|r: OneShotRequest<O>| r.id) =~= s0.serving_one_shot_ids().drop_first());
            assert(run.one_shots@.map_values(|r: OneShotRequest<O>| r.callback)
                =~= s0.serving_one_shot_callbacks().drop_first());
            assert(s0.serving_one_shot_callbacks()[0] == q.callback);
            assert forall|k: int, i: FrameInfo| 0 <= k < run.one_shots@.len() implies #[trigger] call_requires(
                run.one_shots@[k].callback, (i,)) by {
                assert(run.one_shots@[k] == s0.run->0.one_shots@[k + 1]);
            }
            assert forall|i: FrameInfo| call_requires(q.callback, (i,)) by {
                assert(q == s0.run->0.one_shots@[0]);
            }
        }
        state.run = Some(run);
        return FrameCall::OneShot(q.callback, info);
    }
    let ghost loops0 = run.loops@;
    let ghost ids = s0@.loops;
    assert(s0.serving_one_shot_ids().len() == 0);
    let ghost mut skipped: int = 0;
    while run.loops.len() > 0
        invariant
            0 <= skipped <= loops0.len(),
            run.loops@ == loops0.skip(skipped),
            forall|j: int| 0 <= j < skipped ==> !ids.contains(#[trigger] loops0[j]),
            run.info == info,
            run.one_shots@.len() == 0,
            run.lent is None,
            state.run is None,
            s0 == *old(state),
            s0.serving_one_shot_ids().len() == 0,
            state.loop_subscribers@ == s0.loop_subscribers@,
            ids == s0.loop_subscribers@.map_values(|s: LoopSubscriber<L>| s.id),
            s0.wf(),
            s0.lent_loop() is None,
            loops0 == s0.serving_loop_ids(),
            info == s0.run_info(),
            state.now == s0.now,
            state.next_id == s0.next_id,
            state.one_shot_requests == s0.one_shot_requests,
            state.last_real_time == s0.last_real_time,
            state.redraw_requester == s0.redraw_requester,
            state.redraws == s0.redraws,
            state.log == s0.log,
        decreases run.loops@.len(),
    {
        let id = run.loops.remove(0);
        proof {
            assert(loops0[skipped] == id);
            assert(run.loops@ =~= loops0.skip(skipped + 1));
        }
        match find_loop(&state.loop_subscribers, id) {
            Some(p) => {
                let sub = state.loop_subscribers.remove(p);
                state.loop_subscribers.insert(p, LoopSubscriber { id: sub.id, callback: None });
                match sub.callback {
                    Some(cb) => {
                        run.lent = Some(id);
                        state.run = Some(run);
                        proof {
                            assert(ids[p as int] == id);
                            assert(state@.loops =~= ids);
                            assert(s0.loop_callbacks()[p as int] == cb);
                            assert forall|i: FrameInfo| call_requires(cb, (i,)) by {
                                assert(s0.loop_subscribers@[p as int].callback is Some);
                            }
                            assert(loops0[skipped] == id);
                            assert forall|j: int| 0 <= j < ids.len() && j != p implies state.loop_callbacks()[j]
                                == s0.loop_callbacks()[j] by {
                                assert(state.loop_subscribers@[j] == s0.loop_subscribers@[j]);
                            }
                            assert forall|j: int| 0 <= j < state.loop_subscribers@.len() implies (
                                #[trigger] state.loop_subscribers@[j].callback is Some
                                || state.lent_loop() == Some(state.loop_subscribers@[j].id)) by {
                                if j != p {
                                    assert(state.loop_subscribers@[j] == s0.loop_subscribers@[j]);
                                    assert(s0.loop_subscribers@[j].callback is Some);
                                }
                            }
                            assert forall|j: int, i: FrameInfo|
                                0 <= j < state.loop_subscribers@.len() && state.loop_subscribers@[j].callback is Some
                                implies #[trigger] call_requires(state.loop_subscribers@[j].callback->0, (i,)) by {
                                assert(state.loop_subscribers@[j] == s0.loop_subscribers@[j]);
                            }
                        }
                        return FrameCall::Loop(id, cb, info);
                    },
                    None => {
                        assert(s0.loop_subscribers@[p as int].callback is Some);
                        assert(false);
                        state.run = Some(run);
                        return FrameCall::Done;
                    },
                }
            },
            None => {
                proof {
                    assert(!ids.contains(id)) by {
                        if ids.contains(id) {
                            let j = choose|j: int| 0 <= j < ids.len() && ids[j] == id;
                            assert(s0.loop_subscribers@[j].id == id);
                        }
                    }
                    skipped = skipped + 1;
                }
            },
        }
    }
    proof {
        assert(skipped == loops0.len());
        assert(state.loop_callbacks() =~= s0.loop_callbacks());
    }
    FrameCall::Done
}

/// Hands back the callback of the frame loop `id` that the frame in
/// progress lent out. If the loop was cancelled meanwhile, the callback is
/// dropped; otherwise it is the loop's callback again.
pub fn return_loop_callback<L: FnMut(FrameInfo), O: FnOnce(FrameInfo), R: Fn()>(
    state: &mut NativeFrameState<L, O, R>,
    id: u64,
    callback: L,
)
    requires
        old(state).wf(),
        old(state).in_frame(),
        old(state).lent_loop() == Some(id),
        forall|i: FrameInfo| call_requires(callback, (i,)),
    ensures
        final(state).wf(),
        final(state)@ == old(state)@,
        final(state).in_frame(),
        final(state).lent_loop() is None,
        final(state).serving_one_shot_ids() == old(state).serving_one_shot_ids(),
        final(state).serving_one_shot_callbacks() == old(state).serving_one_shot_callbacks(),
        final(state).serving_loop_ids() == old(state).serving_loop_ids(),
        final(state).run_info() == old(state).run_info(),
        old(state)@.loops.contains(id) ==> exists|p: int|
            0 <= p < old(state)@.loops.len() && #[trigger] old(state)@.loops[p] == id && final(state).loop_callbacks() == old(state).loop_callbacks().update(p, callback),
        !old(state)@.loops.contains(id) ==> final(state).loop_callbacks() == old(state).loop_callbacks(),
        final(state).one_shot_callbacks() == old(state).one_shot_callbacks(),
        final(state).requester_value() == old(state).requester_value(),
        final(state).clock() == old(state).clock(),
        final(state).last_frame_instant() == old(state).last_frame_instant(),
{
    let ghost s0 = *state;
    let ghost ids = s0@.loops;
    let mut run = state.run.take().unwrap();
    run.lent = None;
    match find_loop(&state.loop_subscribers, id) {
        Some(p) => {
            state.loop_subscribers.remove(p);
            state.loop_subscribers.insert(p, LoopSubscriber { id, callback: Some(callback) });
            state.run = Some(run);
            proof {
                assert(ids[p as int] == id);
                assert(state@.loops =~= ids);
                assert(state.loop_callbacks() =~= s0.loop_callbacks().update(p as int, callback));
                assert forall|j: int| 0 <= j < state.loop_subscribers@.len() implies (
                    #[trigger] state.loop_subscribers@[j].callback is Some
                    || state.lent_loop() == Some(state.loop_subscribers@[j].id)) by {
                    if j != p {
                        assert(state.loop_subscribers@[j] == s0.loop_subscribers@[j]);
                        assert(ids[j] != ids[p as int]);
                    }
                }
                assert forall|j: int, i: FrameInfo|
                    0 <= j < state.loop_subscribers@.len() && state.loop_subscribers@[j].callback is Some
                    implies #[trigger] call_requires(state.loop_subscribers@[j].callback->0, (i,)) by {
                    if j != p {
                        assert(state.loop_subscribers@[j] == s0.loop_subscribers@[j]);
                    }
                }
            }
        },
        None => {
            state.run = Some(run);
            proof {
                assert(!ids.contains(id)) by {
                    if ids.contains(id) {
                        let j = choose|j: int| 0 <= j < ids.len() && ids[j] == id;
                        assert(s0.loop_subscribers@[j].id == id);
                    }
                }
            }
        },
    }
}

/// Begins serving a hosted frame step by step, on a host redraw: the delta
/// is measured as by [`step_hosted_frame`], the hosted clock runs, and the
/// frame begins as by [`begin_frame`]. Returns the delta.
pub fn begin_hosted_frame<L: FnMut(FrameInfo), O: FnOnce(FrameInfo), R: Fn()>(
    state: &mut NativeFrameState<L, O, R>,
) -> (dt: Duration)
    requires
        old(state).wf(),
        !old(state).in_frame(),
        old(state)@.now + hosted_headroom(old(state)@.timed) <= max_duration_nanos(),
    ensures
        final(state).wf(),
        final(state)@ == old(state)@.hosted_frame_started(duration_nanos(dt)),
        !old(state)@.timed ==> duration_nanos(dt) == 16 * NANOS_PER_MILLI,
        old(state)@.timed ==> duration_nanos(dt) == hosted_delta(
            Some(
                instant_gap(
                    final(state).last_frame_instant()->0,
                    old(state).last_frame_instant()->0,
                ),
            ),
        ),
        final(state).in_frame(),
        final(state).run_info() == frame_info(final(state).clock(), dt),
        final(state).serving_one_shot_ids() == old(state)@.one_shots,
        final(state).serving_one_shot_callbacks() == old(state).one_shot_callbacks(),
        final(state).serving_loop_ids() == old(state)@.loops,
        final(state).lent_loop() is None,
        final(state).loop_callbacks() == old(state).loop_callbacks(),
        final(state).one_shot_callbacks().len() == 0,
        final(state).requester_value() == old(state).requester_value(),
{
    let now_instant = instant_now();
    let elapsed = match &state.last_real_time {
        Some(last) => Some(duration_since(&now_instant, last)),
        None => None,
    };
    let dt = hosted_frame_delta(elapsed);
    state.last_real_time = Some(now_instant);
    assert(state.one_shot_callbacks() == old(state).one_shot_callbacks());
    assert(state.loop_callbacks() == old(state).loop_callbacks());
    begin_frame(state, dt);
    dt
}

/// Ends a hosted frame served step by step: the next redraw is requested
/// if frames remain, otherwise the hosted clock stops.
pub fn finish_hosted_frame<L: FnMut(FrameInfo), O: FnOnce(FrameInfo), R: Fn()>(
    state: &mut NativeFrameState<L, O, R>,
)
    requires
        old(state).wf(),
    ensures
        final(state).wf(),
        final(state)@ == old(state)@.after_hosted_frame(),
        final(state).same_run(*old(state)),
        old(state)@.pending() && old(state)@.requester ==> call_ensures(
            old(state).requester_value()->0,
            (),
            (),
        ),
        final(state).loop_callbacks() == old(state).loop_callbacks(),
        final(state).one_shot_callbacks() == old(state).one_shot_callbacks(),
        final(state).requester_value() == old(state).requester_value(),
        final(state).clock() == old(state).clock(),
{
    if state.has_pending_frames() {
        state.notify_host_redraw();
    } else {
        state.last_real_time = None;
    }
}

} // verus!

//! Helpers that a native host uses to drive the frame registry from its
//! redraw events.

use std::time::{Duration, Instant};
use vstd::prelude::*;

use crate::frame::native::{set_host_redraw_requester, NativeFrameState};
use crate::frame::types::{frame_info, FrameInfo, HostRedrawGuard};
use crate::frame::model::{hosted_delta, hosted_headroom};
use crate::time::{duration_nanos, instant_gap, max_duration_nanos, NANOS_PER_MILLI};

verus! {

/// Registers the host's redraw request as the registry's redraw requester.
pub fn bind_host_redraw_requester<L: FnMut(FrameInfo), O: FnOnce(FrameInfo), R: Fn()>(
    state: &mut NativeFrameState<L, O, R>,
    request_redraw: R,
) -> (g: HostRedrawGuard)
    requires
        old(state).wf(),
        call_requires(request_redraw, ()),
    ensures
        final(state).wf(),
        final(state)@ == old(state)@.with_requester(),
        final(state).requester_value() == Some(request_redraw),
        old(state)@.pending() ==> call_ensures(request_redraw, (), ()),
        final(state).loop_callbacks() == old(state).loop_callbacks(),
        final(state).one_shot_callbacks() == old(state).one_shot_callbacks(),
        final(state).clock() == old(state).clock(),
{
    set_host_redraw_requester(state, request_redraw)
}

/// Serves one hosted frame; called on each host redraw.
pub fn step_hosted_frame<L: FnMut(FrameInfo), O: FnOnce(FrameInfo), R: Fn()>(
    state: &mut NativeFrameState<L, O, R>,
) -> (dt: Duration)
    requires
        old(state).wf(),
        old(state).lent_loop() is None,
        old(state)@.now + hosted_headroom(old(state)@.timed) <= max_duration_nanos(),
    ensures
        final(state).wf(),
        final(state)@ == old(state)@.hosted_step(duration_nanos(dt)),
        final(state).same_run(*old(state)),
        !old(state)@.timed ==> duration_nanos(dt) == 16 * NANOS_PER_MILLI,
        old(state)@.timed ==> NANOS_PER_MILLI <= duration_nanos(dt) <= 100 * NANOS_PER_MILLI,
        old(state)@.timed && final(state)@.timed ==> duration_nanos(dt) == hosted_delta(
            Some(
                instant_gap(
                    final(state).last_frame_instant()->0,
                    old(state).last_frame_instant()->0,
                ),
            ),
        ),
        old(state)@.timed ==> exists|i: Instant|
            duration_nanos(dt) == hosted_delta(
                Some(#[trigger] instant_gap(i, old(state).last_frame_instant()->0)),
            ),
        forall|j: int|
            0 <= j < old(state).one_shot_callbacks().len() ==> call_ensures(
                #[trigger] old(state).one_shot_callbacks()[j],
                (frame_info(final(state).clock(), dt),),
                (),
            ),
        forall|j: int|
            0 <= j < old(state).loop_callbacks().len() ==> call_ensures(
                #[trigger] old(state).loop_callbacks()[j],
                (frame_info(final(state).clock(), dt),),
                (),
            ),
        final(state).loop_callbacks() == old(state).loop_callbacks(),
        final(state).one_shot_callbacks().len() == 0,
        final(state).requester_value() == old(state).requester_value(),
        final(state)@.pending() && final(state)@.requester ==> call_ensures(
            old(state).requester_value()->0,
            (),
            (),
        ),
{
    crate::frame::native::step_hosted_frame(state)
}

} // verus!

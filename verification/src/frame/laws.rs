//! Properties of the frame registry that span its operations, stated over
//! the model that the operations' contracts use.

use crate::time::NANOS_PER_MILLI;
use vstd::prelude::*;

use super::model::{
    dispatches, hosted_delta, lemma_filter_absent, lemma_remove_is_filter, other_than,
    FrameDispatch, FrameModel,
};

verus! {

/// The invocations that a transition from `before` to `after` made.
pub open spec fn served_between(before: FrameModel, after: FrameModel) -> Seq<FrameDispatch> {
    after.log.skip(before.log.len() as int)
}

/// Whether `id` occurs among the invocations of `log` exactly once, with the
/// timing values `now` and `delta`.
pub open spec fn served_once(log: Seq<FrameDispatch>, id: u64, now: nat, delta: nat) -> bool {
    &&& exists|k: int| 0 <= k < log.len() && log[k] == FrameDispatch { id, now, delta }
    &&& forall|k: int, j: int|
        0 <= k < log.len() && 0 <= j < log.len() && log[k].id == id && log[j].id == id ==> k == j
}

/// Whether `id` does not occur among the invocations of `log`.
pub open spec fn never_served(log: Seq<FrameDispatch>, id: u64) -> bool {
    forall|k: int| 0 <= k < log.len() ==> log[k].id != id
}

proof fn lemma_ticked_log(m: FrameModel, dt: nat)
    ensures
        served_between(m, m.ticked(dt)) == dispatches(m.one_shots, m.now + dt, dt) + dispatches(
            m.loops,
            m.now + dt,
            dt,
        ),
{
    let t = m.ticked(dt);
    assert(served_between(m, t) =~= dispatches(m.one_shots, m.now + dt, dt) + dispatches(
        m.loops,
        m.now + dt,
        dt,
    ));
}

/// One frame serves every pending single-frame request and every active
/// frame loop exactly once, each with the advanced clock and the frame's
/// delta, and serves nothing else; afterwards no single-frame request is
/// pending and the active loops are unchanged.
pub proof fn law_frame_serves_each_registration_once(m: FrameModel, dt: nat)
    requires
        m.ids_valid(),
    ensures
        forall|id: u64|
            m.one_shots.contains(id) || m.loops.contains(id) ==> served_once(
                served_between(m, m.ticked(dt)),
                id,
                m.now + dt,
                dt,
            ),
        forall|k: int|
            0 <= k < served_between(m, m.ticked(dt)).len() ==> {
                let id = #[trigger] served_between(m, m.ticked(dt))[k].id;
                m.one_shots.contains(id) || m.loops.contains(id)
            },
        m.ticked(dt).one_shots.len() == 0,
        m.ticked(dt).loops == m.loops,
        m.ticked(dt).ids_valid(),
{
    lemma_ticked_log(m, dt);
    let new = served_between(m, m.ticked(dt));
    let a = dispatches(m.one_shots, m.now + dt, dt);
    let b = dispatches(m.loops, m.now + dt, dt);
    let na = m.one_shots.len() as int;
    assert forall|id: u64| m.one_shots.contains(id) || m.loops.contains(id) implies served_once(
        new,
        id,
        m.now + dt,
        dt,
    ) by {
        if m.one_shots.contains(id) {
            let i = choose|i: int| 0 <= i < m.one_shots.len() && m.one_shots[i] == id;
            assert(new[i] == FrameDispatch { id, now: m.now + dt, delta: dt });
        } else {
            let i = choose|i: int| 0 <= i < m.loops.len() && m.loops[i] == id;
            assert(new[na + i] == FrameDispatch { id, now: m.now + dt, delta: dt });
        }
        assert forall|k: int, j: int|
            0 <= k < new.len() && 0 <= j < new.len() && new[k].id == id && new[j].id
                == id implies k == j by {
            if k < na && j < na {
                assert(m.one_shots[k] == m.one_shots[j]);
            } else if k >= na && j >= na {
                assert(m.loops[k - na] == m.loops[j - na]);
            } else if k < na {
                assert(m.one_shots[k] == m.loops[j - na]);
            } else {
                assert(m.loops[k - na] == m.one_shots[j]);
            }
        }
    }
    assert forall|k: int| 0 <= k < new.len() implies {
        let id = #[trigger] new[k].id;
        m.one_shots.contains(id) || m.loops.contains(id)
    } by {
        if k < na {
            assert(m.one_shots[k] == new[k].id);
        } else {
            assert(m.loops[k - na] == new[k].id);
        }
    }
}

/// A single-frame request is served by the first frame after it was made
/// and by no later frame.
pub proof fn law_one_shot_served_by_next_frame_only(m: FrameModel, first: nat, second: nat)
    requires
        m.ids_valid(),
        m.next_id < u64::MAX,
    ensures
        served_once(
            served_between(m.with_one_shot(), m.with_one_shot().ticked(first)),
            m.next_id,
            m.now + first,
            first,
        ),
        never_served(
            served_between(
                m.with_one_shot().ticked(first),
                m.with_one_shot().ticked(first).ticked(second),
            ),
            m.next_id,
        ),
{
    let id = m.next_id;
    let m1 = m.with_one_shot();
    assert(m1.ids_valid());
    assert(m1.one_shots[m1.one_shots.len() - 1] == id);
    assert(m1.one_shots.contains(id));
    law_frame_serves_each_registration_once(m1, first);
    let m2 = m1.ticked(first);
    law_frame_serves_each_registration_once(m2, second);
    assert forall|k: int| 0 <= k < served_between(m2, m2.ticked(second)).len() implies served_between(
        m2,
        m2.ticked(second),
    )[k].id != id by {
        let x = served_between(m2, m2.ticked(second))[k].id;
        if x == id {
            let i = choose|i: int| 0 <= i < m2.loops.len() && m2.loops[i] == x;
            assert(m.loops[i] < m.next_id);
        }
    }
}

/// A frame loop is served by every frame while it stays registered.
pub proof fn law_loop_served_every_frame(m: FrameModel, first: nat, second: nat)
    requires
        m.ids_valid(),
        m.next_id < u64::MAX,
    ensures
        served_once(
            served_between(m.with_loop(), m.with_loop().ticked(first)),
            m.next_id,
            m.now + first,
            first,
        ),
        served_once(
            served_between(m.with_loop().ticked(first), m.with_loop().ticked(first).ticked(second)),
            m.next_id,
            m.now + first + second,
            second,
        ),
{
    let m1 = m.with_loop();
    assert(m1.ids_valid());
    assert(m1.loops[m1.loops.len() - 1] == m.next_id);
    assert(m1.loops.contains(m.next_id));
    law_frame_serves_each_registration_once(m1, first);
    let m2 = m1.ticked(first);
    assert(m2.loops.contains(m.next_id));
    law_frame_serves_each_registration_once(m2, second);
}

/// A cancelled frame loop is not served by the next frame.
pub proof fn law_cancelled_loop_not_served(m: FrameModel, id: u64, dt: nat)
    requires
        m.ids_valid(),
        m.loops.contains(id),
    ensures
        m.without_loop(id).ids_valid(),
        never_served(served_between(m.without_loop(id), m.without_loop(id).ticked(dt)), id),
{
    let c = m.without_loop(id);
    let k = choose|k: int| 0 <= k < m.loops.len() && m.loops[k] == id;
    lemma_remove_is_filter(m.loops, k);
    assert(c.loops == m.loops.remove(k));
    assert(c.ids_valid());
    law_frame_serves_each_registration_once(c, dt);
    assert forall|x: int| 0 <= x < served_between(c, c.ticked(dt)).len() implies served_between(
        c,
        c.ticked(dt),
    )[x].id != id by {
        let y = served_between(c, c.ticked(dt))[x].id;
        if y == id {
            if c.loops.contains(y) {
                let i = choose|i: int| 0 <= i < c.loops.len() && c.loops[i] == y;
                if i < k {
                    assert(m.loops[i] == y);
                } else {
                    assert(m.loops[i + 1] == y);
                }
            } else {
                let i = choose|i: int| 0 <= i < m.one_shots.len() && m.one_shots[i] == y;
                assert(m.loops[k] != m.one_shots[i]);
            }
        }
    }
}

/// A withdrawn single-frame request is not served by the next frame.
pub proof fn law_cancelled_one_shot_not_served(m: FrameModel, id: u64, dt: nat)
    requires
        m.ids_valid(),
        m.one_shots.contains(id),
    ensures
        m.without_one_shot(id).ids_valid(),
        never_served(
            served_between(m.without_one_shot(id), m.without_one_shot(id).ticked(dt)),
            id,
        ),
{
    let c = m.without_one_shot(id);
    let k = choose|k: int| 0 <= k < m.one_shots.len() && m.one_shots[k] == id;
    lemma_remove_is_filter(m.one_shots, k);
    assert(c.one_shots == m.one_shots.remove(k));
    assert(c.ids_valid());
    law_frame_serves_each_registration_once(c, dt);
    assert forall|x: int| 0 <= x < served_between(c, c.ticked(dt)).len() implies served_between(
        c,
        c.ticked(dt),
    )[x].id != id by {
        let y = served_between(c, c.ticked(dt))[x].id;
        if y == id {
            if c.one_shots.contains(y) {
                let i = choose|i: int| 0 <= i < c.one_shots.len() && c.one_shots[i] == y;
                if i < k {
                    assert(m.one_shots[i] == y);
                } else {
                    assert(m.one_shots[i + 1] == y);
                }
            } else {
                let i = choose|i: int| 0 <= i < m.loops.len() && m.loops[i] == y;
                assert(m.loops[i] != m.one_shots[k]);
            }
        }
    }
}

/// Every operation keeps ids valid: ids grow strictly, each is handed out
/// once, and a new registration's id is held by no earlier registration.
pub proof fn law_operations_keep_ids_valid(m: FrameModel, id: u64, dt: nat)
    requires
        m.ids_valid(),
        m.next_id < u64::MAX,
    ensures
        !m.loops.contains(m.next_id) && !m.one_shots.contains(m.next_id),
        m.with_loop().ids_valid(),
        m.with_one_shot().ids_valid(),
        m.ticked(dt).ids_valid(),
        m.hosted_step(dt).ids_valid(),
        m.with_requester().ids_valid(),
        m.without_requester().ids_valid(),
        m.loops.contains(id) ==> m.without_loop(id).ids_valid(),
        m.one_shots.contains(id) ==> m.without_one_shot(id).ids_valid(),
{
    if m.loops.contains(id) {
        law_cancelled_loop_not_served(m, id, dt);
    }
    if m.one_shots.contains(id) {
        law_cancelled_one_shot_not_served(m, id, dt);
    }
}

/// The clock is monotonic: a frame of length `dt`, manual or hosted,
/// advances it by exactly `dt`, and no other operation moves it.
pub proof fn law_clock_advances_by_frame_delta(m: FrameModel, id: u64, dt: nat)
    requires
        m.next_id < u64::MAX,
    ensures
        m.ticked(dt).now == m.now + dt,
        m.hosted_step(dt).now == m.now + dt,
        m.with_loop().now == m.now,
        m.with_one_shot().now == m.now,
        m.without_loop(id).now == m.now,
        m.without_one_shot(id).now == m.now,
        m.with_requester().now == m.now,
        m.without_requester().now == m.now,
{
}

/// The delta of a hosted frame is 16 ms for the first frame and always lies
/// between 1 ms and 100 ms.
pub proof fn law_hosted_delta_bounded(elapsed: Option<nat>)
    ensures
        elapsed is None ==> hosted_delta(elapsed) == 16 * NANOS_PER_MILLI,
        NANOS_PER_MILLI <= hosted_delta(elapsed) <= 100 * NANOS_PER_MILLI,
        forall|e: nat|
            NANOS_PER_MILLI <= e <= 100 * NANOS_PER_MILLI ==> #[trigger] hosted_delta(Some(e)) == e,
{
}

/// A hosted frame's delta is the measured gap clamped to the range from
/// 1 ms to 100 ms: a longer stall gives exactly 100 ms, a shorter gap
/// exactly 1 ms, and a gap in range itself. A longer gap never gives a
/// shorter delta, and clamping a delta again changes nothing.
pub proof fn law_hosted_delta_clamps_gap(e: nat, f: nat)
    ensures
        e > 100 * NANOS_PER_MILLI ==> hosted_delta(Some(e)) == 100 * NANOS_PER_MILLI,
        e < NANOS_PER_MILLI ==> hosted_delta(Some(e)) == NANOS_PER_MILLI,
        NANOS_PER_MILLI <= e <= 100 * NANOS_PER_MILLI ==> hosted_delta(Some(e)) == e,
        e <= f ==> hosted_delta(Some(e)) <= hosted_delta(Some(f)),
        hosted_delta(Some(hosted_delta(Some(e)))) == hosted_delta(Some(e)),
{
}

/// With no frame loop active, a hosted frame leaves the registry idle: no
/// frame is pending, no redraw is requested and the hosted clock stops.
pub proof fn law_idle_after_last_frame(m: FrameModel, dt: nat)
    requires
        m.loops.len() == 0,
    ensures
        !m.hosted_step(dt).pending(),
        m.hosted_step(dt).redraws == m.redraws,
        !m.hosted_step(dt).timed,
{
}

/// While a frame loop is active, each hosted frame asks the registered host
/// requester for the next redraw, and the hosted clock keeps running.
pub proof fn law_active_loop_schedules_next_redraw(m: FrameModel, dt: nat)
    requires
        m.loops.len() > 0,
    ensures
        m.hosted_step(dt).pending(),
        m.hosted_step(dt).timed,
        m.hosted_step(dt).redraws == m.redraws + if m.requester {
            1nat
        } else {
            0nat
        },
{
}

/// A registration asks the host for a redraw exactly when a requester is
/// registered, and registering a requester asks for one exactly when frames
/// are pending.
pub proof fn law_redraw_requested_on_demand(m: FrameModel)
    requires
        m.next_id < u64::MAX,
    ensures
        m.with_loop().redraws == m.redraws + if m.requester {
            1nat
        } else {
            0nat
        },
        m.with_one_shot().redraws == m.redraws + if m.requester {
            1nat
        } else {
            0nat
        },
        m.with_requester().redraws == m.redraws + if m.pending() {
            1nat
        } else {
            0nat
        },
{
}

/// Once the host requester is released, no operation asks for a redraw
/// until a requester is registered again.
pub proof fn law_released_requester_never_asked(m: FrameModel, id: u64, dt: nat)
    requires
        m.next_id < u64::MAX,
    ensures
        !m.without_requester().requester,
        m.without_requester().with_loop().redraws == m.redraws,
        m.without_requester().with_one_shot().redraws == m.redraws,
        m.without_requester().ticked(dt).redraws == m.redraws,
        m.without_requester().hosted_step(dt).redraws == m.redraws,
        m.without_requester().without_loop(id).redraws == m.redraws,
        m.without_requester().without_one_shot(id).redraws == m.redraws,
{
}

/// An operation on the registry, taken by its effect on the model.
pub enum FrameOp {
    StartLoop,
    RequestFrame,
    CancelLoop(u64),
    CancelRequest(u64),
    Tick(nat),
    HostedStep(nat),
    SetRequester,
    ReleaseRequester,
}

/// The model after one operation.
pub open spec fn apply_op(m: FrameModel, op: FrameOp) -> FrameModel {
    match op {
        FrameOp::StartLoop => m.with_loop(),
        FrameOp::RequestFrame => m.with_one_shot(),
        FrameOp::CancelLoop(id) => m.without_loop(id),
        FrameOp::CancelRequest(id) => m.without_one_shot(id),
        FrameOp::Tick(dt) => m.ticked(dt),
        FrameOp::HostedStep(dt) => m.hosted_step(dt),
        FrameOp::SetRequester => m.with_requester(),
        FrameOp::ReleaseRequester => m.without_requester(),
    }
}

/// The model after a sequence of operations, first to last.
pub open spec fn apply_ops(m: FrameModel, ops: Seq<FrameOp>) -> FrameModel
    decreases ops.len(),
{
    if ops.len() == 0 {
        m
    } else {
        apply_ops(apply_op(m, ops[0]), ops.drop_first())
    }
}

/// Whether `after`'s log extends `before`'s with no invocation for `id`.
pub open spec fn log_extends_without(before: FrameModel, after: FrameModel, id: u64) -> bool {
    &&& before.log.len() <= after.log.len()
    &&& after.log.subrange(0, before.log.len() as int) == before.log
    &&& forall|k: int| before.log.len() <= k < after.log.len() ==> (#[trigger] after.log[k]).id != id
}

/// Whether `id` was handed out and is no longer registered.
pub open spec fn retired(m: FrameModel, id: u64) -> bool {
    &&& m.ids_valid()
    &&& id < m.next_id
    &&& !m.loops.contains(id)
    &&& !m.one_shots.contains(id)
}

proof fn lemma_cancel_keeps_ids_valid(m: FrameModel, x: u64)
    requires
        m.ids_valid(),
    ensures
        m.without_loop(x).ids_valid(),
        m.without_one_shot(x).ids_valid(),
{
    if m.loops.contains(x) {
        law_cancelled_loop_not_served(m, x, 0);
    } else {
        assert forall|i: int| 0 <= i < m.loops.len() implies m.loops[i] != x by {}
        lemma_filter_absent(m.loops, x);
    }
    if m.one_shots.contains(x) {
        law_cancelled_one_shot_not_served(m, x, 0);
    } else {
        assert forall|i: int| 0 <= i < m.one_shots.len() implies m.one_shots[i] != x by {}
        lemma_filter_absent(m.one_shots, x);
    }
}

/// One operation keeps a retired id retired and serves nothing for it.
proof fn lemma_retired_step(m: FrameModel, op: FrameOp, id: u64)
    requires
        retired(m, id),
        m.next_id < u64::MAX,
    ensures
        retired(apply_op(m, op), id),
        apply_op(m, op).next_id <= m.next_id + 1,
        log_extends_without(m, apply_op(m, op), id),
{
    let n = apply_op(m, op);
    lemma_cancel_keeps_ids_valid(m, 0);
    law_operations_keep_ids_valid(m, id, 0);
    match op {
        FrameOp::CancelLoop(x) => {
            lemma_cancel_keeps_ids_valid(m, x);
            if n.loops.contains(id) {
                m.loops.lemma_filter_contains_rev(other_than(x), id);
            }
            assert(n.log =~= m.log);
            assert(n.log.subrange(0, m.log.len() as int) =~= m.log);
        },
        FrameOp::CancelRequest(x) => {
            lemma_cancel_keeps_ids_valid(m, x);
            if n.one_shots.contains(id) {
                m.one_shots.lemma_filter_contains_rev(other_than(x), id);
            }
            assert(n.log =~= m.log);
            assert(n.log.subrange(0, m.log.len() as int) =~= m.log);
        },
        FrameOp::Tick(dt) => {
            law_frame_serves_each_registration_once(m, dt);
            lemma_ticked_log(m, dt);
            assert(n.log.subrange(0, m.log.len() as int) =~= m.log);
            assert forall|k: int| m.log.len() <= k < n.log.len() implies (#[trigger] n.log[k]).id != id by {
                assert(served_between(m, n)[k - m.log.len()] == n.log[k]);
            }
        },
        FrameOp::HostedStep(dt) => {
            let t = FrameModel { timed: true, ..m };
            law_frame_serves_each_registration_once(t, dt);
            lemma_ticked_log(t, dt);
            law_operations_keep_ids_valid(t, id, dt);
            assert(n.log.subrange(0, m.log.len() as int) =~= m.log);
            assert forall|k: int| m.log.len() <= k < n.log.len() implies (#[trigger] n.log[k]).id != id by {
                assert(served_between(t, t.ticked(dt))[k - m.log.len()] == n.log[k]);
            }
        },
        FrameOp::StartLoop => {
            assert(!n.loops.contains(id)) by {
                if n.loops.contains(id) {
                    let i = choose|i: int| 0 <= i < n.loops.len() && n.loops[i] == id;
                    if i < m.loops.len() {
                        assert(m.loops[i] == id);
                    }
                }
            }
            assert(n.log =~= m.log);
            assert(n.log.subrange(0, m.log.len() as int) =~= m.log);
        },
        FrameOp::RequestFrame => {
            assert(!n.one_shots.contains(id)) by {
                if n.one_shots.contains(id) {
                    let i = choose|i: int| 0 <= i < n.one_shots.len() && n.one_shots[i] == id;
                    if i < m.one_shots.len() {
                        assert(m.one_shots[i] == id);
                    }
                }
            }
            assert(n.log =~= m.log);
            assert(n.log.subrange(0, m.log.len() as int) =~= m.log);
        },
        _ => {
            assert(n.log =~= m.log);
            assert(n.log.subrange(0, m.log.len() as int) =~= m.log);
        },
    }
}

/// An id that was handed out and is no longer registered (its loop was
/// cancelled, or its request served or withdrawn) is never served again,
/// whatever operations follow; the log only grows.
pub proof fn law_retired_never_served(m: FrameModel, ops: Seq<FrameOp>, id: u64)
    requires
        retired(m, id),
        m.next_id + ops.len() < u64::MAX,
    ensures
        retired(apply_ops(m, ops), id),
        apply_ops(m, ops).next_id <= m.next_id + ops.len(),
        log_extends_without(m, apply_ops(m, ops), id),
    decreases ops.len(),
{
    if ops.len() > 0 {
        let m1 = apply_op(m, ops[0]);
        lemma_retired_step(m, ops[0], id);
        law_retired_never_served(m1, ops.drop_first(), id);
        let f = apply_ops(m, ops);
        assert(f == apply_ops(m1, ops.drop_first()));
        assert(f.log.subrange(0, m.log.len() as int) =~= f.log.subrange(0, m1.log.len() as int).subrange(0, m.log.len() as int));
        assert forall|k: int| m.log.len() <= k < f.log.len() implies (#[trigger] f.log[k]).id != id by {
            if k < m1.log.len() {
                assert(f.log.subrange(0, m1.log.len() as int)[k] == f.log[k]);
            }
        }
    } else {
        assert(m.log.subrange(0, m.log.len() as int) =~= m.log);
    }
}

/// A cancelled frame loop is never served again, whatever operations
/// follow.
pub proof fn law_cancelled_loop_never_served(m: FrameModel, id: u64, ops: Seq<FrameOp>)
    requires
        m.ids_valid(),
        m.loops.contains(id),
        m.next_id + ops.len() < u64::MAX,
    ensures
        log_extends_without(m.without_loop(id), apply_ops(m.without_loop(id), ops), id),
{
    let c = m.without_loop(id);
    law_cancelled_loop_not_served(m, id, 0);
    let k = choose|k: int| 0 <= k < m.loops.len() && m.loops[k] == id;
    assert(id < m.next_id);
    assert(!m.one_shots.contains(id)) by {
        if m.one_shots.contains(id) {
            let j = choose|j: int| 0 <= j < m.one_shots.len() && m.one_shots[j] == id;
            assert(m.loops[k] != m.one_shots[j]);
        }
    }
    assert(!c.loops.contains(id)) by {
        if c.loops.contains(id) {
            m.loops.lemma_filter_contains_rev(other_than(id), id);
            broadcast use vstd::seq_lib::group_filter_ensures;
            let i = choose|i: int| 0 <= i < c.loops.len() && c.loops[i] == id;
        }
    }
    law_retired_never_served(c, ops, id);
}

/// A withdrawn single-frame request is never served, whatever operations
/// follow.
pub proof fn law_cancelled_one_shot_never_served(m: FrameModel, id: u64, ops: Seq<FrameOp>)
    requires
        m.ids_valid(),
        m.one_shots.contains(id),
        m.next_id + ops.len() < u64::MAX,
    ensures
        log_extends_without(m.without_one_shot(id), apply_ops(m.without_one_shot(id), ops), id),
{
    let c = m.without_one_shot(id);
    law_cancelled_one_shot_not_served(m, id, 0);
    let k = choose|k: int| 0 <= k < m.one_shots.len() && m.one_shots[k] == id;
    assert(id < m.next_id);
    assert(!m.loops.contains(id)) by {
        if m.loops.contains(id) {
            let j = choose|j: int| 0 <= j < m.loops.len() && m.loops[j] == id;
            assert(m.loops[j] != m.one_shots[k]);
        }
    }
    assert(!c.one_shots.contains(id)) by {
        if c.one_shots.contains(id) {
            broadcast use vstd::seq_lib::group_filter_ensures;
            let i = choose|i: int| 0 <= i < c.one_shots.len() && c.one_shots[i] == id;
        }
    }
    law_retired_never_served(c, ops, id);
}

/// Whether `after`'s log extends `before`'s with at most one invocation for
/// `id`.
pub open spec fn log_extends_at_most_once(before: FrameModel, after: FrameModel, id: u64) -> bool {
    &&& before.log.len() <= after.log.len()
    &&& after.log.subrange(0, before.log.len() as int) == before.log
    &&& forall|k1: int, k2: int|
        before.log.len() <= k1 < after.log.len() && before.log.len() <= k2 < after.log.len()
            && (#[trigger] after.log[k1]).id == id && (#[trigger] after.log[k2]).id == id ==> k1
            == k2
}

proof fn lemma_not_a_loop(m: FrameModel, id: u64)
    requires
        m.ids_valid(),
        m.one_shots.contains(id),
    ensures
        !m.loops.contains(id),
        id < m.next_id,
{
    let k = choose|k: int| 0 <= k < m.one_shots.len() && m.one_shots[k] == id;
    if m.loops.contains(id) {
        let j = choose|j: int| 0 <= j < m.loops.len() && m.loops[j] == id;
        assert(m.loops[j] != m.one_shots[k]);
    }
}

/// A single-frame request is served at most once, whatever operations
/// follow its registration.
pub proof fn law_one_shot_served_at_most_once(m: FrameModel, id: u64, ops: Seq<FrameOp>)
    requires
        m.ids_valid(),
        m.one_shots.contains(id),
        m.next_id + ops.len() < u64::MAX,
    ensures
        log_extends_at_most_once(m, apply_ops(m, ops), id),
    decreases ops.len(),
{
    let f = apply_ops(m, ops);
    lemma_not_a_loop(m, id);
    if ops.len() == 0 {
        assert(m.log.subrange(0, m.log.len() as int) =~= m.log);
        return;
    }
    let op = ops[0];
    let rest = ops.drop_first();
    let n = apply_op(m, op);
    assert(f == apply_ops(n, rest));
    law_operations_keep_ids_valid(m, id, 0);
    lemma_cancel_keeps_ids_valid(m, 0);
    let served_now = match op {
        FrameOp::Tick(_) => true,
        FrameOp::HostedStep(_) => true,
        FrameOp::CancelRequest(x) => x == id,
        _ => false,
    };
    if served_now {
        // After this step the id is retired; at most the step itself serves it.
        let base = match op {
            FrameOp::HostedStep(_) => FrameModel { timed: true, ..m },
            _ => m,
        };
        match op {
            FrameOp::Tick(dt) => {
                law_frame_serves_each_registration_once(m, dt);
                lemma_ticked_log(m, dt);
            },
            FrameOp::HostedStep(dt) => {
                law_frame_serves_each_registration_once(base, dt);
                lemma_ticked_log(base, dt);
                law_operations_keep_ids_valid(m, id, dt);
            },
            FrameOp::CancelRequest(x) => {
                lemma_cancel_keeps_ids_valid(m, x);
                assert(!n.one_shots.contains(id)) by {
                    if n.one_shots.contains(id) {
                        broadcast use vstd::seq_lib::group_filter_ensures;
                        let i = choose|i: int| 0 <= i < n.one_shots.len() && n.one_shots[i] == id;
                    }
                }
                assert(n.log =~= m.log);
            },
            _ => {},
        }
        assert(retired(n, id));
        law_retired_never_served(n, rest, id);
        assert(n.log.subrange(0, m.log.len() as int) =~= m.log);
        assert(f.log.subrange(0, m.log.len() as int) =~= f.log.subrange(0, n.log.len() as int).subrange(
            0,
            m.log.len() as int,
        ));
        assert forall|k1: int, k2: int|
            m.log.len() <= k1 < f.log.len() && m.log.len() <= k2 < f.log.len()
                && (#[trigger] f.log[k1]).id == id && (#[trigger] f.log[k2]).id == id implies k1
                == k2 by {
            assert(k1 < n.log.len());
            assert(k2 < n.log.len());
            assert(f.log.subrange(0, n.log.len() as int)[k1] == f.log[k1]);
            assert(f.log.subrange(0, n.log.len() as int)[k2] == f.log[k2]);
            assert(served_between(base, n)[k1 - m.log.len()] == n.log[k1]);
            assert(served_between(base, n)[k2 - m.log.len()] == n.log[k2]);
        }
    } else {
        match op {
            FrameOp::CancelRequest(x) => {
                lemma_cancel_keeps_ids_valid(m, x);
                let k = choose|k: int| 0 <= k < m.one_shots.len() && m.one_shots[k] == id;
                m.one_shots.lemma_filter_contains(other_than(x), k);
            },
            FrameOp::CancelLoop(x) => {
                lemma_cancel_keeps_ids_valid(m, x);
            },
            FrameOp::RequestFrame => {
                let k = choose|k: int| 0 <= k < m.one_shots.len() && m.one_shots[k] == id;
                assert(n.one_shots[k] == id);
            },
            _ => {},
        }
        assert(n.one_shots.contains(id));
        assert(n.log =~= m.log);
        law_one_shot_served_at_most_once(n, id, rest);
    }
}

/// Whether no operation of `ops` registers a host redraw requester.
pub open spec fn registers_no_requester(ops: Seq<FrameOp>) -> bool {
    forall|k: int| 0 <= k < ops.len() ==> !(#[trigger] ops[k] is SetRequester)
}

/// Once the host requester is released, it is never asked for a redraw
/// again, whatever operations follow, until a requester is registered
/// again.
pub proof fn law_released_requester_never_asked_again(m: FrameModel, ops: Seq<FrameOp>)
    requires
        registers_no_requester(ops),
    ensures
        apply_ops(m.without_requester(), ops).redraws == m.redraws,
        !apply_ops(m.without_requester(), ops).requester,
    decreases ops.len(),
{
    lemma_no_requester_no_redraws(m.without_requester(), ops);
}

proof fn lemma_no_requester_no_redraws(m: FrameModel, ops: Seq<FrameOp>)
    requires
        !m.requester,
        registers_no_requester(ops),
    ensures
        apply_ops(m, ops).redraws == m.redraws,
        !apply_ops(m, ops).requester,
    decreases ops.len(),
{
    if ops.len() > 0 {
        let m1 = apply_op(m, ops[0]);
        assert(!(ops[0] is SetRequester));
        assert(!m1.requester && m1.redraws == m.redraws);
        assert forall|k: int| 0 <= k < ops.drop_first().len() implies !(#[trigger] ops.drop_first()[k] is SetRequester) by {
            assert(ops.drop_first()[k] == ops[k + 1]);
        }
        lemma_no_requester_no_redraws(m1, ops.drop_first());
    }
}

/// A frame served step by step leaves the registry as a frame served at
/// once by `tick` does (the same clock, registrations, ids, requester and
/// hosted clock); they differ only in that `tick` records its invocations.
/// The same holds of a hosted frame served step by step and a hosted step.
pub proof fn law_stepwise_frame_matches_whole_frame(m: FrameModel, dt: nat)
    ensures
        (FrameModel { log: m.ticked(dt).log, ..m.frame_started(dt) }) == m.ticked(dt),
        (FrameModel { log: m.hosted_step(dt).log, ..m.hosted_frame_started(dt).after_hosted_frame() })
            == m.hosted_step(dt),
{
}

/// Where a registration stands.
pub enum Standing {
    /// Its id has not been handed out yet.
    Unissued,
    /// A frame loop, started and not cancelled.
    Running,
    /// A single-frame request, made and neither withdrawn nor served.
    Waiting,
    /// Cancelled, withdrawn or served.
    Over,
}

/// Where registration `id` stands in the registry `m`.
pub open spec fn standing(m: FrameModel, id: u64) -> Standing {
    if m.loops.contains(id) {
        Standing::Running
    } else if m.one_shots.contains(id) {
        Standing::Waiting
    } else if id < m.next_id {
        Standing::Over
    } else {
        Standing::Unissued
    }
}

/// Whether an operation makes a registration.
pub open spec fn is_registration(op: FrameOp) -> bool {
    op is StartLoop || op is RequestFrame
}

/// Where registration `id` stands after `op`, told from where it stood
/// before, the id the next registration receives, and what the operation
/// does: a registration under `id` starts it; cancelling a running loop or
/// withdrawing a waiting request ends it; a frame serves, and so ends, a
/// waiting request; nothing else changes it.
pub open spec fn standing_after(st: Standing, next: int, op: FrameOp, id: u64) -> Standing {
    match op {
        FrameOp::StartLoop => if id == next {
            Standing::Running
        } else {
            st
        },
        FrameOp::RequestFrame => if id == next {
            Standing::Waiting
        } else {
            st
        },
        FrameOp::CancelLoop(x) => if x == id && st is Running {
            Standing::Over
        } else {
            st
        },
        FrameOp::CancelRequest(x) => if x == id && st is Waiting {
            Standing::Over
        } else {
            st
        },
        FrameOp::Tick(_) => if st is Waiting {
            Standing::Over
        } else {
            st
        },
        FrameOp::HostedStep(_) => if st is Waiting {
            Standing::Over
        } else {
            st
        },
        _ => st,
    }
}

/// Where registration `id` stands after the operations `ops`, from where it
/// stood before them and the id that the first registration among them
/// receives; each registration hands out the next id.
pub open spec fn standing_through(st: Standing, next: int, ops: Seq<FrameOp>, id: u64) -> Standing
    decreases ops.len(),
{
    if ops.len() == 0 {
        st
    } else {
        standing_through(
            standing_after(st, next, ops[0], id),
            if is_registration(ops[0]) {
                next + 1
            } else {
                next
            },
            ops.drop_first(),
            id,
        )
    }
}

proof fn lemma_standing_step(m: FrameModel, op: FrameOp, id: u64)
    requires
        m.ids_valid(),
        m.next_id < u64::MAX,
    ensures
        standing(apply_op(m, op), id) == standing_after(standing(m, id), m.next_id as int, op, id),
        apply_op(m, op).ids_valid(),
        apply_op(m, op).next_id == if is_registration(op) {
            m.next_id + 1
        } else {
            m.next_id as int
        },
{
    let n = apply_op(m, op);
    law_operations_keep_ids_valid(m, id, 0);
    match op {
        FrameOp::StartLoop => {
            assert(n.loops[m.loops.len() as int] == m.next_id);
            if id != m.next_id && n.loops.contains(id) {
                let i = choose|i: int| 0 <= i < n.loops.len() && n.loops[i] == id;
                assert(m.loops[i] == id);
            }
            if m.loops.contains(id) {
                let i = choose|i: int| 0 <= i < m.loops.len() && m.loops[i] == id;
                assert(n.loops[i] == id);
            }
        },
        FrameOp::RequestFrame => {
            assert(n.one_shots[m.one_shots.len() as int] == m.next_id);
            if id != m.next_id && n.one_shots.contains(id) {
                let i = choose|i: int| 0 <= i < n.one_shots.len() && n.one_shots[i] == id;
                assert(m.one_shots[i] == id);
            }
            if m.one_shots.contains(id) {
                let i = choose|i: int| 0 <= i < m.one_shots.len() && m.one_shots[i] == id;
                assert(n.one_shots[i] == id);
            }
        },
        FrameOp::CancelLoop(x) => {
            lemma_cancel_keeps_ids_valid(m, x);
            if n.loops.contains(id) {
                m.loops.lemma_filter_contains_rev(other_than(x), id);
            }
            if m.loops.contains(id) && x != id {
                let i = choose|i: int| 0 <= i < m.loops.len() && m.loops[i] == id;
                m.loops.filter_lemma(other_than(x));
                assert(m.loops.filter(other_than(x)).contains(id));
            }
            if m.loops.contains(id) {
                let i = choose|i: int| 0 <= i < m.loops.len() && m.loops[i] == id;
                assert(!m.one_shots.contains(id)) by {
                    if m.one_shots.contains(id) {
                        let j = choose|j: int| 0 <= j < m.one_shots.len() && m.one_shots[j] == id;
                        assert(m.loops[i] != m.one_shots[j]);
                    }
                }
            }
        },
        FrameOp::CancelRequest(x) => {
            lemma_cancel_keeps_ids_valid(m, x);
            if n.one_shots.contains(id) {
                m.one_shots.lemma_filter_contains_rev(other_than(x), id);
            }
            if m.one_shots.contains(id) && x != id {
                let i = choose|i: int| 0 <= i < m.one_shots.len() && m.one_shots[i] == id;
                m.one_shots.filter_lemma(other_than(x));
                assert(m.one_shots.filter(other_than(x)).contains(id));
            }
        },
        FrameOp::Tick(dt) => {
            law_operations_keep_ids_valid(m, id, dt);
        },
        FrameOp::HostedStep(dt) => {
            law_operations_keep_ids_valid(m, id, dt);
        },
        _ => {},
    }
}

proof fn lemma_standing_through(m: FrameModel, ops: Seq<FrameOp>, id: u64)
    requires
        m.ids_valid(),
        m.next_id + ops.len() < u64::MAX,
    ensures
        standing(apply_ops(m, ops), id) == standing_through(standing(m, id), m.next_id as int, ops, id),
    decreases ops.len(),
{
    if ops.len() > 0 {
        let m1 = apply_op(m, ops[0]);
        lemma_standing_step(m, ops[0], id);
        lemma_standing_through(m1, ops.drop_first(), id);
    }
}

/// Frames are pending exactly when some registration is still on, told
/// from the registry's start and the operations since: a frame loop
/// started and not cancelled, or a single-frame request made and neither
/// withdrawn nor served by a frame since, whatever operations led there.
pub proof fn law_pending_iff_some_registration_on(m: FrameModel, ops: Seq<FrameOp>)
    requires
        m.ids_valid(),
        m.next_id + ops.len() < u64::MAX,
    ensures
        apply_ops(m, ops).pending() <==> exists|id: u64| {
            let st = #[trigger] standing_through(standing(m, id), m.next_id as int, ops, id);
            st is Running || st is Waiting
        },
{
    let f = apply_ops(m, ops);
    if f.pending() {
        let id = if f.loops.len() > 0 {
            f.loops[0]
        } else {
            f.one_shots[0]
        };
        lemma_standing_through(m, ops, id);
        if f.loops.len() > 0 {
            assert(f.loops.contains(id));
        } else {
            assert(f.one_shots.contains(id));
        }
    }
    assert forall|id: u64| {
        let st = #[trigger] standing_through(standing(m, id), m.next_id as int, ops, id);
        st is Running || st is Waiting
    } implies f.pending() by {
        lemma_standing_through(m, ops, id);
    }
}

} // verus!

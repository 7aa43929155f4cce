//! The mathematical model of the native frame registry and of each of its
//! operations.

use crate::time::NANOS_PER_MILLI;
use vstd::prelude::*;

verus! {

/// One callback invocation: the registration it served and the timing
/// values (in nanoseconds) that it was handed.
pub struct FrameDispatch {
    pub id: u64,
    pub now: nat,
    pub delta: nat,
}

/// The state of a frame registry.
pub struct FrameModel {
    /// The monotonic clock, in nanoseconds.
    pub now: nat,
    /// The id that the next registration receives.
    pub next_id: u64,
    /// Ids of the active frame loops, oldest first.
    pub loops: Seq<u64>,
    /// Ids of the pending single-frame requests, oldest first.
    pub one_shots: Seq<u64>,
    /// Whether a host redraw requester is registered.
    pub requester: bool,
    /// Whether the hosted clock holds the time of a previous hosted frame.
    pub timed: bool,
    /// How many times the host redraw requester has been invoked.
    pub redraws: nat,
    /// Every callback invocation that whole frames (`tick`, hosted steps)
    /// have made so far, in order; a frame served step by step hands its
    /// callbacks out instead.
    pub log: Seq<FrameDispatch>,
}

/// The invocations made for `ids`, each handed `now` and `delta`.
pub open spec fn dispatches(ids: Seq<u64>, now: nat, delta: nat) -> Seq<FrameDispatch> {
    ids.map_values(|id: u64| FrameDispatch { id, now, delta })
}

/// Whether the ids of `s` increase strictly.
pub open spec fn strictly_increasing(s: Seq<u64>) -> bool {
    forall|i: int, j: int| 0 <= i < j < s.len() ==> s[i] < s[j]
}

/// The frame delta for a hosted frame: 16 ms for the first frame, otherwise
/// the measured gap clamped to the range from 1 ms to 100 ms.
pub open spec fn hosted_delta(elapsed: Option<nat>) -> nat {
    match elapsed {
        None => (16 * NANOS_PER_MILLI) as nat,
        Some(e) => if e < NANOS_PER_MILLI {
            NANOS_PER_MILLI as nat
        } else if e > 100 * NANOS_PER_MILLI {
            (100 * NANOS_PER_MILLI) as nat
        } else {
            e
        },
    }
}

/// The longest delta that a hosted frame can have: 16 ms when the hosted
/// clock is stopped (the first frame), else the 100 ms clamp.
pub open spec fn hosted_headroom(timed: bool) -> nat {
    if timed {
        (100 * NANOS_PER_MILLI) as nat
    } else {
        (16 * NANOS_PER_MILLI) as nat
    }
}

/// The predicate that holds of every id but `id`.
pub open spec fn other_than(id: u64) -> spec_fn(u64) -> bool {
    |x: u64| x != id
}

/// Filtering out a value that does not occur leaves a sequence unchanged.
pub proof fn lemma_filter_absent(s: Seq<u64>, id: u64)
    requires
        forall|i: int| 0 <= i < s.len() ==> s[i] != id,
    ensures
        s.filter(other_than(id)) == s,
    decreases s.len(),
{
    reveal(Seq::filter);
    if s.len() > 0 {
        lemma_filter_absent(s.drop_last(), id);
        assert(s.drop_last().push(s.last()) =~= s);
    }
}

/// In a strictly increasing sequence, removing the entry at `k` is
/// filtering out its value.
pub proof fn lemma_remove_is_filter(s: Seq<u64>, k: int)
    requires
        strictly_increasing(s),
        0 <= k < s.len(),
    ensures
        s.remove(k) == s.filter(other_than(s[k])),
    decreases s.len(),
{
    reveal(Seq::filter);
    let id = s[k];
    if k == s.len() - 1 {
        lemma_filter_absent(s.drop_last(), id);
        assert(s.remove(k) =~= s.drop_last());
    } else {
        let t = s.drop_last();
        assert(t[k] == id);
        lemma_remove_is_filter(t, k);
        assert(s.remove(k) =~= t.remove(k).push(s.last()));
    }
}

impl FrameModel {
    /// A fresh registry: clock at zero, nothing registered, ids from zero.
    pub open spec fn initial() -> FrameModel {
        FrameModel {
            now: 0,
            next_id: 0,
            loops: Seq::empty(),
            one_shots: Seq::empty(),
            requester: false,
            timed: false,
            redraws: 0,
            log: Seq::empty(),
        }
    }

    /// Ids are handed out in increasing order and never twice.
    pub open spec fn ids_valid(self) -> bool {
        &&& strictly_increasing(self.loops)
        &&& strictly_increasing(self.one_shots)
        &&& forall|i: int| 0 <= i < self.loops.len() ==> self.loops[i] < self.next_id
        &&& forall|i: int| 0 <= i < self.one_shots.len() ==> self.one_shots[i] < self.next_id
        &&& forall|i: int, j: int|
            0 <= i < self.loops.len() && 0 <= j < self.one_shots.len() ==> self.loops[i]
                != self.one_shots[j]
    }

    /// Whether some frame loop is active or some single-frame request waits.
    pub open spec fn pending(self) -> bool {
        self.loops.len() > 0 || self.one_shots.len() > 0
    }

    /// The host is asked for a redraw when a requester is registered and
    /// frames are pending; otherwise nothing happens.
    pub open spec fn notified(self) -> FrameModel {
        FrameModel {
            redraws: if self.requester && self.pending() {
                self.redraws + 1
            } else {
                self.redraws
            },
            ..self
        }
    }

    /// A new frame loop, under the next id, followed by a redraw request.
    pub open spec fn with_loop(self) -> FrameModel {
        FrameModel {
            loops: self.loops.push(self.next_id),
            next_id: (self.next_id + 1) as u64,
            ..self
        }.notified()
    }

    /// A new single-frame request, under the next id, followed by a redraw
    /// request.
    pub open spec fn with_one_shot(self) -> FrameModel {
        FrameModel {
            one_shots: self.one_shots.push(self.next_id),
            next_id: (self.next_id + 1) as u64,
            ..self
        }.notified()
    }

    /// The frame loop `id` is gone.
    pub open spec fn without_loop(self, id: u64) -> FrameModel {
        FrameModel { loops: self.loops.filter(other_than(id)), ..self }
    }

    /// The single-frame request `id` is gone.
    pub open spec fn without_one_shot(self, id: u64) -> FrameModel {
        FrameModel { one_shots: self.one_shots.filter(other_than(id)), ..self }
    }

    /// A host redraw requester is registered: the hosted clock restarts and
    /// a redraw is requested if frames are pending.
    pub open spec fn with_requester(self) -> FrameModel {
        FrameModel { requester: true, timed: false, ..self }.notified()
    }

    /// The host redraw requester is detached and the hosted clock restarts.
    pub open spec fn without_requester(self) -> FrameModel {
        FrameModel { requester: false, timed: false, ..self }
    }

    /// One frame of length `dt`: the clock advances by `dt`, every pending
    /// single-frame request is served once and dropped, then every active
    /// frame loop is served; all are handed the new clock and `dt`.
    pub open spec fn ticked(self, dt: nat) -> FrameModel {
        FrameModel {
            now: self.now + dt,
            one_shots: Seq::empty(),
            log: self.log + dispatches(self.one_shots, self.now + dt, dt) + dispatches(
                self.loops,
                self.now + dt,
                dt,
            ),
            ..self
        }
    }

    /// A frame of length `dt` begins: the clock advances by `dt` and the
    /// pending single-frame requests pass to the frame, which serves them
    /// and the active frame loops step by step.
    pub open spec fn frame_started(self, dt: nat) -> FrameModel {
        FrameModel { now: self.now + dt, one_shots: Seq::empty(), ..self }
    }

    /// A hosted frame of length `dt` begins: the hosted clock runs and the
    /// frame begins as by `frame_started`.
    pub open spec fn hosted_frame_started(self, dt: nat) -> FrameModel {
        FrameModel { timed: true, ..self }.frame_started(dt)
    }

    /// After a hosted frame: the next redraw is requested if frames remain,
    /// else the hosted clock stops.
    pub open spec fn after_hosted_frame(self) -> FrameModel {
        if self.pending() {
            self.notified()
        } else {
            FrameModel { timed: false, ..self }
        }
    }

    /// One hosted frame of length `dt`: the frame is served with the hosted
    /// clock running; then the next redraw is requested if frames remain,
    /// else the hosted clock stops.
    pub open spec fn hosted_step(self, dt: nat) -> FrameModel {
        let served = FrameModel { timed: true, ..self }.ticked(dt);
        if served.pending() {
            served.notified()
        } else {
            FrameModel { timed: false, ..served }
        }
    }
}

} // verus!

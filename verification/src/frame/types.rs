//! Timing values, guard handles and errors of the frame engine.

use std::time::Duration;
use vstd::prelude::*;

verus! {

/// Timing metrics passed to frame callbacks.
#[derive(Clone, Copy, Debug, PartialEq, Eq)]
pub struct FrameInfo {
    /// Monotonic time elapsed since the registry was created.
    pub now: Duration,
    /// Time elapsed since the preceding frame.
    pub delta: Duration,
}

/// The timing values `{ now, delta }`.
pub open spec fn frame_info(now: Duration, delta: Duration) -> FrameInfo {
    FrameInfo { now, delta }
}

/// Errors that scheduling a frame callback may report.
#[derive(Clone, Copy, Debug, PartialEq, Eq, Structural)]
pub enum FrameLoopError {
    /// The host environment does not support frame timing callbacks.
    UnsupportedHost,
    /// The frame runtime is unavailable on the current target.
    RuntimeUnavailable,
}

impl FrameLoopError {
    /// The text that describes the error.
    pub open spec fn message_text(self) -> Seq<char> {
        match self {
            FrameLoopError::UnsupportedHost => "Host environment does not support frame timing"@,
            FrameLoopError::RuntimeUnavailable => "Frame runtime is unavailable"@,
        }
    }

    /// The text that describes the error.
    pub fn to_string(&self) -> (r: String)
        ensures
            r@ == self.message_text(),
    {
        match self {
            FrameLoopError::UnsupportedHost => String::from_str(
                "Host environment does not support frame timing",
            ),
            FrameLoopError::RuntimeUnavailable => String::from_str("Frame runtime is unavailable"),
        }
    }
}

/// Handle of a running frame loop. Cancelling it through the registry that
/// issued it unregisters the loop.
#[derive(Debug)]
pub struct FrameLoopGuard {
    pub(crate) id: u64,
}

impl FrameLoopGuard {
    /// The registration that this guard cancels.
    pub closed spec fn spec_id(self) -> u64 {
        self.id
    }

    /// A guard for the registration with the given id.
    pub(crate) fn new(id: u64) -> (g: Self)
        ensures
            g.spec_id() == id,
    {
        FrameLoopGuard { id }
    }

    /// The registration that this guard cancels.
    pub fn id(&self) -> (r: u64)
        ensures
            r == self.spec_id(),
    {
        self.id
    }
}

/// Handle of a pending single-frame request. Cancelling it through the
/// registry that issued it withdraws the request.
#[derive(Debug)]
pub struct FrameRequestGuard {
    pub(crate) id: u64,
}

impl FrameRequestGuard {
    /// The request that this guard cancels.
    pub closed spec fn spec_id(self) -> u64 {
        self.id
    }

    /// A guard for the request with the given id.
    pub(crate) fn new(id: u64) -> (g: Self)
        ensures
            g.spec_id() == id,
    {
        FrameRequestGuard { id }
    }

    /// The request that this guard cancels.
    pub fn id(&self) -> (r: u64)
        ensures
            r == self.spec_id(),
    {
        self.id
    }
}

/// Handle of a registered host redraw requester. Releasing it through the
/// registry detaches the requester.
#[derive(Debug)]
pub struct HostRedrawGuard {
    _private: (),
}

impl HostRedrawGuard {
    pub(crate) fn new() -> Self {
        HostRedrawGuard { _private: () }
    }
}

} // verus!

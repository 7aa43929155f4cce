//! Host frame scheduling: frame timing values, cancellation guards and the
//! native frame registry, with its model and laws.

pub mod laws;
pub mod model;
pub mod native;
pub mod types;

pub use model::{FrameDispatch, FrameModel};
pub use native::{
    begin_frame, begin_hosted_frame, finish_hosted_frame, has_pending_frames, hosted_frame_delta,
    next_frame_call, request_next_frame, return_loop_callback, set_host_redraw_requester,
    start_frame_loop, step_hosted_frame, tick, FrameCall, NativeFrameState,
};
pub use types::{FrameInfo, FrameLoopError, FrameLoopGuard, FrameRequestGuard, HostRedrawGuard};

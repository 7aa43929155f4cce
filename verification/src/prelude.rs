//! The items that users of the library import most.

pub use crate::dom::Document;
pub use crate::frame::{FrameInfo, FrameLoopGuard, FrameRequestGuard, NativeFrameState};

//! The decisions of the native proof runner: its mode, and what it does on
//! each frame of its hosted frame loop.

use vstd::prelude::*;
use crate::codegen::{decimal, decimal_text};

verus! {

/// Whether the runner stays open for inspection: exactly when an argument
/// is `--interactive` or the `OXIDASE_INTERACTIVE` variable is set
/// (`env_flag_set`).
pub fn is_interactive_mode(args: &Vec<String>, env_flag_set: bool) -> (r: bool)
    ensures
        r == ((exists|i: int| 0 <= i < args@.len() && #[trigger] args@[i]@ == "--interactive"@)
            || env_flag_set),
{
    let flag = String::from_str("--interactive");
    let n = args.len();
    let mut i: usize = 0;
    while i < n
        invariant
            n == args@.len(),
            i <= n,
            flag@ == "--interactive"@,
            forall|k: int| 0 <= k < i ==> #[trigger] args@[k]@ != "--interactive"@,
        decreases n - i,
    {
        if args[i] == flag {
            return true;
        }
        i = i + 1;
    }
    env_flag_set
}

/// The frame budget of an auto-closing run: 300 frames under the debug
/// control plane, 20 otherwise.
pub open spec fn frame_budget(debug_control: bool) -> nat {
    if debug_control {
        300
    } else {
        20
    }
}

/// What the runner does on one frame.
#[derive(Clone, Copy, Debug, PartialEq, Eq, Structural)]
pub struct RunnerFrame {
    /// The number of frames served, this one included.
    pub frame_count: u64,
    /// Whether this frame is logged: the first 25 frames and every 30th.
    pub log_frame: bool,
    /// Whether the run is complete and the runner exits.
    pub finished: bool,
}

/// The runner's step on a frame, after `frame_count` earlier frames: the
/// count moves on by one; the first 25 frames and every 30th are logged; a
/// run that is not interactive ends once its frame budget is spent.
pub fn runner_frame(frame_count: u64, interactive: bool, debug_control: bool) -> (r: RunnerFrame)
    requires
        frame_count < u64::MAX,
    ensures
        r.frame_count == frame_count + 1,
        r.log_frame == (r.frame_count <= 25 || r.frame_count % 30 == 0),
        r.finished == (!interactive && r.frame_count >= frame_budget(debug_control)),
{
    let count = frame_count + 1;
    let max_frames: u64 = if debug_control {
        300
    } else {
        20
    };
    RunnerFrame {
        frame_count: count,
        log_frame: count <= 25 || count % 30 == 0,
        finished: !interactive && count >= max_frames,
    }
}

/// The label of the runner's event button: an invitation before the first
/// click, then the number of clicks.
pub open spec fn button_label_text(click_count: u32) -> Seq<char> {
    if click_count == 0 {
        "Click to Test Event"@
    } else {
        "Clicked "@ + decimal(click_count as nat) + " times"@
    }
}

/// The label of the runner's event button.
pub fn button_label(click_count: u32) -> (r: String)
    ensures
        r@ == button_label_text(click_count),
{
    if click_count == 0 {
        String::from_str("Click to Test Event")
    } else {
        let mut r = String::from_str("Clicked ");
        let n = decimal_text(click_count as u64);
        r.append(n.as_str());
        r.append(" times");
        r
    }
}

/// The width of the runner's progress bar, in percent, after
/// `frame_count` frames: it advances 3% a frame and wraps at 100%.
pub fn progress_width(frame_count: u64) -> (w: u64)
    requires
        frame_count * 3 <= u64::MAX,
    ensures
        w == (frame_count * 3) % 100,
{
    (frame_count * 3) % 100
}

} // verus!

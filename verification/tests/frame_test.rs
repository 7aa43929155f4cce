use oxidase::frame::{
    has_pending_frames, hosted_frame_delta, request_next_frame, set_host_redraw_requester,
    start_frame_loop, step_hosted_frame, tick, FrameInfo, FrameLoopError, FrameLoopGuard,
    FrameRequestGuard, NativeFrameState,
};
use oxidase::prelude::FrameInfo as PreludeFrameInfo;
use std::cell::RefCell;
use std::rc::Rc;
use std::time::Duration;

type Registry = NativeFrameState<Box<dyn FnMut(FrameInfo)>, Box<dyn FnOnce(FrameInfo)>, Box<dyn Fn()>>;

#[test]
fn test_frame_loop_guard_drop_cancellation() {
    let mut state = Registry::new();
    let guard = start_frame_loop(&mut state, Box::new(|_info: FrameInfo| {}))
        .expect("start_frame_loop should succeed in manual registry");

    assert!(has_pending_frames(&state));
    guard.cancel(&mut state);
    assert!(!has_pending_frames(&state));
}

#[test]
fn test_frame_request_guard_drop_cancellation() {
    let mut state = Registry::new();
    let guard = request_next_frame(&mut state, Box::new(|_info: FrameInfo| {}))
        .expect("request_next_frame should succeed in manual registry");

    assert!(has_pending_frames(&state));
    guard.cancel(&mut state);
    assert!(!has_pending_frames(&state));
}

#[test]
fn test_native_manual_loop_ticking() {
    let mut state = Registry::new();
    let ticks = Rc::new(RefCell::new(Vec::new()));
    let t = ticks.clone();

    let guard = start_frame_loop(
        &mut state,
        Box::new(move |info: FrameInfo| {
            t.borrow_mut().push((info.now, info.delta));
        }),
    )
    .expect("start_frame_loop should succeed in manual registry");

    tick(&mut state, Duration::from_millis(16));
    tick(&mut state, Duration::from_millis(16));

    assert_eq!(ticks.borrow().len(), 2);
    assert_eq!(ticks.borrow()[0].1, Duration::from_millis(16));
    assert_eq!(ticks.borrow()[1].1, Duration::from_millis(16));

    // Cancelling the guard stops subsequent ticks
    guard.cancel(&mut state);
    tick(&mut state, Duration::from_millis(16));
    assert_eq!(ticks.borrow().len(), 2);
}

#[test]
fn test_native_manual_one_shot_request() {
    let mut state = Registry::new();
    let fired = Rc::new(RefCell::new(false));
    let f = fired.clone();

    let _guard = request_next_frame(
        &mut state,
        Box::new(move |_now: FrameInfo| {
            *f.borrow_mut() = true;
        }),
    )
    .expect("request_next_frame should succeed in manual registry");

    assert!(!*fired.borrow());
    tick(&mut state, Duration::from_millis(16));
    assert!(*fired.borrow());

    // Does not fire again on second tick
    *fired.borrow_mut() = false;
    tick(&mut state, Duration::from_millis(16));
    assert!(!*fired.borrow());
}

#[test]
fn test_native_manual_one_shot_cancellation() {
    let mut state = Registry::new();
    let fired = Rc::new(RefCell::new(false));
    let f = fired.clone();

    let guard = request_next_frame(
        &mut state,
        Box::new(move |_now: FrameInfo| {
            *f.borrow_mut() = true;
        }),
    )
    .expect("request_next_frame should succeed in manual registry");

    guard.cancel(&mut state);
    tick(&mut state, Duration::from_millis(16));
    assert!(!*fired.borrow());
}

#[test]
fn test_prelude_high_level_exports_availability() {
    let info = PreludeFrameInfo {
        now: Duration::from_millis(100),
        delta: Duration::from_millis(16),
    };
    assert_eq!(info.now.as_millis(), 100);
    assert_eq!(info.delta.as_millis(), 16);
}

#[test]
fn test_frame_module_low_level_exports_availability() {
    let err = FrameLoopError::RuntimeUnavailable;
    assert_eq!(err, FrameLoopError::RuntimeUnavailable);

    let err2 = FrameLoopError::UnsupportedHost;
    assert_eq!(err2, FrameLoopError::UnsupportedHost);
}

#[test]
fn test_native_frame_manual_loop_ticking() {
    let mut state = Registry::new();
    let ticks = Rc::new(RefCell::new(Vec::new()));
    let t = ticks.clone();

    let guard = start_frame_loop(
        &mut state,
        Box::new(move |info: FrameInfo| {
            t.borrow_mut().push((info.now, info.delta));
        }),
    )
    .expect("start_frame_loop should succeed in manual/headless mode");

    tick(&mut state, Duration::from_millis(16));
    tick(&mut state, Duration::from_millis(16));

    assert_eq!(ticks.borrow().len(), 2);
    assert_eq!(ticks.borrow()[0].1, Duration::from_millis(16));
    assert_eq!(ticks.borrow()[1].1, Duration::from_millis(16));

    // Cancelling the guard stops subsequent ticks
    guard.cancel(&mut state);
    tick(&mut state, Duration::from_millis(16));
    assert_eq!(ticks.borrow().len(), 2);
}

#[test]
fn test_native_frame_manual_one_shot_request() {
    let mut state = Registry::new();
    let fired = Rc::new(RefCell::new(false));
    let f = fired.clone();

    let received_delta = Rc::new(RefCell::new(Duration::ZERO));
    let rd = received_delta.clone();

    let _guard = request_next_frame(
        &mut state,
        Box::new(move |info: FrameInfo| {
            *f.borrow_mut() = true;
            *rd.borrow_mut() = info.delta;
        }),
    )
    .expect("request_next_frame should succeed in manual/headless mode");

    assert!(!*fired.borrow());
    tick(&mut state, Duration::from_millis(16));
    assert!(*fired.borrow());
    assert_eq!(*received_delta.borrow(), Duration::from_millis(16));

    // Does not fire again on second tick
    *fired.borrow_mut() = false;
    tick(&mut state, Duration::from_millis(16));
    assert!(!*fired.borrow());
}

#[test]
fn test_native_frame_manual_one_shot_cancellation() {
    let mut state = Registry::new();
    let fired = Rc::new(RefCell::new(false));
    let f = fired.clone();

    let guard = request_next_frame(
        &mut state,
        Box::new(move |_info: FrameInfo| {
            *f.borrow_mut() = true;
        }),
    )
    .expect("request_next_frame should succeed in manual/headless mode");

    guard.cancel(&mut state);
    tick(&mut state, Duration::from_millis(16));
    assert!(!*fired.borrow());
}

#[test]
fn test_hosted_native_frame_redraw_requester_lifecycle() {
    let mut state = Registry::new();
    let redraw_requests = Rc::new(RefCell::new(0usize));
    let r_req = redraw_requests.clone();

    // Register host redraw requester (simulating window.request_redraw())
    let redraw_guard = set_host_redraw_requester(
        &mut state,
        Box::new(move || {
            *r_req.borrow_mut() += 1;
        }),
    );

    // Initially no frames pending, 0 redraw requests
    assert_eq!(*redraw_requests.borrow(), 0);
    assert!(!has_pending_frames(&state));

    // 1. Starting a frame loop triggers the host redraw requester immediately
    let frame_ticks = Rc::new(RefCell::new(Vec::new()));
    let f_ticks = frame_ticks.clone();
    let loop_guard = start_frame_loop(
        &mut state,
        Box::new(move |info: FrameInfo| {
            f_ticks.borrow_mut().push(info.delta);
        }),
    )
    .expect("start_frame_loop should succeed");

    assert!(has_pending_frames(&state));
    assert_eq!(*redraw_requests.borrow(), 1, "start_frame_loop must request host redraw");

    // 2. Host dispatches a redraw via step_hosted_frame()
    let dt = step_hosted_frame(&mut state);
    assert!(dt >= Duration::from_millis(1));
    assert_eq!(frame_ticks.borrow().len(), 1);
    // Because the loop is still active, step_hosted_frame requested the NEXT frame redraw
    assert_eq!(*redraw_requests.borrow(), 2, "active loop must schedule next redraw");

    // 3. Host dispatches a second redraw
    step_hosted_frame(&mut state);
    assert_eq!(frame_ticks.borrow().len(), 2);
    assert_eq!(*redraw_requests.borrow(), 3);

    // 4. Cancel the loop
    loop_guard.cancel(&mut state);
    assert!(!has_pending_frames(&state));

    // 5. Subsequent step_hosted_frame finds no pending frames and enters IDLE (does NOT request redraw)
    let requests_before = *redraw_requests.borrow();
    step_hosted_frame(&mut state);
    assert_eq!(*redraw_requests.borrow(), requests_before, "idle state must not request redraw");

    // Releasing the host redraw guard cleans up cleanly
    redraw_guard.release(&mut state);
}

#[test]
fn test_hosted_native_one_shot_request_and_idle() {
    let mut state = Registry::new();
    let redraw_requests = Rc::new(RefCell::new(0usize));
    let r_req = redraw_requests.clone();

    let _redraw_guard = set_host_redraw_requester(
        &mut state,
        Box::new(move || {
            *r_req.borrow_mut() += 1;
        }),
    );

    let one_shot_fired = Rc::new(RefCell::new(false));
    let osf = one_shot_fired.clone();

    // 1. Request single frame -> requests host redraw
    let _guard = request_next_frame(
        &mut state,
        Box::new(move |_now: FrameInfo| {
            *osf.borrow_mut() = true;
        }),
    )
    .expect("request_next_frame should succeed");

    assert!(has_pending_frames(&state));
    assert_eq!(*redraw_requests.borrow(), 1);

    // 2. Dispatch the frame
    step_hosted_frame(&mut state);
    assert!(*one_shot_fired.borrow(), "one shot callback must execute");
    assert!(!has_pending_frames(&state), "one-shot must be drained after execution");

    // 3. After single execution, system is idle: does NOT request another redraw
    assert_eq!(*redraw_requests.borrow(), 1, "completed one-shot must not schedule another redraw");
}

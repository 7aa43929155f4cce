use oxidase::frame::{
    has_pending_frames, hosted_frame_delta, request_next_frame, set_host_redraw_requester,
    start_frame_loop, step_hosted_frame, tick, FrameInfo, FrameLoopError, NativeFrameState,
};
use oxidase::launch::{bind_host_redraw_requester, step_hosted_frame as launch_step};
use std::cell::RefCell;
use std::rc::Rc;
use std::time::Duration;

type Registry = NativeFrameState<Box<dyn FnMut(FrameInfo)>, Box<dyn FnOnce(FrameInfo)>, Box<dyn Fn()>>;

fn recorder(log: &Rc<RefCell<Vec<(u32, FrameInfo)>>>, tag: u32) -> Box<dyn FnMut(FrameInfo)> {
    let log = log.clone();
    Box::new(move |info: FrameInfo| log.borrow_mut().push((tag, info)))
}

fn one_shot_recorder(log: &Rc<RefCell<Vec<(u32, FrameInfo)>>>, tag: u32) -> Box<dyn FnOnce(FrameInfo)> {
    let log = log.clone();
    Box::new(move |info: FrameInfo| log.borrow_mut().push((tag, info)))
}

#[test]
fn frame_serves_one_shots_first_then_loops_in_registration_order() {
    let mut state = Registry::new();
    let log = Rc::new(RefCell::new(Vec::new()));
    let _a = start_frame_loop(&mut state, recorder(&log, 1)).unwrap();
    let _b = request_next_frame(&mut state, one_shot_recorder(&log, 2)).unwrap();
    let _c = start_frame_loop(&mut state, recorder(&log, 3)).unwrap();
    let _d = request_next_frame(&mut state, one_shot_recorder(&log, 4)).unwrap();
    tick(&mut state, Duration::from_millis(10));
    let tags: Vec<u32> = log.borrow().iter().map(|(t, _)| *t).collect();
    assert_eq!(tags, vec![2, 4, 1, 3]);
    for (_, info) in log.borrow().iter() {
        assert_eq!(info.now, Duration::from_millis(10));
        assert_eq!(info.delta, Duration::from_millis(10));
    }
}

#[test]
fn clock_advances_by_each_delta() {
    let mut state = Registry::new();
    let log = Rc::new(RefCell::new(Vec::new()));
    let _a = start_frame_loop(&mut state, recorder(&log, 1)).unwrap();
    tick(&mut state, Duration::from_millis(16));
    tick(&mut state, Duration::from_millis(4));
    tick(&mut state, Duration::from_millis(30));
    let nows: Vec<Duration> = log.borrow().iter().map(|(_, i)| i.now).collect();
    assert_eq!(nows, vec![Duration::from_millis(16), Duration::from_millis(20), Duration::from_millis(50)]);
    let deltas: Vec<Duration> = log.borrow().iter().map(|(_, i)| i.delta).collect();
    assert_eq!(deltas, vec![Duration::from_millis(16), Duration::from_millis(4), Duration::from_millis(30)]);
}

#[test]
fn guards_carry_consecutive_fresh_ids() {
    let mut state = Registry::new();
    let log = Rc::new(RefCell::new(Vec::new()));
    let a = start_frame_loop(&mut state, recorder(&log, 1)).unwrap();
    let b = request_next_frame(&mut state, one_shot_recorder(&log, 2)).unwrap();
    let c = start_frame_loop(&mut state, recorder(&log, 3)).unwrap();
    assert_eq!(a.id(), 0);
    assert_eq!(b.id(), 1);
    assert_eq!(c.id(), 2);
}

#[test]
fn cancelling_one_loop_keeps_the_others() {
    let mut state = Registry::new();
    let log = Rc::new(RefCell::new(Vec::new()));
    let a = start_frame_loop(&mut state, recorder(&log, 1)).unwrap();
    let _b = start_frame_loop(&mut state, recorder(&log, 2)).unwrap();
    a.cancel(&mut state);
    tick(&mut state, Duration::from_millis(16));
    let tags: Vec<u32> = log.borrow().iter().map(|(t, _)| *t).collect();
    assert_eq!(tags, vec![2]);
    assert!(has_pending_frames(&state));
}

#[test]
fn cancelling_a_served_one_shot_changes_nothing() {
    let mut state = Registry::new();
    let log = Rc::new(RefCell::new(Vec::new()));
    let g = request_next_frame(&mut state, one_shot_recorder(&log, 1)).unwrap();
    let _l = start_frame_loop(&mut state, recorder(&log, 2)).unwrap();
    tick(&mut state, Duration::from_millis(16));
    g.cancel(&mut state);
    tick(&mut state, Duration::from_millis(16));
    let tags: Vec<u32> = log.borrow().iter().map(|(t, _)| *t).collect();
    assert_eq!(tags, vec![1, 2, 2]);
}

#[test]
fn no_redraw_without_requester_and_after_release() {
    let mut state = Registry::new();
    let redraws = Rc::new(RefCell::new(0usize));
    let r = redraws.clone();
    let log = Rc::new(RefCell::new(Vec::new()));
    let guard = set_host_redraw_requester(&mut state, Box::new(move || *r.borrow_mut() += 1));
    guard.release(&mut state);
    let _a = start_frame_loop(&mut state, recorder(&log, 1)).unwrap();
    step_hosted_frame(&mut state);
    assert_eq!(*redraws.borrow(), 0);
    assert_eq!(log.borrow().len(), 1);
}

#[test]
fn registering_requester_with_pending_frames_requests_redraw() {
    let mut state = Registry::new();
    let log = Rc::new(RefCell::new(Vec::new()));
    let _a = start_frame_loop(&mut state, recorder(&log, 1)).unwrap();
    let redraws = Rc::new(RefCell::new(0usize));
    let r = redraws.clone();
    let _g = bind_host_redraw_requester(&mut state, Box::new(move || *r.borrow_mut() += 1));
    assert_eq!(*redraws.borrow(), 1);
}

#[test]
fn first_hosted_frame_is_sixteen_millis() {
    let mut state = Registry::new();
    let log = Rc::new(RefCell::new(Vec::new()));
    let _a = start_frame_loop(&mut state, recorder(&log, 1)).unwrap();
    let dt = launch_step(&mut state);
    assert_eq!(dt, Duration::from_millis(16));
    let dt2 = step_hosted_frame(&mut state);
    assert!(dt2 >= Duration::from_millis(1) && dt2 <= Duration::from_millis(100));
    assert_eq!(log.borrow()[1].1.now, Duration::from_millis(16) + dt2);
}

#[test]
fn hosted_frame_delta_clamps() {
    assert_eq!(hosted_frame_delta(None), Duration::from_millis(16));
    assert_eq!(hosted_frame_delta(Some(Duration::ZERO)), Duration::from_millis(1));
    assert_eq!(hosted_frame_delta(Some(Duration::from_micros(999))), Duration::from_millis(1));
    assert_eq!(hosted_frame_delta(Some(Duration::from_millis(1))), Duration::from_millis(1));
    assert_eq!(hosted_frame_delta(Some(Duration::from_millis(42))), Duration::from_millis(42));
    assert_eq!(hosted_frame_delta(Some(Duration::from_millis(100))), Duration::from_millis(100));
    assert_eq!(hosted_frame_delta(Some(Duration::from_millis(250))), Duration::from_millis(100));
}

#[test]
fn frame_loop_error_texts() {
    assert_eq!(
        FrameLoopError::UnsupportedHost.to_string(),
        "Host environment does not support frame timing"
    );
    assert_eq!(FrameLoopError::RuntimeUnavailable.to_string(), "Frame runtime is unavailable");
}

use oxidase::frame::{
    begin_frame, begin_hosted_frame, finish_hosted_frame, has_pending_frames, next_frame_call,
    request_next_frame, return_loop_callback, set_host_redraw_requester, start_frame_loop, tick,
    FrameCall, FrameInfo, NativeFrameState,
};
use std::cell::RefCell;
use std::rc::Rc;
use std::time::Duration;

type Registry = NativeFrameState<Box<dyn FnMut(FrameInfo)>, Box<dyn FnOnce(FrameInfo)>, Box<dyn Fn()>>;

/// Serves the frame in progress to its end, running `between` after each
/// loop callback and before it is handed back, as a callback that calls
/// into the registry would.
fn serve(state: &mut Registry, mut between: impl FnMut(&mut Registry, u64)) -> usize {
    let mut calls = 0;
    loop {
        match next_frame_call(state) {
            FrameCall::OneShot(cb, info) => {
                cb(info);
                calls += 1;
            }
            FrameCall::Loop(id, mut cb, info) => {
                cb(info);
                calls += 1;
                between(state, id);
                return_loop_callback(state, id, cb);
            }
            FrameCall::Done => return calls,
        }
    }
}

#[test]
fn stepwise_frame_serves_one_shots_then_loops_in_order() {
    let mut state = Registry::new();
    let seen = Rc::new(RefCell::new(Vec::new()));
    let (a, b, c) = (seen.clone(), seen.clone(), seen.clone());
    let _l = start_frame_loop(&mut state, Box::new(move |i: FrameInfo| a.borrow_mut().push(("loop", i.now, i.delta))))
        .unwrap();
    let _r1 = request_next_frame(&mut state, Box::new(move |i: FrameInfo| b.borrow_mut().push(("first", i.now, i.delta))))
        .unwrap();
    let _r2 = request_next_frame(&mut state, Box::new(move |i: FrameInfo| c.borrow_mut().push(("second", i.now, i.delta))))
        .unwrap();
    begin_frame(&mut state, Duration::from_millis(16));
    assert!(state.frame_in_progress());
    assert_eq!(serve(&mut state, |_, _| {}), 3);
    assert!(!state.frame_in_progress());
    let ms16 = Duration::from_millis(16);
    assert_eq!(*seen.borrow(), vec![("first", ms16, ms16), ("second", ms16, ms16), ("loop", ms16, ms16)]);
    assert_eq!(state.now(), ms16);
}

#[test]
fn registrations_made_during_a_frame_wait_for_the_next() {
    let mut state = Registry::new();
    let count = Rc::new(RefCell::new((0u32, 0u32, 0u32)));
    let c1 = count.clone();
    let _g = start_frame_loop(&mut state, Box::new(move |_: FrameInfo| c1.borrow_mut().0 += 1)).unwrap();
    let mut late_guards = Vec::new();
    let mut late_requests = Vec::new();
    begin_frame(&mut state, Duration::from_millis(10));
    let c2 = count.clone();
    let c3 = count.clone();
    let mut c2 = Some(c2);
    let mut c3 = Some(c3);
    let calls = serve(&mut state, |st, _id| {
        if let Some(c) = c2.take() {
            late_guards.push(start_frame_loop(st, Box::new(move |_: FrameInfo| c.borrow_mut().1 += 1)).unwrap());
        }
        if let Some(c) = c3.take() {
            late_requests.push(request_next_frame(st, Box::new(move |_: FrameInfo| c.borrow_mut().2 += 1)).unwrap());
        }
    });
    assert_eq!(calls, 1);
    assert_eq!(*count.borrow(), (1, 0, 0));
    assert!(has_pending_frames(&state));
    tick(&mut state, Duration::from_millis(10));
    assert_eq!(*count.borrow(), (2, 1, 1));
    assert_eq!(state.now(), Duration::from_millis(20));
}

#[test]
fn loop_cancelled_during_its_own_call_is_dropped() {
    let mut state = Registry::new();
    let count = Rc::new(RefCell::new(0u32));
    let c = count.clone();
    let g = start_frame_loop(&mut state, Box::new(move |_: FrameInfo| *c.borrow_mut() += 1)).unwrap();
    let mut guard = Some(g);
    begin_frame(&mut state, Duration::from_millis(5));
    let calls = serve(&mut state, |st, _| {
        if let Some(g) = guard.take() {
            g.cancel(st);
        }
    });
    assert_eq!(calls, 1);
    assert!(!has_pending_frames(&state));
    tick(&mut state, Duration::from_millis(5));
    assert_eq!(*count.borrow(), 1);
}

#[test]
fn cancel_during_a_frame_skips_later_registrations_of_that_frame() {
    let mut state = Registry::new();
    let count = Rc::new(RefCell::new((0u32, 0u32)));
    let (ca, cb, cc) = (count.clone(), count.clone(), count.clone());
    let _first = start_frame_loop(&mut state, Box::new(move |_: FrameInfo| ca.borrow_mut().0 += 1)).unwrap();
    let second = start_frame_loop(&mut state, Box::new(move |_: FrameInfo| cb.borrow_mut().1 += 1)).unwrap();
    let _third = start_frame_loop(&mut state, Box::new(move |_: FrameInfo| cc.borrow_mut().0 += 10)).unwrap();
    let mut second = Some(second);
    begin_frame(&mut state, Duration::from_millis(5));
    let calls = serve(&mut state, |st, _| {
        if let Some(g) = second.take() {
            g.cancel(st);
        }
    });
    assert_eq!(calls, 2);
    assert_eq!(*count.borrow(), (11, 0));
}

#[test]
fn request_withdrawn_during_a_frame_is_not_served() {
    let mut state = Registry::new();
    let count = Rc::new(RefCell::new(0u32));
    let (c1, c2) = (count.clone(), count.clone());
    let _r1 = request_next_frame(&mut state, Box::new(move |_: FrameInfo| *c1.borrow_mut() += 1)).unwrap();
    let r2 = request_next_frame(&mut state, Box::new(move |_: FrameInfo| *c2.borrow_mut() += 100)).unwrap();
    begin_frame(&mut state, Duration::from_millis(5));
    match next_frame_call(&mut state) {
        FrameCall::OneShot(cb, info) => cb(info),
        _ => panic!("expected the first request"),
    }
    r2.cancel(&mut state);
    assert!(matches!(next_frame_call(&mut state), FrameCall::Done));
    assert_eq!(*count.borrow(), 1);
}

#[test]
fn hosted_frame_step_by_step() {
    let mut state = Registry::new();
    let redraws = Rc::new(RefCell::new(0u32));
    let r = redraws.clone();
    let _h = set_host_redraw_requester(&mut state, Box::new(move || *r.borrow_mut() += 1));
    let frames = Rc::new(RefCell::new(Vec::new()));
    let f = frames.clone();
    let _g = request_next_frame(&mut state, Box::new(move |i: FrameInfo| f.borrow_mut().push(i.delta))).unwrap();
    assert_eq!(*redraws.borrow(), 1);
    let dt = begin_hosted_frame(&mut state);
    assert_eq!(dt, Duration::from_millis(16));
    assert_eq!(serve(&mut state, |_, _| {}), 1);
    finish_hosted_frame(&mut state);
    assert_eq!(*frames.borrow(), vec![Duration::from_millis(16)]);
    assert!(!has_pending_frames(&state));
    assert_eq!(*redraws.borrow(), 1);
}

#[test]
fn tick_from_a_single_frame_callback_serves_a_whole_frame_inside() {
    let mut state = Registry::new();
    let seen = Rc::new(RefCell::new(Vec::new()));
    let (a, b) = (seen.clone(), seen.clone());
    let _l = start_frame_loop(&mut state, Box::new(move |i: FrameInfo| a.borrow_mut().push(("loop", i.now))))
        .unwrap();
    let _r = request_next_frame(&mut state, Box::new(move |i: FrameInfo| b.borrow_mut().push(("request", i.now))))
        .unwrap();
    begin_frame(&mut state, Duration::from_millis(10));
    match next_frame_call(&mut state) {
        FrameCall::OneShot(cb, info) => {
            cb(info);
            // What the callback would do: tick the registry itself.
            assert_eq!(state.lent_loop_id(), None);
            tick(&mut state, Duration::from_millis(5));
        }
        _ => panic!("expected the request"),
    }
    assert_eq!(serve(&mut state, |_, _| {}), 1);
    let ms = Duration::from_millis;
    assert_eq!(*seen.borrow(), vec![("request", ms(10)), ("loop", ms(15)), ("loop", ms(10))]);
    assert_eq!(state.now(), ms(15));
}

#[test]
fn pending_while_some_registration_is_on() {
    let mut state = Registry::new();
    assert!(!has_pending_frames(&state));
    let l = start_frame_loop(&mut state, Box::new(|_: FrameInfo| {})).unwrap();
    let _r = request_next_frame(&mut state, Box::new(|_: FrameInfo| {})).unwrap();
    assert!(has_pending_frames(&state));
    l.cancel(&mut state);
    assert!(has_pending_frames(&state));
    tick(&mut state, Duration::from_millis(1));
    assert!(!has_pending_frames(&state));
    let r2 = request_next_frame(&mut state, Box::new(|_: FrameInfo| {})).unwrap();
    assert!(has_pending_frames(&state));
    r2.cancel(&mut state);
    assert!(!has_pending_frames(&state));
}

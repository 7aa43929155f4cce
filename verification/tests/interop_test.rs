use oxidase::watcher_guard::WatcherGuard;
use oxidase::interop::{
    clear_js_cache, current_epoch, next_subscription_id, query_next_step, reset_module_registry,
    settle_first_answer, settle_retry_answer, watcher_event_action, InteropRuntime, JsError,
    ModuleCache, QueryOutcome, QueryPhase, QueryStep, RpcResponse, WatcherEventAction,
};

#[test]
fn test_rpc_response_success() {
    let resp = RpcResponse {
        ok: true,
        data: Some(42),
        error: None,
        stack: None,
    };
    assert_eq!(resp.into_result().unwrap(), 42);
}

#[test]
fn test_rpc_response_error() {
    let resp: RpcResponse<i32> = RpcResponse {
        ok: false,
        data: None,
        error: Some("Element not found".into()),
        stack: Some("stack trace".into()),
    };
    match resp.into_result() {
        Err(JsError::Exception { message, stack }) => {
            assert_eq!(message, "Element not found");
            assert_eq!(stack, Some("stack trace".into()));
        }
        _ => panic!("Expected JsError::Exception"),
    }
}

#[test]
fn test_epoch_increment() {
    let mut rt = InteropRuntime::new();
    let initial = current_epoch(&rt);
    clear_js_cache(&mut rt);
    assert_eq!(current_epoch(&rt), initial + 1);

    // Verify backward-compatible alias
    reset_module_registry(&mut rt);
    assert_eq!(current_epoch(&rt), initial + 2);
}

#[test]
fn test_subscription_id_increment() {
    let mut rt = InteropRuntime::new();
    let id1 = next_subscription_id(&mut rt);
    let id2 = next_subscription_id(&mut rt);
    assert!(id2 > id1);
}

#[test]
fn test_js_error_display() {
    let err = JsError::ModuleUnavailable("module_123".into());
    assert!(err.to_string().contains("module_123"));

    let err2 = JsError::Transport("failed to connect".into());
    assert!(err2.to_string().contains("failed to connect"));
}

#[test]
fn test_rpc_as_error() {
    let resp: RpcResponse<()> = RpcResponse {
        ok: false,
        data: None,
        error: Some("MODULE_NOT_FOUND".into()),
        stack: None,
    };
    assert_eq!(resp.as_error(), Some("MODULE_NOT_FOUND"));

    let ok_resp: RpcResponse<i32> = RpcResponse {
        ok: true,
        data: Some(10),
        error: None,
        stack: None,
    };
    assert_eq!(ok_resp.as_error(), None);
}

#[test]
fn js_error_texts() {
    let e = JsError::Exception { message: "boom".into(), stack: Some("at f".into()) };
    assert_eq!(e.to_string(), "JavaScript Exception: boom\nStack: Some(\"at f\")");
    let e = JsError::Exception { message: "boom".into(), stack: None };
    assert_eq!(e.to_string(), "JavaScript Exception: boom\nStack: None");
    assert_eq!(JsError::Transport("x".into()).to_string(), "Transport Error: x");
    assert_eq!(
        JsError::ModuleUnavailable("m1".into()).to_string(),
        "Module Unavailable: 'm1' (Context may have been reset)"
    );
    assert_eq!(JsError::Deserialization("bad".into()).to_string(), "Deserialization Error: bad");
}

#[test]
fn rpc_success_without_data_is_transport_error() {
    let resp: RpcResponse<i32> = RpcResponse { ok: true, data: None, error: None, stack: None };
    assert_eq!(
        resp.into_result(),
        Err(JsError::Transport("Missing data in success response".into()))
    );
}

#[test]
fn rpc_failure_without_text_is_unknown_error() {
    let resp: RpcResponse<i32> = RpcResponse { ok: false, data: Some(3), error: None, stack: None };
    assert_eq!(
        resp.into_result(),
        Err(JsError::Exception { message: "Unknown JS error".into(), stack: None })
    );
    let resp: RpcResponse<i32> = RpcResponse { ok: true, data: None, error: Some("x".into()), stack: None };
    assert_eq!(resp.as_error(), None);
    let resp: RpcResponse<i32> = RpcResponse { ok: false, data: None, error: None, stack: None };
    assert_eq!(resp.as_error(), None);
}

#[test]
fn rpc_payload() {
    let resp: RpcResponse<i32> = RpcResponse { ok: true, data: None, error: None, stack: None };
    assert_eq!(resp.into_payload(), Ok(None));
    let resp: RpcResponse<i32> = RpcResponse { ok: true, data: Some(7), error: None, stack: None };
    assert_eq!(resp.into_payload(), Ok(Some(7)));
    let resp: RpcResponse<i32> =
        RpcResponse { ok: false, data: None, error: Some("e".into()), stack: Some("s".into()) };
    assert_eq!(
        resp.into_payload(),
        Err(JsError::Exception { message: "e".into(), stack: Some("s".into()) })
    );
}

fn failed(code: &str) -> RpcResponse<i32> {
    RpcResponse { ok: false, data: None, error: Some(code.into()), stack: None }
}

#[test]
fn query_retries_once_on_missing_module() {
    assert_eq!(query_next_step(QueryPhase::FirstAttempt, &failed("MODULE_NOT_FOUND")), QueryStep::ReloadAndRetry);
    assert_eq!(query_next_step(QueryPhase::FirstAttempt, &failed("MODULE_UNAVAILABLE")), QueryStep::Decode);
    assert_eq!(query_next_step(QueryPhase::FirstAttempt, &failed("TypeError")), QueryStep::Decode);
    assert_eq!(query_next_step(QueryPhase::AfterReload, &failed("MODULE_NOT_FOUND")), QueryStep::ModuleUnavailable);
    assert_eq!(query_next_step(QueryPhase::AfterReload, &failed("MODULE_UNAVAILABLE")), QueryStep::ModuleUnavailable);
    assert_eq!(query_next_step(QueryPhase::AfterReload, &failed("TypeError")), QueryStep::Decode);
    let ok: RpcResponse<i32> = RpcResponse { ok: true, data: Some(1), error: Some("MODULE_NOT_FOUND".into()), stack: None };
    assert_eq!(query_next_step(QueryPhase::FirstAttempt, &ok), QueryStep::Decode);
}

#[test]
fn watcher_stops_on_missing_module() {
    assert_eq!(watcher_event_action(Some("MODULE_NOT_FOUND")), WatcherEventAction::StopAndInvalidate);
    assert_eq!(watcher_event_action(Some("OTHER")), WatcherEventAction::Deliver);
    assert_eq!(watcher_event_action(None), WatcherEventAction::Deliver);
}

#[test]
fn module_cache_reloads_after_clear_and_invalidate() {
    let mut rt = InteropRuntime::new();
    let mut cache = ModuleCache::new();
    assert!(cache.ensure_module(&rt));
    assert!(!cache.ensure_module(&rt));
    clear_js_cache(&mut rt);
    assert!(cache.ensure_module(&rt));
    assert!(!cache.ensure_module(&rt));
    cache.invalidate();
    assert!(cache.ensure_module(&rt));
}

#[test]
fn subscription_ids_start_at_one() {
    let mut rt = InteropRuntime::new();
    assert_eq!(current_epoch(&rt), 1);
    assert_eq!(next_subscription_id(&mut rt), 1);
    assert_eq!(next_subscription_id(&mut rt), 2);
    clear_js_cache(&mut rt);
    assert_eq!(next_subscription_id(&mut rt), 3);
}

#[test]
fn test_watcher_guard_lifecycle() {
    let guard = WatcherGuard::new("watch_resize", 42, None);
    assert_eq!(guard.name(), "watch_resize");
    assert_eq!(guard.subscription_id(), 42);
    let debug_str = format!("{:?}", guard);
    assert!(debug_str.contains("watch_resize"));
    assert!(debug_str.contains("42"));
    // Drop test outside runtime - must not panic
    drop(guard);
}

#[test]
fn watcher_teardown_is_handed_out_once() {
    let mut guard = WatcherGuard::new("watch_scroll", 7, None);
    let first = guard.stop().expect("first stop hands out the teardown");
    assert_eq!(first.subscription_id, 7);
    assert!(first.task.is_none());
    assert!(guard.stop().is_none());
    assert!(guard.stop().is_none());
    assert_eq!(guard.name(), "watch_scroll");
}

#[test]
fn query_first_answer_missing_module_asks_for_one_reload() {
    let mut rt = InteropRuntime::new();
    let mut cache = ModuleCache::new();
    assert!(cache.ensure_module(&rt));
    clear_js_cache(&mut rt);
    assert!(cache.ensure_module(&rt));
    match settle_first_answer(failed("MODULE_NOT_FOUND"), &mut cache, &rt) {
        QueryOutcome::Retry { reload } => assert!(reload),
        QueryOutcome::Finished(_) => panic!("a missing module must be reloaded"),
    }
    assert!(!cache.ensure_module(&rt));
}

#[test]
fn query_first_answer_otherwise_finishes() {
    let rt = InteropRuntime::new();
    let mut cache = ModuleCache::new();
    let ok: RpcResponse<i32> = RpcResponse { ok: true, data: Some(7), error: None, stack: None };
    match settle_first_answer(ok, &mut cache, &rt) {
        QueryOutcome::Finished(r) => assert_eq!(r, Ok(Some(7))),
        QueryOutcome::Retry { .. } => panic!("a successful answer ends the call"),
    }
    match settle_first_answer(failed("TypeError: x"), &mut cache, &rt) {
        QueryOutcome::Finished(r) => {
            assert_eq!(r, Err(JsError::Exception { message: "TypeError: x".into(), stack: None }))
        }
        QueryOutcome::Retry { .. } => panic!("an exception ends the call"),
    }
    match settle_first_answer(failed("MODULE_UNAVAILABLE"), &mut cache, &rt) {
        QueryOutcome::Finished(r) => {
            assert_eq!(r, Err(JsError::Exception { message: "MODULE_UNAVAILABLE".into(), stack: None }))
        }
        QueryOutcome::Retry { .. } => panic!("only a missing module is retried"),
    }
}

#[test]
fn query_retry_answer_reports_the_module_hash() {
    assert_eq!(
        settle_retry_answer(failed("MODULE_NOT_FOUND"), "a1b2c3"),
        Err(JsError::ModuleUnavailable("a1b2c3".into()))
    );
    assert_eq!(
        settle_retry_answer(failed("MODULE_UNAVAILABLE"), "a1b2c3"),
        Err(JsError::ModuleUnavailable("a1b2c3".into()))
    );
    assert_eq!(
        settle_retry_answer(failed("boom"), "a1b2c3"),
        Err(JsError::Exception { message: "boom".into(), stack: None })
    );
    let ok: RpcResponse<i32> = RpcResponse { ok: true, data: None, error: None, stack: None };
    assert_eq!(settle_retry_answer(ok, "a1b2c3"), Ok(None));
}

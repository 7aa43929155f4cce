//! Bookkeeping of the JS interop runtime: the error taxonomy, RPC response
//! frames, the epoch that invalidates injected modules, subscription ids,
//! and the decisions of the query and watcher protocols.

use vstd::prelude::*;

verus! {

/// The text that `{:?}` renders for an optional string, as `format!` gives
/// it.
pub uninterp spec fn debug_text(s: Option<Seq<char>>) -> Seq<char>;

/// `format!("{:?}", s)` for an optional string: `None`, or `Some("..")`
/// with the string quoted and escaped.
#[verifier::external_body]
fn debug_text_of(s: &Option<String>) -> (r: String)
    ensures
        r@ == debug_text(s.deep_view()),
{
    format!("{:?}", s)
}

/// Errors of the JS interop layer.
#[derive(Clone, Debug, PartialEq, Eq)]
pub enum JsError {
    /// A JavaScript exception, with its message and, when known, its stack.
    Exception { message: String, stack: Option<String> },
    /// The bridge between Rust and the browser failed.
    Transport(String),
    /// The named module is not loaded in the browser context.
    ModuleUnavailable(String),
    /// A value could not be decoded.
    Deserialization(String),
}

impl JsError {
    /// The text that describes the error.
    pub open spec fn message_text(self) -> Seq<char> {
        match self {
            JsError::Exception { message, stack } => "JavaScript Exception: "@ + message@
                + "\nStack: "@ + debug_text(stack.deep_view()),
            JsError::Transport(m) => "Transport Error: "@ + m@,
            JsError::ModuleUnavailable(m) => "Module Unavailable: '"@ + m@
                + "' (Context may have been reset)"@,
            JsError::Deserialization(m) => "Deserialization Error: "@ + m@,
        }
    }

    /// The text that describes the error.
    pub fn to_string(&self) -> (r: String)
        ensures
            r@ == self.message_text(),
    {
        match self {
            JsError::Exception { message, stack } => {
                let mut r = String::from_str("JavaScript Exception: ");
                r.append(message.as_str());
                r.append("\nStack: ");
                let st = debug_text_of(stack);
                r.append(st.as_str());
                r
            },
            JsError::Transport(m) => {
                let mut r = String::from_str("Transport Error: ");
                r.append(m.as_str());
                r
            },
            JsError::ModuleUnavailable(m) => {
                let mut r = String::from_str("Module Unavailable: '");
                r.append(m.as_str());
                r.append("' (Context may have been reset)");
                r
            },
            JsError::Deserialization(m) => {
                let mut r = String::from_str("Deserialization Error: ");
                r.append(m.as_str());
                r
            },
        }
    }
}

/// The frame in which the browser answers a query.
#[derive(Clone, Debug)]
pub struct RpcResponse<T> {
    /// Whether the JavaScript function completed without an exception.
    pub ok: bool,
    /// The returned value, on success.
    pub data: Option<T>,
    /// The exception message or protocol error code, on failure.
    pub error: Option<String>,
    /// The exception stack, when known.
    pub stack: Option<String>,
}

impl<T> RpcResponse<T> {
    /// The message of the exception that a failed response stands for.
    pub open spec fn failure_message(self) -> Seq<char> {
        match self.error {
            Some(e) => e@,
            None => "Unknown JS error"@,
        }
    }

    /// The error text of a failed response; `None` for a successful one.
    pub fn as_error(&self) -> (r: Option<&str>)
        ensures
            r is Some <==> (!self.ok && self.error is Some),
            r matches Some(e) ==> e@ == self.error->0@,
    {
        if !self.ok {
            match &self.error {
                Some(e) => Some(e.as_str()),
                None => None,
            }
        } else {
            None
        }
    }

    /// The returned value of a successful response; a `Transport` error for
    /// a successful response without data; an `Exception` carrying the
    /// error text (or "Unknown JS error") and the stack of a failed one.
    pub fn into_result(self) -> (r: Result<T, JsError>)
        ensures
            self.ok && self.data is Some ==> r == Ok::<T, JsError>(self.data->0),
            self.ok && self.data is None ==> (r matches Err(JsError::Transport(m)) && m@
                == "Missing data in success response"@),
            !self.ok ==> (r matches Err(JsError::Exception { message, stack }) && stack
                == self.stack && message@ == self.failure_message()),
    {
        if self.ok {
            match self.data {
                Some(d) => Ok(d),
                None => Err(JsError::Transport(String::from_str("Missing data in success response"))),
            }
        } else {
            let message = match self.error {
                Some(e) => e,
                None => String::from_str("Unknown JS error"),
            };
            Err(JsError::Exception { message, stack: self.stack })
        }
    }

    /// The payload of a query answer: the data of a successful response
    /// (`None` when it carried none), or an `Exception` carrying the error
    /// text (or "Unknown JS error") and the stack of a failed one.
    pub fn into_payload(self) -> (r: Result<Option<T>, JsError>)
        ensures
            self.ok ==> r == Ok::<Option<T>, JsError>(self.data),
            !self.ok ==> (r matches Err(JsError::Exception { message, stack }) && stack
                == self.stack && message@ == self.failure_message()),
    {
        if self.ok {
            Ok(self.data)
        } else {
            let message = match self.error {
                Some(e) => e,
                None => String::from_str("Unknown JS error"),
            };
            Err(JsError::Exception { message, stack: self.stack })
        }
    }
}

/// `x + 1`, wrapping to 0 past `u64::MAX`.
pub open spec fn wrapping_succ(x: u64) -> u64 {
    if x == u64::MAX {
        0
    } else {
        (x + 1) as u64
    }
}

/// The interop runtime's counters: the module epoch, which invalidates
/// every injected JS module when it moves, and the source of watcher
/// subscription ids. Both start at 1 and, like atomic `fetch_add`, wrap on
/// overflow.
#[derive(Debug)]
pub struct InteropRuntime {
    epoch: u64,
    next_sub_id: u64,
}

impl InteropRuntime {
    /// The current module epoch.
    pub closed spec fn epoch(self) -> u64 {
        self.epoch
    }

    /// The id that the next subscription receives.
    pub closed spec fn next_sub_id(self) -> u64 {
        self.next_sub_id
    }

    /// A runtime at epoch 1 whose first subscription id is 1.
    pub fn new() -> (rt: Self)
        ensures
            rt.epoch() == 1,
            rt.next_sub_id() == 1,
    {
        InteropRuntime { epoch: 1, next_sub_id: 1 }
    }
}

/// The current module epoch.
pub fn current_epoch(rt: &InteropRuntime) -> (e: u64)
    ensures
        e == rt.epoch(),
{
    rt.epoch
}

/// Hands out a subscription id: the current counter, which then moves on.
pub fn next_subscription_id(rt: &mut InteropRuntime) -> (id: u64)
    ensures
        id == old(rt).next_sub_id(),
        final(rt).next_sub_id() == wrapping_succ(old(rt).next_sub_id()),
        final(rt).epoch() == old(rt).epoch(),
{
    let id = rt.next_sub_id;
    rt.next_sub_id = rt.next_sub_id.wrapping_add(1);
    id
}

/// Moves the module epoch on, so that every bound JS module is evaluated
/// and registered again before its next use. Running watchers are left
/// alone.
pub fn clear_js_cache(rt: &mut InteropRuntime)
    ensures
        final(rt).epoch() == wrapping_succ(old(rt).epoch()),
        final(rt).next_sub_id() == old(rt).next_sub_id(),
{
    rt.epoch = rt.epoch.wrapping_add(1);
}

/// The former name of [`clear_js_cache`].
pub fn reset_module_registry(rt: &mut InteropRuntime)
    ensures
        final(rt).epoch() == wrapping_succ(old(rt).epoch()),
        final(rt).next_sub_id() == old(rt).next_sub_id(),
{
    clear_js_cache(rt)
}

/// The epoch at which one bound JS module was last evaluated in the
/// browser; 0 when it never was or when it must be evaluated again.
#[derive(Debug)]
pub struct ModuleCache {
    loaded_epoch: u64,
}

impl ModuleCache {
    /// The epoch of the last evaluation.
    pub closed spec fn loaded_epoch(self) -> u64 {
        self.loaded_epoch
    }

    /// A module not yet evaluated.
    pub fn new() -> (c: Self)
        ensures
            c.loaded_epoch() == 0,
    {
        ModuleCache { loaded_epoch: 0 }
    }

    /// Whether the module must be evaluated before a call: exactly when its
    /// last evaluation was at another epoch than the current one. The
    /// module is then recorded as evaluated at the current epoch.
    pub fn ensure_module(&mut self, rt: &InteropRuntime) -> (load: bool)
        ensures
            load == (old(self).loaded_epoch() != rt.epoch()),
            final(self).loaded_epoch() == rt.epoch(),
    {
        let current = current_epoch(rt);
        if self.loaded_epoch != current {
            self.loaded_epoch = current;
            true
        } else {
            false
        }
    }

    /// Marks the module as needing evaluation, as when the browser reports
    /// it missing.
    pub fn invalidate(&mut self)
        ensures
            final(self).loaded_epoch() == 0,
    {
        self.loaded_epoch = 0;
    }
}

/// The stage of a query call.
#[derive(Clone, Copy, Debug, PartialEq, Eq, Structural)]
pub enum QueryPhase {
    /// The first attempt.
    FirstAttempt,
    /// The single retry after the module was evaluated again.
    AfterReload,
}

/// What a query call does with the response it received.
#[derive(Clone, Copy, Debug, PartialEq, Eq, Structural)]
pub enum QueryStep {
    /// Decode the response into the call's result.
    Decode,
    /// Invalidate the module, evaluate it again and retry once.
    ReloadAndRetry,
    /// Fail with `JsError::ModuleUnavailable`.
    ModuleUnavailable,
}

/// The error code by which the browser reports a module that is not loaded.
pub open spec fn module_not_found_code() -> Seq<char> {
    "MODULE_NOT_FOUND"@
}

/// The error code by which the browser reports a module that cannot load.
pub open spec fn module_unavailable_code() -> Seq<char> {
    "MODULE_UNAVAILABLE"@
}

/// The error code of a failed response, if any.
pub open spec fn failure_code<T>(resp: RpcResponse<T>) -> Option<Seq<char>> {
    if !resp.ok && resp.error is Some {
        Some(resp.error->0@)
    } else {
        None
    }
}

/// The step a query takes on a response: on the first attempt, a
/// missing-module report triggers one reload and retry; after the reload, a
/// missing or unavailable module fails the call; every other response is
/// decoded.
pub open spec fn query_step_spec<T>(phase: QueryPhase, resp: RpcResponse<T>) -> QueryStep {
    match phase {
        QueryPhase::FirstAttempt => if failure_code(resp) == Some(module_not_found_code()) {
            QueryStep::ReloadAndRetry
        } else {
            QueryStep::Decode
        },
        QueryPhase::AfterReload => if failure_code(resp) == Some(module_not_found_code())
            || failure_code(resp) == Some(module_unavailable_code()) {
            QueryStep::ModuleUnavailable
        } else {
            QueryStep::Decode
        },
    }
}

/// Chooses what a query call does with a response.
pub fn query_next_step<T>(phase: QueryPhase, resp: &RpcResponse<T>) -> (step: QueryStep)
    ensures
        step == query_step_spec(phase, *resp),
{
    let not_found = String::from_str("MODULE_NOT_FOUND");
    let unavailable = String::from_str("MODULE_UNAVAILABLE");
    let code = if !resp.ok {
        match &resp.error {
            Some(e) => Some(e),
            None => None,
        }
    } else {
        None
    };
    match phase {
        QueryPhase::FirstAttempt => match code {
            Some(e) => if *e == not_found {
                QueryStep::ReloadAndRetry
            } else {
                QueryStep::Decode
            },
            None => QueryStep::Decode,
        },
        QueryPhase::AfterReload => match code {
            Some(e) => if *e == not_found || *e == unavailable {
                QueryStep::ModuleUnavailable
            } else {
                QueryStep::Decode
            },
            None => QueryStep::Decode,
        },
    }
}

/// `r` is what the payload of `resp` decodes to: the data of a successful
/// response, or an `Exception` carrying the error text (or "Unknown JS
/// error") and the stack of a failed one.
pub open spec fn is_payload_of<T>(r: Result<Option<T>, JsError>, resp: RpcResponse<T>) -> bool {
    &&& resp.ok ==> r == Ok::<Option<T>, JsError>(resp.data)
    &&& !resp.ok ==> (r matches Err(JsError::Exception { message, stack }) && stack == resp.stack
        && message@ == resp.failure_message())
}

/// How a query call goes on after its first answer frame.
#[derive(Debug)]
pub enum QueryOutcome<T> {
    /// The call ends with this result.
    Finished(Result<Option<T>, JsError>),
    /// The module was reported missing: it was invalidated, and the call
    /// must evaluate it again when `reload` is set, then ask once more.
    Retry { reload: bool },
}

/// Settles a query's first answer frame. A missing-module report
/// invalidates the module, records it as evaluated again at the current
/// epoch and asks for one retry (`reload` tells whether the module must be
/// evaluated, which is so unless the epoch has wrapped round to 0); any
/// other frame ends the call with its payload, the module left as it was.
pub fn settle_first_answer<T>(resp: RpcResponse<T>, cache: &mut ModuleCache, rt: &InteropRuntime) -> (out:
    QueryOutcome<T>)
    ensures
        query_step_spec(QueryPhase::FirstAttempt, resp) == QueryStep::ReloadAndRetry ==> (out
            == QueryOutcome::<T>::Retry { reload: rt.epoch() != 0 } && final(cache).loaded_epoch()
            == rt.epoch()),
        query_step_spec(QueryPhase::FirstAttempt, resp) != QueryStep::ReloadAndRetry ==> (out matches QueryOutcome::Finished(r)
            && is_payload_of(r, resp) && final(cache).loaded_epoch() == old(cache).loaded_epoch()),
{
    match query_next_step(QueryPhase::FirstAttempt, &resp) {
        QueryStep::ReloadAndRetry => {
            cache.invalidate();
            let reload = cache.ensure_module(rt);
            QueryOutcome::Retry { reload }
        },
        _ => QueryOutcome::Finished(resp.into_payload()),
    }
}

/// Settles the answer frame of a query's retry: a module still reported
/// missing or unavailable fails the call with `ModuleUnavailable` carrying
/// the module's hash; any other frame ends it with its payload.
pub fn settle_retry_answer<T>(resp: RpcResponse<T>, module_hash: &str) -> (r: Result<Option<T>, JsError>)
    ensures
        query_step_spec(QueryPhase::AfterReload, resp) == QueryStep::ModuleUnavailable ==> (r matches Err(
            JsError::ModuleUnavailable(h),
        ) && h@ == module_hash@),
        query_step_spec(QueryPhase::AfterReload, resp) != QueryStep::ModuleUnavailable ==> is_payload_of(
            r,
            resp,
        ),
{
    match query_next_step(QueryPhase::AfterReload, &resp) {
        QueryStep::ModuleUnavailable => Err(JsError::ModuleUnavailable(String::from_str(module_hash))),
        _ => resp.into_payload(),
    }
}

/// What a watcher does with an event frame from the browser.
#[derive(Clone, Copy, Debug, PartialEq, Eq, Structural)]
pub enum WatcherEventAction {
    /// Decode the frame and hand it to the event callback.
    Deliver,
    /// The module is gone: invalidate it and end the subscription.
    StopAndInvalidate,
}

/// Chooses what a watcher does with an event frame, given the text of the
/// frame's `__bindgen_err` field, if it has one: a missing-module report
/// ends the subscription; anything else is delivered.
pub fn watcher_event_action(bindgen_err: Option<&str>) -> (a: WatcherEventAction)
    ensures
        a == (if bindgen_err matches Some(e) && e@ == module_not_found_code() {
            WatcherEventAction::StopAndInvalidate
        } else {
            WatcherEventAction::Deliver
        }),
{
    match bindgen_err {
        Some(e) => {
            if String::from_str(e) == String::from_str("MODULE_NOT_FOUND") {
                WatcherEventAction::StopAndInvalidate
            } else {
                WatcherEventAction::Deliver
            }
        },
        None => WatcherEventAction::Deliver,
    }
}

/// Self-healing is bounded: after the one reload, a query never asks for
/// another, and a first attempt reloads only on a missing-module report.
pub proof fn law_query_reloads_at_most_once<T>(resp: RpcResponse<T>)
    ensures
        query_step_spec(QueryPhase::AfterReload, resp) != QueryStep::ReloadAndRetry,
        query_step_spec(QueryPhase::FirstAttempt, resp) != QueryStep::ModuleUnavailable,
        query_step_spec(QueryPhase::FirstAttempt, resp) == QueryStep::ReloadAndRetry ==> (!resp.ok
            && resp.error->0@ == module_not_found_code()),
        resp.ok ==> query_step_spec(QueryPhase::FirstAttempt, resp) == QueryStep::Decode
            && query_step_spec(QueryPhase::AfterReload, resp) == QueryStep::Decode,
{
}

/// Clearing the cache invalidates every module that was up to date: the
/// epoch moves to a value that differs from the one the module was loaded
/// at, so its next use evaluates it again. A module that is up to date is
/// not evaluated again.
pub proof fn law_clear_js_cache_forces_reload(rt: InteropRuntime, cache: ModuleCache)
    requires
        cache.loaded_epoch() == rt.epoch(),
    ensures
        wrapping_succ(rt.epoch()) != cache.loaded_epoch(),
{
}

/// A module invalidated after a missing-module report is evaluated again on
/// its next use, unless the epoch has wrapped round to 0.
pub proof fn law_invalidated_module_reloads(rt: InteropRuntime, cache: ModuleCache)
    requires
        cache.loaded_epoch() == 0,
        rt.epoch() != 0,
    ensures
        cache.loaded_epoch() != rt.epoch(),
{
}

/// Consecutive subscription ids differ, and they increase until the
/// counter wraps past `u64::MAX`.
pub proof fn law_subscription_ids_advance(id: u64)
    ensures
        wrapping_succ(id) != id,
        id < u64::MAX ==> wrapping_succ(id) == id + 1,
{
}

} // verus!

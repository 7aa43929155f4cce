# oxidase (verified core)

The decision-making core of oxidase, a JS/TS interop and frame-scheduling
runtime for Dioxus, written in Verus.

- `src/frame/`: the native frame registry. `model.rs` gives its mathematical
  model (`FrameModel`) and each operation as a transition of that model;
  `native.rs` holds the registry and its operations, each proved to perform
  its transition, and what each callback and the host requester are
  handed; `laws.rs` proves the properties that span operations over any
  sequence of them (each registration served once per frame, cancelled
  registrations never served, frames pending exactly while some
  registration is on, idle hosts never asked for redraws, the clock
  monotonic). A frame can also be served step by step
  (`begin_frame`, `next_frame_call`, `return_loop_callback`), so that the
  callbacks it invokes may register and cancel while it runs.
- `src/interop.rs`: the interop error taxonomy, RPC response frames, the
  module epoch and per-module load cache, subscription ids, and the query
  and watcher protocol decisions, including how a query call settles its
  one or two answer frames.
- `src/bindings.rs`: classification of exported functions and the plan of
  bindings for a module, matching names across casing conventions.
- `src/codegen.rs`: the text work of binding generation: template filling
  and cutting at markers, the module plan with its ensure function and
  epoch static, generated item names, payloads and parameter names.
- `src/main_macro.rs`, `src/runner.rs`, `src/launch.rs`, `src/dom.rs`: the
  decisions of the `#[main]` rewrite and of the native proof runner, host
  helpers, and the DOM handles of hosts without a DOM.
- `src/time.rs`: the std time values the registry works with.
- `app/`: the host side: a thread-wide registry with drop-cancelling guards,
  Dioxus hooks, browser script evaluation, serde/thiserror copies of the
  wire types, `f32` geometry and the syn-level `#[main]` rewrite.

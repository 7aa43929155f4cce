//! Frame scheduling, JS interop bookkeeping and binding planning, with
//! their contracts proved by Verus.

pub mod bindings;
pub mod codegen;
pub mod dom;
pub mod frame;
pub mod interop;
pub mod launch;
pub mod main_macro;
pub mod prelude;
pub mod runner;
pub mod time;
pub mod watcher_guard;

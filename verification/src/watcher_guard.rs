//! The lifecycle handle of a watcher subscription: it names the bound
//! function and its subscription, and hands out the teardown work exactly
//! once however often it is stopped.

use dioxus::dioxus_core::Task;
use vstd::prelude::*;

verus! {

/// A task spawned on the Dioxus runtime, carried through and never looked
/// into.
#[verifier::external_type_specification]
#[verifier::external_body]
pub struct ExTask(Task);

/// The teardown that stopping a watcher calls for: cancel its event task,
/// if it has one, and run the browser cleanup of its subscription.
#[derive(Debug)]
pub struct Teardown {
    pub subscription_id: u64,
    pub task: Option<Task>,
}

/// Lifecycle handle of a watcher subscription.
#[derive(Debug)]
pub struct WatcherGuard {
    name: String,
    subscription_id: u64,
    task: Option<Task>,
    stopped: bool,
}

impl WatcherGuard {
    /// The bound function's name.
    pub closed spec fn spec_name(self) -> Seq<char> {
        self.name@
    }

    /// The subscription's id.
    pub closed spec fn spec_subscription_id(self) -> u64 {
        self.subscription_id
    }

    /// The event task.
    pub closed spec fn spec_task(self) -> Option<Task> {
        self.task
    }

    /// Whether the watcher has been stopped.
    pub closed spec fn is_stopped(self) -> bool {
        self.stopped
    }

    /// A running watcher of the function `name` under `subscription_id`,
    /// whose events `task` receives.
    pub fn new(name: &str, subscription_id: u64, task: Option<Task>) -> (g: Self)
        ensures
            g.spec_name() == name@,
            g.spec_subscription_id() == subscription_id,
            g.spec_task() == task,
            !g.is_stopped(),
    {
        WatcherGuard { name: String::from_str(name), subscription_id, task, stopped: false }
    }

    /// The bound function's name.
    pub fn name(&self) -> (r: &str)
        ensures
            r@ == self.spec_name(),
    {
        self.name.as_str()
    }

    /// The subscription's id.
    pub fn subscription_id(&self) -> (r: u64)
        ensures
            r == self.spec_subscription_id(),
    {
        self.subscription_id
    }

    /// Stops the watcher. The first call hands out the teardown of the
    /// subscription; every later call hands out nothing.
    pub fn stop(&mut self) -> (r: Option<Teardown>)
        ensures
            final(self).is_stopped(),
            final(self).spec_name() == old(self).spec_name(),
            final(self).spec_subscription_id() == old(self).spec_subscription_id(),
            old(self).is_stopped() ==> r is None,
            !old(self).is_stopped() ==> (r matches Some(t) && t.subscription_id
                == old(self).spec_subscription_id() && t.task == old(self).spec_task()),
    {
        if self.stopped {
            None
        } else {
            self.stopped = true;
            let task = self.task;
            self.task = None;
            Some(Teardown { subscription_id: self.subscription_id, task })
        }
    }
}

} // verus!

//! Process-wide lifecycle state: a one-shot cancellation flag shared (by the
//! embedding application) with every worker thread.
//!
//! The flag is owned explicitly and handed to each worker at spawn time; the
//! embedding application decides how to share it (for example behind a mutex).

use vstd::prelude::*;

verus! {

/// The runtime lifecycle state: `running` is true from creation until the
/// single teardown point; workers poll it at each loop-iteration boundary and
/// exit once it turns false.
pub struct Runtime {
    running: bool,
}

/// Create the initial runtime state, with the flag in its "keep running"
/// sense, so that a freshly started worker does not exit immediately.
pub fn get_runtime() -> (r: Runtime)
    ensures
        r.spec_running(),
{
    Runtime { running: true }
}

impl Runtime {
    /// The value of the cancellation flag as a spec-level view.
    pub closed spec fn spec_running(&self) -> bool {
        self.running
    }

    /// The freshly initialized runtime state; workers started under it run.
    pub fn singleton() -> (r: Runtime)
        ensures
            r.spec_running(),
    {
        get_runtime()
    }

    /// True while no teardown has been requested.
    pub fn running(&self) -> (r: bool)
        ensures
            r == self.spec_running(),
    {
        self.running
    }

    /// The single teardown point: clears the flag, one-shot; there is no
    /// restart path, so afterwards every worker loop is owed an exit.
    pub fn free(&mut self)
        ensures
            !final(self).spec_running(),
    {
        self.running = false;
    }
}

} // verus!

//! A limit on how many account tasks run at once.

use vstd::prelude::*;

verus! {

/// The most account tasks that run at once.
pub const MAX_CONCURRENT_ACCOUNT_TASKS: usize = 64;

/// The pause before a task that found no room tries again.
pub const ACCOUNT_TASK_RETRY_DELAY_MS: u64 = 10;

/// The account tasks that are running.
pub struct AccountTasks {
    in_flight: usize,
}

impl View for AccountTasks {
    type V = nat;

    closed spec fn view(&self) -> nat {
        self.in_flight as nat
    }
}

impl AccountTasks {
    /// No more tasks run than may.
    pub open spec fn wf(&self) -> bool {
        self@ <= MAX_CONCURRENT_ACCOUNT_TASKS
    }

    pub fn new() -> (t: Self)
        ensures
            t.wf(),
            t@ == 0,
    {
        AccountTasks { in_flight: 0 }
    }

    /// Let one more task run, if there is room for it.
    pub fn try_acquire(&mut self) -> (acquired: bool)
        requires
            old(self).wf(),
        ensures
            final(self).wf(),
            acquired == (old(self)@ < MAX_CONCURRENT_ACCOUNT_TASKS),
            final(self)@ == old(self)@ + (if acquired {
                1nat
            } else {
                0nat
            }),
    {
        if self.in_flight < MAX_CONCURRENT_ACCOUNT_TASKS {
            self.in_flight = self.in_flight + 1;
            true
        } else {
            false
        }
    }

    /// A task has ended.
    pub fn release(&mut self)
        requires
            old(self).wf(),
            old(self)@ > 0,
        ensures
            final(self).wf(),
            final(self)@ == old(self)@ - 1,
    {
        self.in_flight = self.in_flight - 1;
    }
}

} // verus!

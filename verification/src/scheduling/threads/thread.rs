//! Threads.
use vstd::prelude::*;
use super::state::CpuState;
use crate::memory::stacks::KThreadStack;

verus! {

/// A thread identifier
pub type ThreadID = u32;

/// A process identifier
pub type ProcessID = u32;

/// An individual, scheduable thread of execution
pub struct Thread {
    /// The thread state
    pub state: CpuState,
    /// The thread's entrypoint. Used by the scheduler to start it
    pub entry_point: u64,
    /// How many times the thread has been scheduled. If 0, the thread hasn't
    /// been started
    pub runs: usize,
    /// The thread's stack, if its a kernel thread, or kernel stack, if its a
    /// user thread
    pub kstack: KThreadStack,
    /// The thread's process, if its a user thread
    pub process: Option<ProcessID>,
}

impl Thread {
    /// Creates a thread that has not run yet, given its initial state, entry
    /// point and stack. Optionally takes a process ID, if its a user thread.
    pub fn new_thread(state: CpuState, entry_point: u64, kstack: KThreadStack, proc: Option<
        ProcessID,
    >) -> (t: Self)
        ensures
            t.state == state,
            t.entry_point == entry_point,
            t.runs == 0,
            t.kstack == kstack,
            t.process == proc,
    {
        Thread { state, entry_point, runs: 0, kstack, process: proc }
    }

    /// Returns whether the thread  has been started
    pub fn started(&self) -> (b: bool)
        ensures
            b == (self.runs != 0),
    {
        self.runs != 0
    }

    /// Returns the number of times this thread has been scheduled
    pub fn runs(&self) -> (r: usize)
        ensures
            r == self.runs,
    {
        self.runs
    }

    /// Increments the `runs` counter
    pub fn add_run(&mut self)
        requires
            old(self).runs < usize::MAX,
        ensures
            final(self).runs == old(self).runs + 1,
            final(self).state == old(self).state,
            final(self).entry_point == old(self).entry_point,
            final(self).kstack == old(self).kstack,
            final(self).process == old(self).process,
    {
        self.runs = self.runs + 1
    }

    /// The thread's process, if it is a user thread.
    pub fn proccess(&self) -> (r: Option<ProcessID>)
        ensures
            r == self.process,
    {
        self.process
    }

    /// The top of the thread's kernel stack.
    pub fn stack_top(&self) -> (r: u64)
        ensures
            r == self.kstack.spec_top(),
    {
        self.kstack.top()
    }
}

} // verus!

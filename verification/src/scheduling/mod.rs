//! Scheduling subsystem (scheduler, threads)
use vstd::prelude::*;
use threads::state::CpuState;
use threads::table::{with_run, with_state};
use threads::{ProcessID, Thread, ThreadID, ThreadTable};

/// Threads
pub mod threads;

verus! {

/// What the scheduler is currently up to.
#[derive(Debug, Clone, Copy, PartialEq, Eq, Structural)]
pub enum SchedulerState {
    /// The scheduler has not been started
    NotStarted,
    /// The scheduler is running the idle thread
    Idle,
    /// The scheduler is running this thread
    Running(ThreadID),
}

/// The main scheduler, in charge of scheduling kernel and user threads
pub struct Scheduler {
    /// A map owning all threads and allocating their IDs
    threads: ThreadTable,
    /// A list of all runable threads
    runnable: Vec<ThreadID>,
    /// What the scheduler is currently up to. See rustdoc on `SchedulerState`
    /// for more info.
    status: SchedulerState,
    /// A dummy wait thread that just idles. Used if there are no other threads
    /// to run
    idle_thread: Thread,
    /// The ~thread graveyard~ (spooky)
    ///
    /// Threads that are due to be killed (pushed to be `kill_thread`). Processed
    /// on each schedule call.
    graveyard: Vec<ThreadID>,
}

/// An object representing ownership over a blocked thread, to be handed back
/// to [`Scheduler::unblock_thread`] to unblock it.
pub struct BlockedThread {
    thread: ThreadID,
}

impl BlockedThread {
    pub closed spec fn spec_thread(&self) -> ThreadID {
        self.thread
    }

    /// The blocked thread.
    pub fn thread(&self) -> (r: ThreadID)
        ensures
            r == self.spec_thread(),
    {
        self.thread
    }
}

/// What has to be done outside the scheduler to switch threads.
pub struct SwitchActions {
    /// The process whose user page tables must be saved (that of the thread
    /// switched away from).
    pub save_process: Option<ProcessID>,
    /// The process whose user page tables must be loaded (that of the thread
    /// switched to).
    pub load_process: Option<ProcessID>,
    /// The kernel stack to use for system calls of the thread switched to,
    /// if it is a user thread.
    pub syscall_stack: Option<u64>,
    /// Whether to swap the GS base (when switching between user and kernel
    /// mode).
    pub swap_gs: bool,
    /// The threads that died, removed from the scheduler, whose resources
    /// are to be released.
    pub dead: Vec<Thread>,
}

/// The threads left once those in `graveyard[..j]` are removed.
pub open spec fn without_dead(m: Map<ThreadID, Thread>, graveyard: Seq<ThreadID>, j: int) -> Map<ThreadID, Thread> {
    Map::new(
        |id: ThreadID| m.dom().contains(id) && !(exists|k: int| 0 <= k < j && #[trigger] graveyard[k] == id),
        |id: ThreadID| m[id],
    )
}

/// The thread the scheduler switched to, if any.
pub open spec fn running_thread(s: SchedulerState) -> Option<ThreadID> {
    match s {
        SchedulerState::Running(n) => Some(n),
        _ => None,
    }
}

/// `i` is the position of the first runnable thread with the fewest runs.
pub open spec fn is_first_min(r: Seq<ThreadID>, m: Map<ThreadID, Thread>, i: int) -> bool {
    &&& 0 <= i < r.len()
    &&& forall|j: int| 0 <= j < r.len() ==> m[r[i]].runs <= m[#[trigger] r[j]].runs
    &&& forall|j: int| 0 <= j < i ==> m[r[i]].runs < m[#[trigger] r[j]].runs
}

/// The threads after the switch bookkeeping: the old thread's state saved,
/// the new thread's run recorded.
pub open spec fn after_switch(
    m: Map<ThreadID, Thread>,
    old_status: SchedulerState,
    saved: CpuState,
    new_id: Option<ThreadID>,
) -> Map<ThreadID, Thread> {
    let m1 = match old_status {
        SchedulerState::Running(tid) => m.insert(tid, with_state(m[tid], saved)),
        _ => m,
    };
    match new_id {
        Some(n) => m1.insert(n, with_run(m1[n])),
        None => m1,
    }
}

impl Scheduler {
    pub closed spec fn threads(&self) -> Map<ThreadID, Thread> {
        self.threads.map()
    }

    pub closed spec fn next_id(&self) -> nat {
        self.threads.next_id()
    }

    pub closed spec fn runnable(&self) -> Seq<ThreadID> {
        self.runnable@
    }

    pub closed spec fn graveyard(&self) -> Seq<ThreadID> {
        self.graveyard@
    }

    pub closed spec fn status(&self) -> SchedulerState {
        self.status
    }

    pub closed spec fn idle(&self) -> Thread {
        self.idle_thread
    }

    /// The scheduler's bookkeeping is consistent: runnable and dying threads
    /// exist, none is listed twice, no thread is both, and the running
    /// thread exists.
    pub open spec fn wf(&self) -> bool {
        &&& forall|i: int|
            0 <= i < self.runnable().len() ==> self.threads().dom().contains(
                #[trigger] self.runnable()[i],
            )
        &&& forall|i: int|
            0 <= i < self.graveyard().len() ==> self.threads().dom().contains(
                #[trigger] self.graveyard()[i],
            )
        &&& self.runnable().no_duplicates()
        &&& self.graveyard().no_duplicates()
        &&& forall|i: int|
            0 <= i < self.graveyard().len() ==> !self.runnable().contains(
                #[trigger] self.graveyard()[i],
            )
        &&& self.status() matches SchedulerState::Running(tid) ==> self.threads().dom().contains(
            tid,
        )
    }

    /// No thread's run count (nor the idle thread's) is at its limit.
    pub open spec fn runs_bounded(&self) -> bool {
        &&& forall|id: ThreadID| #[trigger]
            self.threads().dom().contains(id) ==> self.threads()[id].runs < usize::MAX
        &&& self.idle().runs < usize::MAX
    }

    /// Creates the `Scheduler` with no threads to run
    pub fn new(idle_thread: Thread) -> (s: Scheduler)
        ensures
            s.wf(),
            s.threads() == Map::<ThreadID, Thread>::empty(),
            s.next_id() == 0,
            s.runnable() == Seq::<ThreadID>::empty(),
            s.graveyard() == Seq::<ThreadID>::empty(),
            s.status() == SchedulerState::NotStarted,
            s.idle() == idle_thread,
    {
        Scheduler {
            threads: ThreadTable::new(),
            runnable: Vec::new(),
            status: SchedulerState::NotStarted,
            idle_thread,
            graveyard: Vec::new(),
        }
    }

    /// Add a thread to the runnable queue and returns its new ID
    pub fn add_thread(&mut self, thread: Thread) -> (id: ThreadID)
        requires
            old(self).wf(),
            old(self).next_id() < u32::MAX,
        ensures
            final(self).wf(),
            id == old(self).next_id(),
            !old(self).threads().dom().contains(id),
            final(self).threads() == old(self).threads().insert(id, thread),
            final(self).next_id() == old(self).next_id() + 1,
            final(self).runnable() == old(self).runnable().push(id),
            final(self).graveyard() == old(self).graveyard(),
            final(self).status() == old(self).status(),
            final(self).idle() == old(self).idle(),
    {
        proof {
            self.threads.lemma_ids_below_next();
        }
        let id = self.threads.add_thread(thread);
        self.runnable.push(id);
        proof {
            assert forall|i: int|
                0 <= i < self.graveyard().len() implies !self.runnable().contains(
                #[trigger] self.graveyard()[i],
            ) by {
                assert(self.graveyard()[i] != id);
                if self.runnable().contains(self.graveyard()[i]) {
                    let k = choose|k: int| 0 <= k < self.runnable().len() && self.runnable()[k] == self.graveyard()[i];
                    assert(old(self).runnable()[k] == self.graveyard()[i]);
                }
            }
            assert forall|i: int, j: int|
                0 <= i < self.runnable().len() && 0 <= j < self.runnable().len() && i != j implies self.runnable()[i]
                != self.runnable()[j] by {
                if i < old(self).runnable().len() && j < old(self).runnable().len() {
                } else if i < old(self).runnable().len() {
                    assert(old(self).threads().dom().contains(self.runnable()[i]));
                } else {
                    assert(old(self).threads().dom().contains(self.runnable()[j]));
                }
            }
        }
        id
    }

    /// Get a thread by ID if it exists
    pub fn get_thread(&self, id: ThreadID) -> (r: Option<&Thread>)
        ensures
            self.threads().dom().contains(id) ==> r == Some(&self.threads()[id]),
            !self.threads().dom().contains(id) ==> r is None,
    {
        self.threads.get_thread(id)
    }

    /// Returns the ID of the currently running thread, if the scheduler is
    /// running one
    pub fn currently_running(&self) -> (r: Option<ThreadID>)
        ensures
            r == match self.status() {
                SchedulerState::Running(tid) => Some(tid),
                _ => None,
            },
    {
        match self.status {
            SchedulerState::Running(tid) => Some(tid),
            _ => None,
        }
    }

    /// Runs a round of the scheduler, picking a new thread to run: the
    /// first runnable thread with the fewest runs, or the idle thread if
    /// none is runnable.
    ///
    /// `state` is the `CpuState` that spawned this interrupt: it is saved to
    /// the old thread and replaced with that of the new one. Threads queued
    /// to die are removed and handed back in the result, with the other
    /// work a thread switch needs done outside the scheduler.
    pub fn schedule(&mut self, state: &mut CpuState) -> (acts: SwitchActions)
        requires
            old(self).wf(),
            old(self).runs_bounded(),
        ensures
            final(self).wf(),
            old(self).runnable().len() == 0 ==> final(self).status() == SchedulerState::Idle,
            old(self).runnable().len() > 0 ==> (final(self).status() matches SchedulerState::Running(n)
                && exists|i: int|
                is_first_min(old(self).runnable(), old(self).threads(), i) && old(self).runnable()[i]
                    == n),
            ({
                let new_id = running_thread(final(self).status());
                let m2 = after_switch(old(self).threads(), old(self).status(), *old(state), new_id);
                let idle1 = if old(self).status() == SchedulerState::Idle {
                    with_state(old(self).idle(), *old(state))
                } else {
                    old(self).idle()
                };
                let was_user = match old(self).status() {
                    SchedulerState::Running(tid) => old(self).threads()[tid].process is Some
                        && old(state).spec_is_user(),
                    _ => false,
                };
                &&& final(self).threads() == without_dead(
                    m2,
                    old(self).graveyard(),
                    old(self).graveyard().len() as int,
                )
                &&& final(self).idle() == if new_id is None {
                    with_run(idle1)
                } else {
                    idle1
                }
                &&& *final(state) == match new_id {
                    Some(n) => m2[n].state,
                    None => idle1.state,
                }
                &&& acts.save_process == match old(self).status() {
                    SchedulerState::Running(tid) => old(self).threads()[tid].process,
                    _ => None,
                }
                &&& acts.load_process == match new_id {
                    Some(n) => old(self).threads()[n].process,
                    None => None,
                }
                &&& acts.syscall_stack == match new_id {
                    Some(n) => if old(self).threads()[n].process is Some {
                        Some(old(self).threads()[n].kstack.spec_top())
                    } else {
                        None
                    },
                    None => None,
                }
                &&& acts.swap_gs == (final(state).spec_is_user() != was_user)
                &&& acts.dead@ == old(self).graveyard().map_values(|id: ThreadID| m2[id])
            }),
            final(self).runnable() == old(self).runnable(),
            final(self).graveyard() == Seq::<ThreadID>::empty(),
            final(self).next_id() == old(self).next_id(),
    {
        let ghost m0 = self.threads();
        let ghost r = self.runnable();
        let ghost g = self.graveyard();
        let ghost st0 = *state;
        let ghost status0 = self.status;
        // Pick the first runnable thread with the fewest runs
        let mut best: usize = 0;
        let mut best_runs: usize = 0;
        let mut i: usize = 0;
        while i < self.runnable.len()
            invariant
                self.wf(),
                self.threads() == m0,
                self.runnable() == r,
                i <= r.len(),
                i > 0 ==> best < i && best_runs == m0[r[best as int]].runs,
                i > 0 ==> forall|j: int| 0 <= j < i ==> m0[r[best as int]].runs <= m0[#[trigger] r[j]].runs,
                i > 0 ==> forall|j: int| 0 <= j < best ==> m0[r[best as int]].runs < m0[#[trigger] r[j]].runs,
            decreases r.len() - i,
        {
            let id = self.runnable[i];
            assert(self.threads().dom().contains(r[i as int]));
            let runs = match self.threads.get_thread(id) {
                Some(t) => t.runs(),
                None => {
                    assert(false);
                    0
                },
            };
            if i == 0 || runs < best_runs {
                best = i;
                best_runs = runs;
            }
            i = i + 1;
        }
        let new_id: Option<ThreadID> = if self.runnable.len() == 0 {
            None
        } else {
            Some(self.runnable[best])
        };
        assert(new_id matches Some(n) ==> is_first_min(r, m0, best as int) && r[best as int] == n);
        // Save state of the old thread, and track if we're coming out of
        // userland (so we know whether to swap GS)
        let mut save_process: Option<ProcessID> = None;
        let was_user = match self.status {
            SchedulerState::Running(tid) => {
                self.threads.set_state(tid, *state);
                match self.threads.get_thread(tid) {
                    Some(t) => match t.proccess() {
                        Some(pid) => {
                            save_process = Some(pid);
                            // User process threads are usually in userland,
                            // but if they get preempted (or yield) in a
                            // syscall, they're coming from kernelland
                            state.is_user()
                        },
                        // Kernel threads are always in kernelland
                        None => false,
                    },
                    None => {
                        assert(false);
                        false
                    },
                }
            },
            SchedulerState::Idle => {
                self.idle_thread.state = *state;
                // Idle thread is always in kernalland
                false
            },
            // If we're not started then obviously not coming form userlland
            SchedulerState::NotStarted => false,
        };
        let ghost m1 = self.threads();
        // Load in state of the new thread
        let mut load_process: Option<ProcessID> = None;
        let mut syscall_stack: Option<u64> = None;
        match new_id {
            Some(id) => {
                self.status = SchedulerState::Running(id);
                assert(m1.dom().contains(id));
                match self.threads.get_thread(id) {
                    Some(t) => match t.proccess() {
                        Some(pid) => {
                            load_process = Some(pid);
                            // Save to GS for syscalls
                            syscall_stack = Some(t.stack_top());
                        },
                        None => {},
                    },
                    None => {
                        assert(false);
                    },
                }
                self.threads.add_run(id);
                match self.threads.get_thread(id) {
                    Some(t) => {
                        *state = t.state;
                    },
                    None => {
                        assert(false);
                    },
                }
            },
            None => {
                self.status = SchedulerState::Idle;
                self.idle_thread.add_run();
                *state = self.idle_thread.state;
            },
        }
        let ghost m2 = self.threads();
        let ghost status2 = self.status;
        let ghost idle2 = self.idle_thread;
        assert(m2 == after_switch(m0, status0, st0, new_id));
        assert(status2 == match new_id {
            Some(n) => SchedulerState::Running(n),
            None => SchedulerState::Idle,
        });
        // If we're leaving user and entering kernel, or vice versa, swap GS
        let swap_gs = state.is_user() != was_user;
        // Kill threads in the ~graveyard~
        let mut dead: Vec<Thread> = Vec::new();
        let mut j: usize = 0;
        assert(self.threads() =~= without_dead(m2, g, 0));
        while j < self.graveyard.len()
            invariant
                self.graveyard() == g,
                self.runnable() == r,
                self.status == status2,
                self.idle_thread == idle2,
                g.no_duplicates(),
                forall|k: int| 0 <= k < g.len() ==> m2.dom().contains(#[trigger] g[k]),
                j <= g.len(),
                self.threads() == without_dead(m2, g, j as int),
                self.next_id() == old(self).next_id(),
                dead@ == g.take(j as int).map_values(|id: ThreadID| m2[id]),
            decreases g.len() - j,
        {
            let dead_tid = self.graveyard[j];
            let ghost before = self.threads();
            assert(before.dom().contains(dead_tid)) by {
                assert(m2.dom().contains(g[j as int]));
                assert forall|k: int| 0 <= k < j implies g[k] != dead_tid by {}
            }
            let t = match self.threads.remove_thread(dead_tid) {
                Some(t) => t,
                None => {
                    assert(false);
                    return SwitchActions { save_process, load_process, syscall_stack, swap_gs, dead };
                },
            };
            dead.push(t);
            proof {
                assert(self.threads() =~= without_dead(m2, g, j + 1)) by {
                    assert forall|id: ThreadID| #![trigger without_dead(m2, g, j + 1).dom().contains(id)] (exists|k: int| 0 <= k < j + 1 && #[trigger] g[k] == id) <==> ((exists|k: int| 0 <= k < j && #[trigger] g[k] == id) || id == dead_tid) by {
                        if id == dead_tid {
                            assert(g[j as int] == id);
                        }
                    }
                }
                assert(g.take(j + 1).map_values(|id: ThreadID| m2[id]) =~= g.take(j as int).map_values(|id: ThreadID| m2[id]).push(m2[dead_tid]));
            }
            j = j + 1;
        }
        assert(g.take(g.len() as int) =~= g);
        self.graveyard = Vec::new();
        proof {
            let new_m = self.threads();
            assert forall|k: int| 0 <= k < r.len() implies new_m.dom().contains(#[trigger] r[k]) by {
                assert(m0.dom().contains(r[k]));
                assert forall|q: int| 0 <= q < g.len() implies g[q] != r[k] by {
                    assert(!r.contains(g[q]));
                }
            }
            match self.status {
                SchedulerState::Running(n) => {
                    assert(r[best as int] == n);
                },
                _ => {},
            }
        }
        SwitchActions { save_process, load_process, syscall_stack, swap_gs, dead }
    }

    /// The position of `thread` in the run queue, if it is there.
    fn runnable_position(&self, thread: ThreadID) -> (r: Option<usize>)
        ensures
            match r {
                Some(i) => i < self.runnable().len() && self.runnable()[i as int] == thread
                    && forall|k: int| 0 <= k < i ==> self.runnable()[k] != thread,
                None => !self.runnable().contains(thread),
            },
    {
        let mut i: usize = 0;
        while i < self.runnable.len()
            invariant
                i <= self.runnable().len(),
                forall|k: int| 0 <= k < i ==> self.runnable()[k] != thread,
            decreases self.runnable().len() - i,
        {
            if self.runnable[i] == thread {
                return Some(i);
            }
            i = i + 1;
        }
        None
    }

    /// Whether no thread's run count (nor the idle thread's) is at its
    /// limit, so [`Self::schedule`] can run.
    pub fn runs_within_limit(&self) -> (r: bool)
        ensures
            r == self.runs_bounded(),
    {
        self.idle_thread.runs < usize::MAX && self.threads.runs_below_max()
    }


    /// Whether another thread can be added (thread IDs are not exhausted).
    pub fn has_free_id(&self) -> (r: bool)
        ensures
            r == (self.next_id() < u32::MAX),
    {
        self.threads.has_free_id()
    }

    /// Whether `thread` is in the run queue.
    pub fn is_runnable(&self, thread: ThreadID) -> (r: bool)
        ensures
            r == self.runnable().contains(thread),
    {
        match self.runnable_position(thread) {
            Some(_) => true,
            None => false,
        }
    }

    /// Whether `thread` is queued to die.
    pub fn is_dying(&self, thread: ThreadID) -> (r: bool)
        ensures
            r == self.graveyard().contains(thread),
    {
        let mut j: usize = 0;
        while j < self.graveyard.len()
            invariant
                j <= self.graveyard().len(),
                forall|k: int| 0 <= k < j ==> self.graveyard()[k] != thread,
            decreases self.graveyard().len() - j,
        {
            if self.graveyard[j] == thread {
                return true;
            }
            j = j + 1;
        }
        false
    }

    /// Blocks the given thread and returns a `BlockedThread`.
    ///
    /// The thread must be runnable.
    pub fn block_thread(&mut self, thread: ThreadID) -> (b: BlockedThread)
        requires
            old(self).wf(),
            old(self).runnable().contains(thread),
        ensures
            final(self).wf(),
            b.spec_thread() == thread,
            final(self).runnable() == old(self).runnable().remove(
                old(self).runnable().index_of(thread),
            ),
            !final(self).runnable().contains(thread),
            final(self).threads() == old(self).threads(),
            final(self).next_id() == old(self).next_id(),
            final(self).graveyard() == old(self).graveyard(),
            final(self).status() == old(self).status(),
            final(self).idle() == old(self).idle(),
    {
        let ghost r = self.runnable();
        match self.runnable_position(thread) {
            Some(i) => {
                proof {
                    assert(r.index_of(thread) == i as int) by {
                        assert(r.no_duplicates());
                    }
                }
                self.runnable.remove(i);
                proof {
                    let r2 = self.runnable();
                    assert(r2 =~= r.remove(i as int));
                    assert forall|k: int| 0 <= k < r2.len() implies #[trigger] r2[k] != thread by {
                        if k < i {
                        } else {
                            assert(r2[k] == r[k + 1]);
                        }
                    }
                    assert forall|k: int, l: int| 0 <= k < r2.len() && 0 <= l < r2.len() && k != l implies r2[k] != r2[l] by {
                        let k1 = if k < i { k } else { k + 1 };
                        let l1 = if l < i { l } else { l + 1 };
                        assert(r2[k] == r[k1] && r2[l] == r[l1]);
                    }
                    assert forall|q: int| 0 <= q < self.graveyard().len() implies !r2.contains(
                        #[trigger] self.graveyard()[q],
                    ) by {
                        if r2.contains(self.graveyard()[q]) {
                            let k = choose|k: int| 0 <= k < r2.len() && r2[k] == self.graveyard()[q];
                            let k1 = if k < i { k } else { k + 1 };
                            assert(r[k1] == self.graveyard()[q]);
                        }
                    }
                    assert forall|k: int| 0 <= k < r2.len() implies self.threads().dom().contains(
                        #[trigger] r2[k],
                    ) by {
                        let k1 = if k < i { k } else { k + 1 };
                        assert(r2[k] == r[k1]);
                    }
                }
            },
            None => {
                assert(false);
            },
        }
        BlockedThread { thread }
    }

    /// Makes a blocked thread runnable again, unless it has been killed (or
    /// is queued to die) since it was blocked.
    pub fn unblock_thread(&mut self, thread: ThreadID)
        requires
            old(self).wf(),
            !old(self).runnable().contains(thread),
        ensures
            final(self).wf(),
            final(self).runnable() == if old(self).threads().dom().contains(thread)
                && !old(self).graveyard().contains(thread) {
                old(self).runnable().push(thread)
            } else {
                old(self).runnable()
            },
            final(self).threads() == old(self).threads(),
            final(self).next_id() == old(self).next_id(),
            final(self).graveyard() == old(self).graveyard(),
            final(self).status() == old(self).status(),
            final(self).idle() == old(self).idle(),
    {
        // Make sure the thread still exists and isnt queued to die
        // (a thread coulda been killed while also blocked)
        let exists = match self.threads.get_thread(thread) {
            Some(_) => true,
            None => false,
        };
        let mut dying = false;
        let mut j: usize = 0;
        while j < self.graveyard.len()
            invariant
                j <= self.graveyard().len(),
                dying == exists|k: int| 0 <= k < j && self.graveyard()[k] == thread,
            decreases self.graveyard().len() - j,
        {
            if self.graveyard[j] == thread {
                dying = true;
            }
            j = j + 1;
        }
        if exists && !dying {
            let ghost r = self.runnable();
            self.runnable.push(thread);
            proof {
                let r2 = self.runnable();
                assert forall|k: int, l: int| 0 <= k < r2.len() && 0 <= l < r2.len() && k != l implies r2[k] != r2[l] by {
                    if k < r.len() && l < r.len() {
                    } else if k < r.len() {
                        assert(r.contains(r2[k]));
                    } else {
                        assert(r.contains(r2[l]));
                    }
                }
                assert forall|q: int| 0 <= q < self.graveyard().len() implies !r2.contains(
                    #[trigger] self.graveyard()[q],
                ) by {
                    if r2.contains(self.graveyard()[q]) {
                        let k = choose|k: int| 0 <= k < r2.len() && r2[k] == self.graveyard()[q];
                        if k < r.len() {
                            assert(r[k] == self.graveyard()[q]);
                        }
                    }
                }
            }
        }
    }

    /// Terminates the given thread, removing it from the run queue and queuing
    /// it to ~die~ on the next schedule run (not doing it immediately prevents
    /// a currently-running thread to find itself on a freed stack, or other
    /// funky stuff).
    ///
    /// Returns `None` if the given TID is invalid. A thread can only be
    /// queued to die once.
    pub fn kill_thread(&mut self, thread: ThreadID) -> (r: Option<()>)
        requires
            old(self).wf(),
            old(self).threads().dom().contains(thread) ==> !old(self).graveyard().contains(thread),
        ensures
            final(self).wf(),
            (r is Some) == old(self).threads().dom().contains(thread),
            r is Some ==> final(self).graveyard() == old(self).graveyard().push(thread),
            r is Some ==> final(self).runnable() == if old(self).runnable().contains(thread) {
                old(self).runnable().remove(old(self).runnable().index_of(thread))
            } else {
                old(self).runnable()
            },
            r is Some ==> !final(self).runnable().contains(thread),
            r is None ==> final(self).graveyard() == old(self).graveyard() && final(self).runnable()
                == old(self).runnable(),
            final(self).threads() == old(self).threads(),
            final(self).next_id() == old(self).next_id(),
            final(self).status() == old(self).status(),
            final(self).idle() == old(self).idle(),
    {
        // Check if the thread exists
        match self.threads.get_thread(thread) {
            Some(_) => {},
            None => return None,
        }
        // Remove it from run queue, if not blocked
        let ghost r0 = self.runnable();
        match self.runnable_position(thread) {
            Some(_) => {
                let _ = self.block_thread(thread);
            },
            None => {},
        }
        // Queue it to ~die~
        let ghost g = self.graveyard();
        let ghost r1 = self.runnable();
        self.graveyard.push(thread);
        proof {
            let g2 = self.graveyard();
            assert(!r1.contains(thread));
            assert forall|k: int, l: int| 0 <= k < g2.len() && 0 <= l < g2.len() && k != l implies g2[k] != g2[l] by {
                if k < g.len() && l < g.len() {
                } else if k < g.len() {
                    assert(g.contains(g2[k]));
                } else {
                    assert(g.contains(g2[l]));
                }
            }
            assert forall|q: int| 0 <= q < g2.len() implies !r1.contains(#[trigger] g2[q]) by {
                if q < g.len() {
                    assert(g2[q] == g[q]);
                }
            }
        }
        Some(())
    }

    /// Returns the currently running PID, if we're in a user thread. `None` otherwise.
    pub fn current_proc(&self) -> (r: Option<ProcessID>)
        requires
            self.wf(),
        ensures
            r == match self.status() {
                SchedulerState::Running(tid) => self.threads()[tid].process,
                _ => None,
            },
    {
        let tid = match self.currently_running() {
            Some(t) => t,
            None => return None,
        };
        match self.get_thread(tid) {
            Some(t) => t.proccess(),
            None => {
                assert(false);
                None
            },
        }
    }
}

/// Blocking a runnable thread and then unblocking it (while it lives and
/// is not queued to die) leaves the same threads runnable, the thread
/// moved to the back of the queue.
pub proof fn lemma_block_then_unblock(runnable: Seq<ThreadID>, thread: ThreadID)
    requires
        runnable.contains(thread),
        runnable.no_duplicates(),
    ensures
        ({
            let after = runnable.remove(runnable.index_of(thread)).push(thread);
            &&& after.len() == runnable.len()
            &&& after.no_duplicates()
            &&& after.last() == thread
            &&& forall|t: ThreadID| after.contains(t) <==> runnable.contains(t)
        }),
{
    let i = runnable.index_of(thread);
    let removed = runnable.remove(i);
    let after = removed.push(thread);
    assert(runnable[i] == thread);
    assert forall|t: ThreadID| after.contains(t) <==> runnable.contains(t) by {
        if runnable.contains(t) {
            let k = choose|k: int| 0 <= k < runnable.len() && runnable[k] == t;
            if k < i {
                assert(after[k] == t);
            } else if k > i {
                assert(after[k - 1] == t);
            } else {
                assert(after[after.len() - 1] == t);
            }
        }
        if after.contains(t) {
            let k = choose|k: int| 0 <= k < after.len() && after[k] == t;
            if k < i {
                assert(runnable[k] == t);
            } else if k < after.len() - 1 {
                assert(runnable[k + 1] == t);
            } else {
                assert(runnable[i] == t);
            }
        }
    }
    assert forall|a: int, b: int| 0 <= a < after.len() && 0 <= b < after.len() && a != b implies after[a]
        != after[b] by {
        let ra = if a == after.len() - 1 { i } else if a < i { a } else { a + 1 };
        let rb = if b == after.len() - 1 { i } else if b < i { b } else { b + 1 };
        assert(after[a] == runnable[ra]);
        assert(after[b] == runnable[rb]);
    }
}

} // verus!

//! The table that owns all threads and hands out their IDs.
use vstd::prelude::*;
use super::state::CpuState;
use super::thread::{Thread, ThreadID};

verus! {

/// A thread's with a new saved state, everything else kept.
pub open spec fn with_state(t: Thread, state: CpuState) -> Thread {
    Thread { state: state, entry_point: t.entry_point, runs: t.runs, kstack: t.kstack, process: t.process }
}

/// A thread with one more recorded run, everything else kept.
pub open spec fn with_run(t: Thread) -> Thread {
    Thread { state: t.state, entry_point: t.entry_point, runs: (t.runs + 1) as usize, kstack: t.kstack, process: t.process }
}

/// Owns every thread, keyed by ID. IDs are handed out in increasing order
/// and never reused.
pub struct ThreadTable {
    slots: Vec<Option<Thread>>,
}

impl ThreadTable {
    /// The threads in the table, by ID.
    pub closed spec fn map(&self) -> Map<ThreadID, Thread> {
        Map::new(
            |id: ThreadID| id < self.slots@.len() && self.slots@[id as int] is Some,
            |id: ThreadID| self.slots@[id as int]->Some_0,
        )
    }

    /// The ID the next added thread gets.
    pub closed spec fn next_id(&self) -> nat {
        self.slots@.len()
    }

    /// Every ID in the table was handed out already.
    pub proof fn lemma_ids_below_next(&self)
        ensures
            forall|id: ThreadID| #[trigger] self.map().dom().contains(id) ==> id < self.next_id(),
    {
    }

    pub fn new() -> (t: Self)
        ensures
            t.map() == Map::<ThreadID, Thread>::empty(),
            t.next_id() == 0,
    {
        let t = ThreadTable { slots: Vec::new() };
        assert(t.map() =~= Map::<ThreadID, Thread>::empty());
        t
    }

    /// Whether every thread's run count is below its limit.
    pub fn runs_below_max(&self) -> (r: bool)
        ensures
            r == (forall|id: ThreadID| #[trigger] self.map().dom().contains(id) ==> self.map()[id].runs < usize::MAX),
    {
        let mut i: usize = 0;
        while i < self.slots.len() && (i as u64) <= (u32::MAX as u64)
            invariant
                i <= self.slots@.len(),
                i <= u32::MAX + 1,
                forall|id: ThreadID| #[trigger] self.map().dom().contains(id) && id < i ==> self.map()[id].runs < usize::MAX,
            decreases self.slots.len() - i,
        {
            match &self.slots[i] {
                Some(t) => {
                    if t.runs == usize::MAX {
                        assert(self.map().dom().contains(i as u32));
                        return false;
                    }
                },
                None => {},
            }
            i = i + 1;
        }
        true
    }

    /// Whether another thread can be added (IDs are not exhausted).
    pub fn has_free_id(&self) -> (r: bool)
        ensures
            r == (self.next_id() < u32::MAX),
    {
        self.slots.len() < u32::MAX as usize
    }

    /// Adds a thread under a fresh ID and returns the ID.
    pub fn add_thread(&mut self, thread: Thread) -> (id: ThreadID)
        requires
            old(self).next_id() < u32::MAX,
        ensures
            id == old(self).next_id(),
            !old(self).map().dom().contains(id),
            final(self).map() == old(self).map().insert(id, thread),
            final(self).next_id() == old(self).next_id() + 1,
    {
        let id = self.slots.len() as u32;
        let ghost old_map = self.map();
        self.slots.push(Some(thread));
        assert(self.map() =~= old_map.insert(id, thread));
        id
    }

    pub fn get_thread(&self, id: ThreadID) -> (r: Option<&Thread>)
        ensures
            self.map().dom().contains(id) ==> r == Some(&self.map()[id]),
            !self.map().dom().contains(id) ==> r is None,
    {
        if (id as usize) < self.slots.len() {
            match &self.slots[id as usize] {
                Some(t) => Some(t),
                None => None,
            }
        } else {
            None
        }
    }

    /// Replaces the saved state of a thread in the table.
    pub fn set_state(&mut self, id: ThreadID, state: CpuState)
        requires
            old(self).map().dom().contains(id),
        ensures
            final(self).map() == old(self).map().insert(id, with_state(old(self).map()[id], state)),
            final(self).next_id() == old(self).next_id(),
    {
        let ghost old_map = self.map();
        let mut slot: Option<Thread> = None;
        self.slots.set_and_swap(id as usize, &mut slot);
        let mut t = match slot {
            Some(t) => t,
            None => {
                assert(false);
                return;
            },
        };
        t.state = state;
        let mut back = Some(t);
        self.slots.set_and_swap(id as usize, &mut back);
        assert(self.map() =~= old_map.insert(id, with_state(old_map[id], state)));
    }

    /// Records one more run of a thread in the table.
    pub fn add_run(&mut self, id: ThreadID)
        requires
            old(self).map().dom().contains(id),
            old(self).map()[id].runs < usize::MAX,
        ensures
            final(self).map() == old(self).map().insert(id, with_run(old(self).map()[id])),
            final(self).next_id() == old(self).next_id(),
    {
        let ghost old_map = self.map();
        let mut slot: Option<Thread> = None;
        self.slots.set_and_swap(id as usize, &mut slot);
        let mut t = match slot {
            Some(t) => t,
            None => {
                assert(false);
                return;
            },
        };
        t.add_run();
        let mut back = Some(t);
        self.slots.set_and_swap(id as usize, &mut back);
        assert(self.map() =~= old_map.insert(id, with_run(old_map[id])));
    }

    /// Removes a thread from the table, handing it back; `None` if there is
    /// no thread with that ID.
    pub fn remove_thread(&mut self, id: ThreadID) -> (r: Option<Thread>)
        ensures
            old(self).map().dom().contains(id) ==> r == Some(old(self).map()[id]),
            !old(self).map().dom().contains(id) ==> r is None,
            final(self).map() == old(self).map().remove(id),
            final(self).next_id() == old(self).next_id(),
    {
        let ghost old_map = self.map();
        if (id as usize) >= self.slots.len() {
            assert(self.map() =~= old_map.remove(id));
            return None;
        }
        let mut slot: Option<Thread> = None;
        self.slots.set_and_swap(id as usize, &mut slot);
        assert(self.map() =~= old_map.remove(id));
        slot
    }
}

} // verus!

//! A bounded FIFO buffer that overwrites its oldest item when full.
use vstd::prelude::*;

verus! {

/// Where the `k`-th oldest item of a ring of `cap` slots starting at
/// `head` lives.
pub open spec fn ring_slot(head: int, k: int, cap: int) -> int {
    if head + k < cap {
        head + k
    } else {
        head + k - cap
    }
}

/// The items of a buffer of capacity `cap` after `value` is pushed onto
/// `items`: appended, with the oldest item dropped if the buffer was full.
pub open spec fn pushed<T>(items: Seq<T>, value: T, cap: nat) -> Seq<T> {
    if items.len() < cap {
        items.push(value)
    } else {
        items.drop_first().push(value)
    }
}

/// A bounded FIFO buffer holding at most `S` items. Pushing onto a full
/// buffer overwrites the oldest item.
pub struct Buffer<T, const S: usize> {
    ring: Vec<Option<T>>,
    head: usize,
    len: usize,
}

impl<T, const S: usize> Buffer<T, S> {
    /// The items in the buffer, oldest first.
    pub closed spec fn items(&self) -> Seq<T> {
        Seq::new(
            self.len as nat,
            |k: int| self.ring@[ring_slot(self.head as int, k, S as int)]->Some_0,
        )
    }

    /// The buffer's internal layout is consistent: `S` slots, the items
    /// occupy the `len` slots from `head` on, wrapping around.
    pub closed spec fn wf(&self) -> bool {
        &&& S > 0
        &&& self.ring@.len() == S
        &&& self.head < S
        &&& self.len <= S
        &&& forall|k: int|
            0 <= k < self.len ==> (#[trigger] self.ring@[ring_slot(self.head as int, k, S as int)])
                is Some
    }

    /// A consistent buffer holds at most `S` items.
    pub proof fn lemma_bounded(&self)
        requires
            self.wf(),
        ensures
            self.items().len() <= S,
    {
    }

    /// Creates an empty buffer.
    pub fn new() -> (b: Self)
        requires
            S > 0,
        ensures
            b.wf(),
            b.items() == Seq::<T>::empty(),
    {
        let mut ring: Vec<Option<T>> = Vec::new();
        let mut i: usize = 0;
        while i < S
            invariant
                i <= S,
                ring@.len() == i,
            decreases S - i,
        {
            ring.push(None);
            i = i + 1;
        }
        let b = Buffer { ring, head: 0, len: 0 };
        assert(b.items() =~= Seq::<T>::empty());
        b
    }

    /// The number of items in the buffer.
    pub fn len(&self) -> (r: usize)
        requires
            self.wf(),
        ensures
            r == self.items().len(),
    {
        self.len
    }

    /// Writes a value into the buffer, overwriting the oldest item when full.
    pub fn push(&mut self, value: T)
        requires
            old(self).wf(),
        ensures
            final(self).wf(),
            final(self).items() == pushed(old(self).items(), value, S as nat),
    {
        let ghost old_items = self.items();
        let ghost h = self.head as int;
        let tail = if self.len < S - self.head {
            self.head + self.len
        } else {
            self.len - (S - self.head)
        };
        let mut slot = Some(value);
        self.ring.set_and_swap(tail, &mut slot);
        if self.len == S {
            // Full: overwrite oldest, advance head
            self.head = if self.head < S - 1 {
                self.head + 1
            } else {
                0
            };
            assert forall|k: int| 0 <= k < self.len implies (#[trigger] self.ring@[ring_slot(
                self.head as int,
                k,
                S as int,
            )]) is Some by {
                if k < S - 1 {
                    assert(ring_slot(self.head as int, k, S as int) == ring_slot(h, k + 1, S as int));
                }
            }
            assert(self.items() =~= old_items.drop_first().push(value)) by {
                assert forall|k: int| 0 <= k < self.len implies self.items()[k] == old_items.drop_first().push(value)[k] by {
                    if k < S - 1 {
                        assert(ring_slot(self.head as int, k, S as int) == ring_slot(h, k + 1, S as int));
                    }
                }
            }
        } else {
            self.len = self.len + 1;
            assert(self.items() =~= old_items.push(value));
        }
    }

    /// Pops the oldest value without blocking. Returns `None` if empty.
    pub fn try_pop(&mut self) -> (r: Option<T>)
        requires
            old(self).wf(),
        ensures
            final(self).wf(),
            old(self).items().len() == 0 ==> r is None && final(self).items() == old(self).items(),
            old(self).items().len() > 0 ==> r == Some(old(self).items()[0]) && final(self).items()
                == old(self).items().drop_first(),
    {
        if self.len == 0 {
            return None;
        }
        let ghost old_items = self.items();
        let ghost h = self.head as int;
        let mut slot: Option<T> = None;
        assert(self.ring@[ring_slot(h, 0, S as int)] is Some);
        self.ring.set_and_swap(self.head, &mut slot);
        self.head = if self.head < S - 1 {
            self.head + 1
        } else {
            0
        };
        self.len = self.len - 1;
        assert forall|k: int| 0 <= k < self.len implies (#[trigger] self.ring@[ring_slot(
            self.head as int,
            k,
            S as int,
        )]) is Some by {
            assert(ring_slot(self.head as int, k, S as int) == ring_slot(h, k + 1, S as int));
        }
        assert(self.items() =~= old_items.drop_first()) by {
            assert forall|k: int| 0 <= k < self.len implies self.items()[k] == old_items.drop_first()[k] by {
                assert(ring_slot(self.head as int, k, S as int) == ring_slot(h, k + 1, S as int));
            }
        }
        slot
    }
}

/// Items leave in the order they came: after pushing onto a buffer that is
/// not full, the oldest item is still the first to leave, and popping it
/// first gives the same buffer as popping before the push.
pub proof fn lemma_fifo<T>(items: Seq<T>, value: T, cap: nat)
    requires
        items.len() < cap,
    ensures
        items.len() > 0 ==> pushed(items, value, cap)[0] == items[0],
        items.len() > 0 ==> pushed(items, value, cap).drop_first() == pushed(
            items.drop_first(),
            value,
            cap,
        ),
        items.len() == 0 ==> pushed(items, value, cap) == seq![value],
{
    if items.len() > 0 {
        assert(items.push(value).drop_first() =~= items.drop_first().push(value));
    } else {
        assert(items.push(value) =~= seq![value]);
    }
}

/// The items after pushing each of `values` in turn (see [`pushed`]).
pub open spec fn push_all<T>(items: Seq<T>, values: Seq<T>, cap: nat) -> Seq<T>
    decreases values.len(),
{
    if values.len() == 0 {
        items
    } else {
        push_all(pushed(items, values[0], cap), values.drop_first(), cap)
    }
}

/// What `k` pops in turn return, and the items left after them: each pop
/// returns the oldest item and removes it, or `None` on an empty buffer.
pub open spec fn pop_n<T>(items: Seq<T>, k: nat) -> (Seq<Option<T>>, Seq<T>)
    decreases k,
{
    if k == 0 {
        (Seq::empty(), items)
    } else if items.len() == 0 {
        (seq![None::<T>] + pop_n(items, (k - 1) as nat).0, pop_n(items, (k - 1) as nat).1)
    } else {
        (
            seq![Some(items[0])] + pop_n(items.drop_first(), (k - 1) as nat).0,
            pop_n(items.drop_first(), (k - 1) as nat).1,
        )
    }
}

/// Pushing values that fit appends them in order.
proof fn lemma_push_all_appends<T>(items: Seq<T>, values: Seq<T>, cap: nat)
    requires
        items.len() + values.len() <= cap,
    ensures
        push_all(items, values, cap) == items + values,
    decreases values.len(),
{
    if values.len() > 0 {
        lemma_push_all_appends(items.push(values[0]), values.drop_first(), cap);
        assert(items.push(values[0]) + values.drop_first() =~= items + values);
    }
}

/// Popping all the items of a buffer and once more returns the items in
/// order, then `None`, and leaves the buffer empty.
proof fn lemma_pop_all<T>(items: Seq<T>)
    ensures
        pop_n(items, items.len() + 1).0 == items.map_values(|v: T| Some(v)).push(None),
        pop_n(items, items.len() + 1).1 == Seq::<T>::empty(),
    decreases items.len(),
{
    if items.len() == 0 {
        assert(pop_n(items, 0).0 == Seq::<Option<T>>::empty());
        assert(items.map_values(|v: T| Some(v)).push(None) =~= seq![None::<T>]);
        assert(items =~= Seq::<T>::empty());
    } else {
        let rest = items.drop_first();
        lemma_pop_all(rest);
        assert(items.map_values(|v: T| Some(v)).push(None) =~= seq![Some(items[0])] + rest.map_values(
            |v: T| Some(v),
        ).push(None));
    }
}

/// Items leave a buffer in the order they were pushed: pushing `values`
/// (no more than the capacity) onto an empty buffer, then popping one more
/// time than there are values, returns each value in turn and then `None`,
/// and leaves the buffer empty.
pub proof fn lemma_fifo_order<T>(values: Seq<T>, cap: nat)
    requires
        values.len() <= cap,
    ensures
        push_all(Seq::<T>::empty(), values, cap) == values,
        pop_n(values, values.len() + 1).0 == values.map_values(|v: T| Some(v)).push(None),
        pop_n(values, values.len() + 1).1 == Seq::<T>::empty(),
{
    lemma_push_all_appends(Seq::<T>::empty(), values, cap);
    assert(Seq::<T>::empty() + values =~= values);
    lemma_pop_all(values);
}

} // verus!

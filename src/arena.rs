//! An index-stable object pool that reuses the slots it frees.

use vstd::prelude::*;

verus! {

/// What an arena holds: its slots, and the indices that wait for reuse, the
/// most recently freed last.
pub struct ArenaView<T> {
    pub slots: Seq<T>,
    pub free: Seq<usize>,
}

impl<T> ArenaView<T> {
    /// Every index that waits for reuse names a slot, and none waits twice.
    pub open spec fn wf(self) -> bool {
        &&& forall|k: int| 0 <= k < self.free.len() ==> (#[trigger] self.free[k]) < self.slots.len()
        &&& self.free.no_duplicates()
    }

    /// Slot `i` holds an object that has not been freed.
    pub open spec fn is_live(self, i: int) -> bool {
        0 <= i < self.slots.len() && !self.free.contains(i as usize)
    }

    /// The index that the next push hands out: the most recently freed one,
    /// else a new one past the end.
    pub open spec fn next_index(self) -> int {
        if self.free.len() > 0 {
            self.free.last() as int
        } else {
            self.slots.len() as int
        }
    }

    /// The arena after `o` was pushed.
    pub open spec fn pushed(self, o: T) -> ArenaView<T> {
        if self.free.len() > 0 {
            ArenaView { slots: self.slots.update(self.free.last() as int, o), free: self.free.drop_last() }
        } else {
            ArenaView { slots: self.slots.push(o), free: self.free }
        }
    }

    /// The arena after slot `i` was freed: the last slot is dropped, any
    /// other waits for reuse.
    pub open spec fn freed(self, i: int) -> ArenaView<T> {
        if i + 1 == self.slots.len() {
            ArenaView { slots: self.slots.drop_last(), free: self.free }
        } else {
            ArenaView { slots: self.slots, free: self.free.push(i as usize) }
        }
    }
}

/// An index-stable pool of objects that reuses freed slots.
pub struct Arena<T> {
    objects: Vec<T>,
    free_blocks: Vec<usize>,
}

impl<T> View for Arena<T> {
    type V = ArenaView<T>;

    closed spec fn view(&self) -> ArenaView<T> {
        ArenaView { slots: self.objects@, free: self.free_blocks@ }
    }
}

impl<T> Arena<T> {
    pub fn new() -> (r: Arena<T>)
        ensures
            r@.slots == Seq::<T>::empty(),
            r@.free == Seq::<usize>::empty(),
            r@.wf(),
    {
        Arena { objects: Vec::new(), free_blocks: Vec::new() }
    }

    /// Stores `o` in the most recently freed slot, or in a new one, and
    /// returns its index.
    pub fn push(&mut self, o: T) -> (r: usize)
        requires
            old(self)@.wf(),
        ensures
            r as int == old(self)@.next_index(),
            final(self)@ == old(self)@.pushed(o),
            final(self)@.wf(),
            final(self)@.is_live(r as int),
    {
        let ghost before = self@;
        if let Some(index) = self.free_blocks.pop() {
            assert(before.free[before.free.len() - 1] == index);
            self.objects.set(index, o);
            proof {
                assert(self.free_blocks@ =~= before.free.drop_last());
                assert forall|k: int| 0 <= k < self.free_blocks@.len() implies self.free_blocks@[k] != index by {
                    assert(before.free[k] == self.free_blocks@[k]);
                }
            }
            index
        } else {
            let index = self.objects.len();
            self.objects.push(o);
            proof {
                assert forall|k: int| 0 <= k < self.free_blocks@.len() implies self.free_blocks@[k] != index by {
                    assert(before.free[k] < before.slots.len());
                }
            }
            index
        }
    }

    /// Frees slot `index`: the pool shrinks where it is the last slot, else
    /// the index waits for reuse.
    pub fn free(&mut self, index: usize)
        requires
            old(self)@.wf(),
            old(self)@.is_live(index as int),
        ensures
            final(self)@ == old(self)@.freed(index as int),
            final(self)@.wf(),
    {
        let ghost before = self@;
        if self.objects.len() == index + 1 {
            self.objects.pop();
            proof {
                assert(self.objects@ =~= before.slots.drop_last());
                assert forall|k: int| 0 <= k < self.free_blocks@.len() implies self.free_blocks@[k] < self.objects@.len() by {
                    assert(before.free.contains(before.free[k]));
                }
            }
            return;
        }
        self.free_blocks.push(index);
        proof {
            assert forall|a: int, b: int| 0 <= a < b < self.free_blocks@.len() implies self.free_blocks@[a] != self.free_blocks@[b] by {
                if b == self.free_blocks@.len() - 1 {
                    assert(before.free[a] == self.free_blocks@[a]);
                    assert(before.free.contains(before.free[a]));
                }
            }
        }
    }

    /// The object in slot `index`, where there is such a slot.
    pub fn get(&self, index: usize) -> (r: Option<&T>)
        ensures
            match r {
                Some(o) => index < self@.slots.len() && *o == self@.slots[index as int],
                None => index >= self@.slots.len(),
            },
    {
        if index < self.objects.len() {
            Some(&self.objects[index])
        } else {
            None
        }
    }

    /// The backing slots, for reading and writing in place. Whoever changes
    /// their number must keep every index that waits for reuse below it.
    pub fn objects(&mut self) -> (r: &mut Vec<T>)
        ensures
            r@ == old(self)@.slots,
            final(self)@.slots == final(r)@,
            final(self)@.free == old(self)@.free,
    {
        &mut self.objects
    }
}

/// Freeing the index that a push handed out and pushing again hands out that
/// same index. This fails only where the pushed slot was the last one while
/// other indices still waited for reuse: the pool then shrinks and the next
/// push takes one of those.
pub proof fn lemma_free_then_push_reuses_index<T>(a: ArenaView<T>, o: T, o2: T)
    requires
        a.wf(),
        !(a.free.len() >= 2 && a.free.last() + 1 == a.slots.len()),
    ensures
        a.pushed(o).freed(a.next_index()).next_index() == a.next_index(),
        a.pushed(o).freed(a.next_index()).pushed(o2).slots[a.next_index()] == o2,
{
    let i = a.next_index();
    let b = a.pushed(o);
    let c = b.freed(i);
    if a.free.len() > 0 {
        assert(a.free.contains(a.free.last()));
    }
    if i + 1 == b.slots.len() {
        if a.free.len() == 1 {
            assert(c.free.len() == 0);
        }
    }
}

/// Freeing the slot that the latest push filled, where that slot is the last
/// of the pool, shrinks the pool by one and records no index for reuse.
pub proof fn lemma_free_last_pushed_shrinks<T>(a: ArenaView<T>, o: T)
    requires
        a.wf(),
        a.next_index() + 1 == a.pushed(o).slots.len(),
    ensures
        a.pushed(o).freed(a.next_index()).slots.len() == a.pushed(o).slots.len() - 1,
        a.pushed(o).freed(a.next_index()).free == a.pushed(o).free,
{
}

} // verus!

//! Admission control for analyzer processes: a fixed number of execution
//! slots, entered before a process starts and left when it ends.
use vstd::prelude::*;

verus! {

/// Number of analyzer processes that may run at once.
pub const ANALYZER_SLOTS: usize = 4;

pub struct SlotPool {
    capacity: usize,
    in_use: usize,
}

impl SlotPool {
    pub closed spec fn capacity_spec(&self) -> nat {
        self.capacity as nat
    }

    pub closed spec fn in_use_spec(&self) -> nat {
        self.in_use as nat
    }

    /// Never more slots in use than there are.
    pub closed spec fn wf(&self) -> bool {
        self.in_use <= self.capacity
    }

    pub fn new(capacity: usize) -> (r: Self)
        ensures
            r.wf(),
            r.capacity_spec() == capacity,
            r.in_use_spec() == 0,
    {
        SlotPool { capacity, in_use: 0 }
    }

    /// Takes a slot if one is free.
    pub fn try_enter(&mut self) -> (r: bool)
        requires
            old(self).wf(),
        ensures
            final(self).wf(),
            r == (old(self).in_use_spec() < old(self).capacity_spec()),
            final(self).capacity_spec() == old(self).capacity_spec(),
            final(self).in_use_spec() == if r {
                old(self).in_use_spec() + 1
            } else {
                old(self).in_use_spec()
            },
    {
        if self.in_use < self.capacity {
            self.in_use = self.in_use + 1;
            true
        } else {
            false
        }
    }

    /// Gives a slot back.
    pub fn leave(&mut self)
        requires
            old(self).wf(),
            old(self).in_use_spec() > 0,
        ensures
            final(self).wf(),
            final(self).capacity_spec() == old(self).capacity_spec(),
            final(self).in_use_spec() == old(self).in_use_spec() - 1,
    {
        self.in_use = self.in_use - 1;
    }

    pub fn in_use(&self) -> (r: usize)
        ensures
            r == self.in_use_spec(),
    {
        self.in_use
    }

    pub fn capacity(&self) -> (r: usize)
        ensures
            r == self.capacity_spec(),
    {
        self.capacity
    }
}

/// However entries and exits interleave, a pool never has more slots in
/// use than its capacity.
pub proof fn lemma_slots_bounded(p: SlotPool)
    requires
        p.wf(),
    ensures
        p.in_use_spec() <= p.capacity_spec(),
{
}

} // verus!

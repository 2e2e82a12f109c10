use vstd::prelude::*;

verus! {

/// A counting admission gate bounding how many fetches may be in flight at
/// once across a whole pipeline run. This is the model of admission control:
/// a slot is taken when a unit of work is launched and given back when the
/// unit reaches a terminal state, so the number of outstanding slots never
/// exceeds the configured maximum.
pub struct Limiter {
    max: usize,
    in_use: usize,
}

impl Limiter {
    /// The configured maximum number of simultaneously held slots.
    pub closed spec fn max_slots(self) -> int {
        self.max as int
    }

    /// How many slots are held right now.
    pub closed spec fn held(self) -> int {
        self.in_use as int
    }

    /// True of every reachable gate: capacity is positive, and no more than
    /// that many slots are out at once.
    pub open spec fn inv(self) -> bool {
        &&& self.max_slots() >= 1
        &&& 0 <= self.held() <= self.max_slots()
    }

    pub fn new(max: usize) -> (r: Limiter)
        requires
            max >= 1,
        ensures
            r.inv(),
            r.max_slots() == max,
            r.held() == 0,
    {
        Limiter { max, in_use: 0 }
    }

    /// Whether a free slot exists, i.e. whether one more unit of work may be
    /// admitted right now.
    pub fn has_free_slot(&self) -> (b: bool)
        ensures
            b == (self.held() < self.max_slots()),
    {
        self.in_use < self.max
    }

    /// Whether no slot is held at all (the state between stages).
    pub fn is_idle(&self) -> (b: bool)
        ensures
            b == (self.held() == 0),
    {
        self.in_use == 0
    }

    /// Take one slot. Callers must have seen a free slot first; admission
    /// never overshoots the maximum.
    pub fn acquire(&mut self)
        requires
            old(self).inv(),
            old(self).held() < old(self).max_slots(),
        ensures
            final(self).inv(),
            final(self).max_slots() == old(self).max_slots(),
            final(self).held() == old(self).held() + 1,
    {
        self.in_use = self.in_use + 1;
    }

    /// Give one slot back. Every unit of work releases its slot on every
    /// exit path, success or failure alike.
    pub fn release(&mut self)
        requires
            old(self).inv(),
            old(self).held() >= 1,
        ensures
            final(self).inv(),
            final(self).max_slots() == old(self).max_slots(),
            final(self).held() == old(self).held() - 1,
    {
        self.in_use = self.in_use - 1;
    }
}

/// Admission stays bounded: a gate whose invariant holds has at most its
/// capacity of slots out.
pub proof fn lemma_limiter_never_over_admits(l: Limiter)
    requires
        l.inv(),
    ensures
        l.held() <= l.max_slots(),
{
}

} // verus!

use vstd::prelude::*;

use crate::error::FetchError;
use crate::limiter::Limiter;

verus! {

/// The lifecycle of one input item within a stage run. Every item starts
/// `Pending`, is moved to `Running` when its unit of work is launched under a
/// limiter slot, and ends `Settled` when its outcome — success or failure —
/// has been recorded.
#[derive(Clone, Copy, PartialEq, Eq, Structural, Debug)]
pub enum SlotState {
    Pending,
    Running,
    Settled,
}

/// How many items of a stage are currently `Running`, i.e. how many units of
/// work are executing concurrently at this moment of the run.
pub open spec fn count_running(s: Seq<SlotState>) -> int
    decreases s.len(),
{
    if s.len() == 0 {
        0
    } else {
        count_running(s.drop_last()) + if s.last() is Running {
            1int
        } else {
            0int
        }
    }
}

proof fn lemma_count_running_nonneg(s: Seq<SlotState>)
    ensures
        count_running(s) >= 0,
    decreases s.len(),
{
    if s.len() > 0 {
        lemma_count_running_nonneg(s.drop_last());
    }
}

proof fn lemma_count_running_zero(s: Seq<SlotState>)
    requires
        forall|i: int| 0 <= i < s.len() ==> !(s[i] is Running),
    ensures
        count_running(s) == 0,
    decreases s.len(),
{
    if s.len() > 0 {
        lemma_count_running_zero(s.drop_last());
    }
}

proof fn lemma_count_running_update(s: Seq<SlotState>, i: int, v: SlotState)
    requires
        0 <= i < s.len(),
    ensures
        count_running(s.update(i, v)) == count_running(s) + (if v is Running {
            1int
        } else {
            0int
        }) - (if s[i] is Running {
            1int
        } else {
            0int
        }),
    decreases s.len(),
{
    let t = s.update(i, v);
    if i == s.len() - 1 {
        assert(t.drop_last() =~= s.drop_last());
    } else {
        lemma_count_running_update(s.drop_last(), i, v);
        assert(t.drop_last() =~= s.drop_last().update(i, v));
    }
}

proof fn lemma_count_running_at_least_one(s: Seq<SlotState>, i: int)
    requires
        0 <= i < s.len(),
        s[i] is Running,
    ensures
        count_running(s) >= 1,
    decreases s.len(),
{
    if i == s.len() - 1 {
        lemma_count_running_nonneg(s.drop_last());
    } else {
        lemma_count_running_at_least_one(s.drop_last(), i);
    }
}

/// The aggregate outcome of one stage: the inputs it was given, the outputs
/// of the items that succeeded, and a record for every item that failed,
/// each tagged with the index of the originating input.
pub struct StageResult<I, O> {
    pub inputs: Vec<I>,
    pub successes: Vec<(usize, O)>,
    pub failures: Vec<(usize, FetchError)>,
}

impl<I, O> StageResult<I, O> {
    /// Every input item is accounted for exactly once: each recorded outcome
    /// points at a real input, no input owns two outcomes, and the outcome
    /// counts add up to the number of inputs — nothing is dropped and
    /// nothing is duplicated.
    pub open spec fn accounted(self) -> bool {
        &&& self.successes@.len() + self.failures@.len() == self.inputs@.len()
        &&& forall|k: int|
            0 <= k < self.successes@.len() ==> (#[trigger] self.successes@[k]).0
                < self.inputs@.len()
        &&& forall|k: int|
            0 <= k < self.failures@.len() ==> (#[trigger] self.failures@[k]).0 < self.inputs@.len()
        &&& forall|k1: int, k2: int|
            0 <= k1 < k2 < self.successes@.len() ==> (#[trigger] self.successes@[k1]).0 != (
            #[trigger] self.successes@[k2]).0
        &&& forall|k1: int, k2: int|
            0 <= k1 < k2 < self.failures@.len() ==> (#[trigger] self.failures@[k1]).0 != (
            #[trigger] self.failures@[k2]).0
        &&& forall|k1: int, k2: int|
            0 <= k1 < self.successes@.len() && 0 <= k2 < self.failures@.len() ==> (
            #[trigger] self.successes@[k1]).0 != (#[trigger] self.failures@[k2]).0
    }
}

/// The fan-out/fan-in executor for one stage of the pipeline. Callers drive
/// it through a small protocol: while `can_launch` holds, `launch` admits one
/// more item under a limiter slot and hands back its index; when an item's
/// unit of work reaches a terminal state, `record_success` or
/// `record_failure` settles it and frees its slot; once every item is
/// settled, `finish` yields the stage's aggregate result. A single item's
/// failure never disturbs its siblings — it is recorded as data and the rest
/// of the stage goes on.
pub struct StageRunner<I, O> {
    inputs: Vec<I>,
    slots: Vec<SlotState>,
    launched: usize,
    limiter: Limiter,
    successes: Vec<(usize, O)>,
    failures: Vec<(usize, FetchError)>,
}

impl<I, O> StageRunner<I, O> {
    pub closed spec fn inputs_seq(self) -> Seq<I> {
        self.inputs@
    }

    pub closed spec fn slots_seq(self) -> Seq<SlotState> {
        self.slots@
    }

    pub open spec fn slot(self, i: int) -> SlotState {
        self.slots_seq()[i]
    }

    pub closed spec fn launched_count(self) -> int {
        self.launched as int
    }

    /// How many units of work are executing concurrently right now.
    pub open spec fn running_count(self) -> int {
        count_running(self.slots_seq())
    }

    pub closed spec fn gate(self) -> Limiter {
        self.limiter
    }

    /// The configured bound on concurrently executing units of work.
    pub open spec fn limit(self) -> int {
        self.gate().max_slots()
    }

    pub closed spec fn successes_seq(self) -> Seq<(usize, O)> {
        self.successes@
    }

    pub closed spec fn failures_seq(self) -> Seq<(usize, FetchError)> {
        self.failures@
    }

    /// The runner's invariant. It ties the limiter's held slots to the
    /// number of running items, keeps every recorded outcome pointing at a
    /// distinct settled item, and balances the books: outcomes recorded so
    /// far plus items still running equal items launched.
    pub open spec fn wf(self) -> bool {
        &&& self.slots_seq().len() == self.inputs_seq().len()
        &&& 0 <= self.launched_count() <= self.inputs_seq().len()
        &&& forall|i: int|
            self.launched_count() <= i < self.slots_seq().len() ==> #[trigger] self.slot(i)
                is Pending
        &&& forall|i: int| 0 <= i < self.launched_count() ==> !(#[trigger] self.slot(i) is Pending)
        &&& self.gate().inv()
        &&& self.gate().held() == self.running_count()
        &&& self.successes_seq().len() + self.failures_seq().len() + self.running_count()
            == self.launched_count()
        &&& forall|k: int|
            0 <= k < self.successes_seq().len() ==> (#[trigger] self.successes_seq()[k]).0
                < self.slots_seq().len() && self.slot(self.successes_seq()[k].0 as int) is Settled
        &&& forall|k: int|
            0 <= k < self.failures_seq().len() ==> (#[trigger] self.failures_seq()[k]).0
                < self.slots_seq().len() && self.slot(self.failures_seq()[k].0 as int) is Settled
        &&& forall|k1: int, k2: int|
            0 <= k1 < k2 < self.successes_seq().len() ==> (#[trigger] self.successes_seq()[k1]).0
                != (#[trigger] self.successes_seq()[k2]).0
        &&& forall|k1: int, k2: int|
            0 <= k1 < k2 < self.failures_seq().len() ==> (#[trigger] self.failures_seq()[k1]).0 != (
            #[trigger] self.failures_seq()[k2]).0
        &&& forall|k1: int, k2: int|
            0 <= k1 < self.successes_seq().len() && 0 <= k2 < self.failures_seq().len() ==> (
            #[trigger] self.successes_seq()[k1]).0 != (#[trigger] self.failures_seq()[k2]).0
    }

    /// A stage is complete when every item has been launched and every
    /// launched item has settled.
    pub open spec fn complete(self) -> bool {
        &&& self.launched_count() == self.inputs_seq().len()
        &&& self.running_count() == 0
    }

    /// Set up a stage over `inputs`, gated by `limiter`. All slots of the
    /// limiter must be free: between stages no work is in flight.
    pub fn new(inputs: Vec<I>, limiter: Limiter) -> (r: StageRunner<I, O>)
        requires
            limiter.inv(),
            limiter.held() == 0,
        ensures
            r.wf(),
            r.inputs_seq() == inputs@,
            r.launched_count() == 0,
            r.running_count() == 0,
            r.successes_seq().len() == 0,
            r.failures_seq().len() == 0,
            r.limit() == limiter.max_slots(),
    {
        let slots = vec![SlotState::Pending; inputs.len()];
        proof {
            lemma_count_running_zero(slots@);
        }
        StageRunner { inputs, slots, launched: 0, limiter, successes: Vec::new(), failures: Vec::new() }
    }

    /// How many input items this stage was given.
    pub fn input_len(&self) -> (n: usize)
        ensures
            n == self.inputs_seq().len(),
    {
        self.inputs.len()
    }

    /// A borrowed view of one input item, so the caller can hand it to the
    /// item's unit of work.
    pub fn item(&self, i: usize) -> (r: &I)
        requires
            i < self.inputs_seq().len(),
        ensures
            *r == self.inputs_seq()[i as int],
    {
        &self.inputs[i]
    }

    /// Whether one more item may be launched right now: an unlaunched item
    /// remains and the limiter has a free slot.
    pub fn can_launch(&self) -> (b: bool)
        requires
            self.wf(),
        ensures
            b == (self.launched_count() < self.inputs_seq().len() && self.running_count()
                < self.limit()),
    {
        self.launched < self.inputs.len() && self.limiter.has_free_slot()
    }

    /// Whether item `i` is currently running, i.e. still owed an outcome.
    pub fn is_running(&self, i: usize) -> (b: bool)
        requires
            self.wf(),
            i < self.inputs_seq().len(),
        ensures
            b == (self.slot(i as int) is Running),
    {
        match self.slots[i] {
            SlotState::Running => true,
            _ => false,
        }
    }

    /// Admit the next item: take a limiter slot and mark the item running.
    /// The operation itself is performed by the caller only after this call
    /// returns, so no item's work ever starts without a slot held for it.
    pub fn launch(&mut self) -> (i: usize)
        requires
            old(self).wf(),
            old(self).launched_count() < old(self).inputs_seq().len(),
            old(self).running_count() < old(self).limit(),
        ensures
            final(self).wf(),
            i == old(self).launched_count(),
            final(self).launched_count() == old(self).launched_count() + 1,
            final(self).running_count() == old(self).running_count() + 1,
            final(self).slot(i as int) is Running,
            forall|j: int|
                0 <= j < old(self).slots_seq().len() && j != i ==> final(self).slot(j) == old(
                    self,
                ).slot(j),
            final(self).inputs_seq() == old(self).inputs_seq(),
            final(self).successes_seq() == old(self).successes_seq(),
            final(self).failures_seq() == old(self).failures_seq(),
            final(self).limit() == old(self).limit(),
    {
        let i = self.launched;
        assert(i < self.inputs.len());
        self.limiter.acquire();
        proof {
            lemma_count_running_update(self.slots@, i as int, SlotState::Running);
        }
        self.slots[i] = SlotState::Running;
        self.launched = i + 1;
        proof {
            let pre = *old(self);
            assert(pre.slot(i as int) is Pending);
            assert forall|j: int|
                self.launched as int <= j < self.slots@.len() implies self.slots@[j]
                is Pending by {
                assert(pre.slot(j) is Pending);
            }
            assert forall|j: int| 0 <= j < self.launched as int implies !(self.slots@[j]
                is Pending) by {
                if j != i as int {
                    assert(!(pre.slot(j) is Pending));
                }
            }
            assert forall|k: int| 0 <= k < self.successes@.len() implies (
            #[trigger] self.successes@[k]).0 < self.slots@.len() && self.slots@[self.successes@[k].0
                as int] is Settled by {
                let idx = pre.successes@[k].0 as int;
                assert(pre.slots@[idx] is Settled);
                assert(idx != i as int);
            }
            assert forall|k: int| 0 <= k < self.failures@.len() implies (
            #[trigger] self.failures@[k]).0 < self.slots@.len() && self.slots@[self.failures@[k].0
                as int] is Settled by {
                let idx = pre.failures@[k].0 as int;
                assert(pre.slots@[idx] is Settled);
                assert(idx != i as int);
            }
        }
        i
    }

    /// Record that item `i`'s unit of work produced `out`, settle the item
    /// and free its limiter slot.
    pub fn record_success(&mut self, i: usize, out: O)
        requires
            old(self).wf(),
            i < old(self).inputs_seq().len(),
            old(self).slot(i as int) is Running,
        ensures
            final(self).wf(),
            final(self).successes_seq() == old(self).successes_seq().push((i, out)),
            final(self).failures_seq() == old(self).failures_seq(),
            final(self).inputs_seq() == old(self).inputs_seq(),
            final(self).launched_count() == old(self).launched_count(),
            final(self).running_count() == old(self).running_count() - 1,
            final(self).slot(i as int) is Settled,
            final(self).limit() == old(self).limit(),
    {
        proof {
            lemma_count_running_at_least_one(self.slots@, i as int);
            lemma_count_running_update(self.slots@, i as int, SlotState::Settled);
        }
        self.limiter.release();
        self.slots[i] = SlotState::Settled;
        self.successes.push((i, out));
        proof {
            let pre = *old(self);
            assert(pre.slot(i as int) is Running);
            assert forall|j: int|
                self.launched as int <= j < self.slots@.len() implies self.slots@[j]
                is Pending by {
                assert(pre.slot(j) is Pending);
            }
            assert forall|j: int| 0 <= j < self.launched as int implies !(self.slots@[j]
                is Pending) by {
                if j != i as int {
                    assert(!(pre.slot(j) is Pending));
                }
            }
            assert forall|k: int| 0 <= k < self.successes@.len() implies (
            #[trigger] self.successes@[k]).0 < self.slots@.len() && self.slots@[self.successes@[k].0
                as int] is Settled by {
                if k < pre.successes@.len() {
                    let idx = pre.successes@[k].0 as int;
                    assert(self.successes@[k] == pre.successes@[k]);
                    assert(pre.slots@[idx] is Settled);
                    assert(idx != i as int);
                } else {
                    assert(self.successes@[k] == (i, out));
                }
            }
            assert forall|k: int| 0 <= k < self.failures@.len() implies (
            #[trigger] self.failures@[k]).0 < self.slots@.len() && self.slots@[self.failures@[k].0
                as int] is Settled by {
                let idx = pre.failures@[k].0 as int;
                assert(pre.slots@[idx] is Settled);
                assert(idx != i as int);
            }
            assert forall|k1: int, k2: int| 0 <= k1 < k2 < self.successes@.len() implies (
            #[trigger] self.successes@[k1]).0 != (#[trigger] self.successes@[k2]).0 by {
                if k2 == pre.successes@.len() {
                    let idx = pre.successes@[k1].0 as int;
                    assert(pre.slots@[idx] is Settled);
                    assert(idx != i as int);
                }
            }
            assert forall|k1: int, k2: int|
                0 <= k1 < self.successes@.len() && 0 <= k2 < self.failures@.len() implies (
            #[trigger] self.successes@[k1]).0 != (#[trigger] self.failures@[k2]).0 by {
                if k1 == pre.successes@.len() {
                    let idx = pre.failures@[k2].0 as int;
                    assert(pre.slots@[idx] is Settled);
                    assert(idx != i as int);
                }
            }
        }
    }

    /// Record that item `i`'s unit of work failed with `err`, settle the
    /// item and free its limiter slot. The failure is kept as data against
    /// the originating item; sibling items are untouched.
    pub fn record_failure(&mut self, i: usize, err: FetchError)
        requires
            old(self).wf(),
            i < old(self).inputs_seq().len(),
            old(self).slot(i as int) is Running,
        ensures
            final(self).wf(),
            final(self).failures_seq() == old(self).failures_seq().push((i, err)),
            final(self).successes_seq() == old(self).successes_seq(),
            final(self).inputs_seq() == old(self).inputs_seq(),
            final(self).launched_count() == old(self).launched_count(),
            final(self).running_count() == old(self).running_count() - 1,
            final(self).slot(i as int) is Settled,
            final(self).limit() == old(self).limit(),
    {
        proof {
            lemma_count_running_at_least_one(self.slots@, i as int);
            lemma_count_running_update(self.slots@, i as int, SlotState::Settled);
        }
        self.limiter.release();
        self.slots[i] = SlotState::Settled;
        self.failures.push((i, err));
        proof {
            let pre = *old(self);
            assert(pre.slot(i as int) is Running);
            assert forall|j: int|
                self.launched as int <= j < self.slots@.len() implies self.slots@[j]
                is Pending by {
                assert(pre.slot(j) is Pending);
            }
            assert forall|j: int| 0 <= j < self.launched as int implies !(self.slots@[j]
                is Pending) by {
                if j != i as int {
                    assert(!(pre.slot(j) is Pending));
                }
            }
            assert forall|k: int| 0 <= k < self.failures@.len() implies (
            #[trigger] self.failures@[k]).0 < self.slots@.len() && self.slots@[self.failures@[k].0
                as int] is Settled by {
                if k < pre.failures@.len() {
                    let idx = pre.failures@[k].0 as int;
                    assert(self.failures@[k] == pre.failures@[k]);
                    assert(pre.slots@[idx] is Settled);
                    assert(idx != i as int);
                } else {
                    assert(self.failures@[k] == (i, err));
                }
            }
            assert forall|k: int| 0 <= k < self.successes@.len() implies (
            #[trigger] self.successes@[k]).0 < self.slots@.len() && self.slots@[self.successes@[k].0
                as int] is Settled by {
                let idx = pre.successes@[k].0 as int;
                assert(pre.slots@[idx] is Settled);
                assert(idx != i as int);
            }
            assert forall|k1: int, k2: int| 0 <= k1 < k2 < self.failures@.len() implies (
            #[trigger] self.failures@[k1]).0 != (#[trigger] self.failures@[k2]).0 by {
                if k2 == pre.failures@.len() {
                    let idx = pre.failures@[k1].0 as int;
                    assert(pre.slots@[idx] is Settled);
                    assert(idx != i as int);
                }
            }
            assert forall|k1: int, k2: int|
                0 <= k1 < self.successes@.len() && 0 <= k2 < self.failures@.len() implies (
            #[trigger] self.successes@[k1]).0 != (#[trigger] self.failures@[k2]).0 by {
                if k2 == pre.failures@.len() {
                    let idx = pre.successes@[k1].0 as int;
                    assert(pre.slots@[idx] is Settled);
                    assert(idx != i as int);
                }
            }
        }
    }

    /// Whether the stage is complete: everything launched, nothing running.
    pub fn done(&self) -> (b: bool)
        requires
            self.wf(),
        ensures
            b == self.complete(),
    {
        self.launched == self.inputs.len() && self.limiter.is_idle()
    }

    /// Tear the finished stage down into its aggregate result, handing the
    /// limiter back — idle again — for the next stage to reuse.
    pub fn finish(self) -> (r: (StageResult<I, O>, Limiter))
        requires
            self.wf(),
            self.complete(),
        ensures
            r.0.inputs@ == self.inputs_seq(),
            r.0.successes@ == self.successes_seq(),
            r.0.failures@ == self.failures_seq(),
            r.0.accounted(),
            r.1.inv(),
            r.1.held() == 0,
            r.1.max_slots() == self.limit(),
    {
        let StageRunner { inputs, slots: _, launched: _, limiter, successes, failures } = self;
        (StageResult { inputs, successes, failures }, limiter)
    }
}

/// No input item is dropped and none is double-counted: when a stage is
/// complete, the number of successes plus the number of failures recorded
/// equals the number of items the stage was given.
pub proof fn lemma_stage_accounts_for_every_item<I, O>(s: StageRunner<I, O>)
    requires
        s.wf(),
        s.complete(),
    ensures
        s.successes_seq().len() + s.failures_seq().len() == s.inputs_seq().len(),
{
}

/// The admission bound holds at every point of a stage run: in any
/// well-formed runner state, the number of concurrently executing units of
/// work is within the configured limit. Every runner operation preserves
/// well-formedness, so no reachable state exceeds the bound.
pub proof fn lemma_running_within_limit<I, O>(s: StageRunner<I, O>)
    requires
        s.wf(),
    ensures
        0 <= s.running_count() <= s.limit(),
{
}

} // verus!

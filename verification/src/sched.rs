//! Bounded-concurrency scheduler: maps each target to exactly one worker
//! invocation, caps the number of simultaneously running sessions, and
//! supports global cancellation. Every submitted target ends with exactly
//! one result, no duplicates, no omissions, even under cancellation.

use vstd::prelude::*;
use crate::data::{Outcome, Target, TaskResult};

verus! {

/// The lifecycle of one submitted target.
pub enum Slot {
    /// Not started yet; waiting for a free worker.
    Pending,
    /// A worker currently owns this target's session.
    Running,
    /// Finished: the one result this target will ever have.
    Done(TaskResult),
}

/// 1 for a running slot, 0 otherwise.
pub open spec fn slot_weight(s: Slot) -> nat {
    if s is Running {
        1nat
    } else {
        0nat
    }
}

/// How many slots are currently running.
pub open spec fn count_running(s: Seq<Slot>) -> nat
    decreases s.len(),
{
    if s.len() == 0 {
        0nat
    } else {
        count_running(s.drop_last()) + slot_weight(s.last())
    }
}

proof fn lemma_count_running_update(s: Seq<Slot>, i: int, v: Slot)
    requires
        0 <= i < s.len(),
    ensures
        count_running(s.update(i, v)) + slot_weight(s[i]) == count_running(s) + slot_weight(v),
    decreases s.len(),
{
    let su = s.update(i, v);
    if i == s.len() - 1 {
        assert(su.drop_last() =~= s.drop_last());
    } else {
        assert(su.drop_last() =~= s.drop_last().update(i, v));
        assert(su.last() == s.last());
        lemma_count_running_update(s.drop_last(), i, v);
    }
}

proof fn lemma_count_running_zero(s: Seq<Slot>, i: int)
    requires
        count_running(s) == 0,
        0 <= i < s.len(),
    ensures
        !(s[i] is Running),
    decreases s.len(),
{
    if i == s.len() - 1 {
    } else {
        lemma_count_running_zero(s.drop_last(), i);
    }
}

/// The bounded worker-pool scheduler for one run. Targets are started in
/// submission order; completion order is unconstrained.
pub struct Scheduler {
    pub targets: Vec<Target>,
    pub slots: Vec<Slot>,
    pub limit: usize,
    pub next: usize,
    pub running: usize,
    pub cancelled: bool,
}

impl Scheduler {
    /// Internal well-formedness: counts agree with the slots, the cap holds,
    /// started targets form a prefix, and each finished slot holds a result
    /// for its own target.
    pub open spec fn wf(self) -> bool {
        &&& self.slots@.len() == self.targets@.len()
        &&& self.limit >= 1
        &&& self.next <= self.slots@.len()
        &&& forall|i: int| 0 <= i < self.next ==> !((#[trigger] self.slots@[i]) is Pending)
        &&& forall|i: int|
            self.next <= i < self.slots@.len() ==> (#[trigger] self.slots@[i]) is Pending
        &&& self.running == count_running(self.slots@)
        &&& self.running <= self.limit
        &&& self.cancelled ==> self.next == self.slots@.len()
        &&& forall|i: int|
            0 <= i < self.slots@.len() ==> ((#[trigger] self.slots@[i]) matches Slot::Done(r)
                ==> r.target@ == self.targets@[i]@)
    }

    /// Every target has finished.
    pub open spec fn all_done(self) -> bool {
        forall|i: int| 0 <= i < self.slots@.len() ==> (#[trigger] self.slots@[i]) is Done
    }

    /// A fresh run over `targets` with concurrency cap `limit`.
    pub fn new(targets: Vec<Target>, limit: usize) -> (s: Scheduler)
        requires
            limit >= 1,
        ensures
            s.wf(),
            s.targets@ == targets@,
            s.limit == limit,
            s.next == 0,
            s.running == 0,
            !s.cancelled,
            s.slots@.len() == targets@.len(),
            forall|i: int| 0 <= i < targets@.len() ==> (#[trigger] s.slots@[i]) is Pending,
    {
        let n = targets.len();
        let mut slots: Vec<Slot> = Vec::new();
        let mut i: usize = 0;
        while i < n
            invariant
                i <= n,
                slots@.len() == i,
                forall|j: int| 0 <= j < i ==> (#[trigger] slots@[j]) is Pending,
                count_running(slots@) == 0,
            decreases n - i,
        {
            let ghost prev = slots@;
            slots.push(Slot::Pending);
            proof {
                assert(slots@.drop_last() =~= prev);
            }
            i = i + 1;
        }
        Scheduler { targets, slots, limit, next: 0, running: 0, cancelled: false }
    }

    /// If the run is not cancelled, the queue is not exhausted, and a worker
    /// is free under the cap, start the next target (in submission order)
    /// and return its index; otherwise change nothing.
    pub fn try_start(&mut self) -> (r: Option<usize>)
        requires
            old(self).wf(),
        ensures
            final(self).wf(),
            final(self).targets@ == old(self).targets@,
            final(self).limit == old(self).limit,
            final(self).cancelled == old(self).cancelled,
            match r {
                Some(i) => {
                    &&& i == old(self).next
                    &&& i < old(self).slots@.len()
                    &&& !old(self).cancelled
                    &&& old(self).running < old(self).limit
                    &&& final(self).slots@ == old(self).slots@.update(i as int, Slot::Running)
                    &&& final(self).next == i + 1
                    &&& final(self).running == old(self).running + 1
                },
                None => {
                    &&& *final(self) == *old(self)
                    &&& (old(self).cancelled || old(self).next == old(self).slots@.len()
                        || old(self).running == old(self).limit)
                },
            },
    {
        if self.cancelled || self.next == self.slots.len() || self.running == self.limit {
            return None;
        }
        let i = self.next;
        proof {
            lemma_count_running_update(self.slots@, i as int, Slot::Running);
        }
        self.slots.set(i, Slot::Running);
        self.next = i + 1;
        self.running = self.running + 1;
        Some(i)
    }

    /// Record the one result of a running target. No other slot is touched:
    /// one target's completion, however it went, has no effect on any other
    /// target's entry.
    pub fn complete(&mut self, i: usize, r: TaskResult)
        requires
            old(self).wf(),
            i < old(self).slots@.len(),
            old(self).slots@[i as int] is Running,
            r.target@ == old(self).targets@[i as int]@,
        ensures
            final(self).wf(),
            final(self).targets@ == old(self).targets@,
            final(self).limit == old(self).limit,
            final(self).next == old(self).next,
            final(self).cancelled == old(self).cancelled,
            final(self).running == old(self).running - 1,
            final(self).slots@ == old(self).slots@.update(i as int, Slot::Done(r)),
    {
        proof {
            lemma_count_running_update(self.slots@, i as int, Slot::Done(r));
        }
        self.slots.set(i, Slot::Done(r));
        self.running = self.running - 1;
    }

    /// Cancel the run: every queued-but-unstarted target is resolved at once
    /// with `Cancelled`, already-recorded results are untouched, and no new
    /// target will ever start. Targets already running keep running until
    /// their workers complete them.
    pub fn cancel(&mut self)
        requires
            old(self).wf(),
        ensures
            final(self).wf(),
            final(self).cancelled,
            final(self).targets@ == old(self).targets@,
            final(self).limit == old(self).limit,
            final(self).running == old(self).running,
            final(self).next == old(self).slots@.len(),
            final(self).slots@.len() == old(self).slots@.len(),
            forall|i: int|
                0 <= i < old(self).next ==> final(self).slots@[i] == old(self).slots@[i],
            forall|i: int|
                old(self).next <= i < old(self).slots@.len()
                    ==> ((#[trigger] final(self).slots@[i]) matches Slot::Done(r)
                        && r.outcome == Outcome::Cancelled
                        && r.target@ == old(self).targets@[i]@),
    {
        let n = self.slots.len();
        let mut i: usize = self.next;
        while i < n
            invariant
                old(self).wf(),
                old(self).next <= i <= n,
                n == old(self).slots@.len(),
                self.targets@ == old(self).targets@,
                self.limit == old(self).limit,
                self.running == old(self).running,
                self.next == old(self).next,
                self.cancelled == old(self).cancelled,
                self.slots@.len() == n,
                count_running(self.slots@) == old(self).running,
                forall|j: int| 0 <= j < old(self).next ==> self.slots@[j] == old(self).slots@[j],
                forall|j: int|
                    old(self).next <= j < i ==> ((#[trigger] self.slots@[j]) matches Slot::Done(r)
                        && r.outcome == Outcome::Cancelled
                        && r.target@ == old(self).targets@[j]@),
                forall|j: int| i <= j < n ==> self.slots@[j] == old(self).slots@[j],
            decreases n - i,
        {
            let t = self.targets[i].duplicate();
            let r = TaskResult::cancelled(t);
            proof {
                lemma_count_running_update(self.slots@, i as int, Slot::Done(r));
            }
            self.slots.set(i, Slot::Done(r));
            i = i + 1;
        }
        self.next = n;
        self.cancelled = true;
    }

    /// True when no target is pending or running any more.
    pub fn is_finished(&self) -> (r: bool)
        requires
            self.wf(),
        ensures
            r == self.all_done(),
    {
        let r = self.running == 0 && self.next == self.slots.len();
        proof {
            if r {
                assert forall|i: int| 0 <= i < self.slots@.len() implies (#[trigger] self.slots@[i])
                    is Done by {
                    lemma_count_running_zero(self.slots@, i);
                }
            } else {
                if self.running != 0 {
                    if self.all_done() {
                        assert forall|i: int|
                            0 <= i < self.slots@.len() implies slot_weight(
                            #[trigger] self.slots@[i],
                        ) == 0 by {}
                        lemma_count_all_not_running(self.slots@);
                    }
                } else {
                    assert(self.next < self.slots@.len());
                    assert(self.slots@[self.next as int] is Pending);
                }
            }
        }
        r
    }
}

/// Concurrency-cap law: in every reachable scheduler state — `new`
/// establishes `wf` and every operation preserves it — the number of
/// simultaneously running sessions never exceeds the configured limit,
/// whatever the number of targets.
pub proof fn lemma_concurrency_bounded(s: Scheduler)
    requires
        s.wf(),
    ensures
        count_running(s.slots@) <= s.limit,
{
}

proof fn lemma_count_all_not_running(s: Seq<Slot>)
    requires
        forall|i: int| 0 <= i < s.len() ==> slot_weight(#[trigger] s[i]) == 0,
    ensures
        count_running(s) == 0,
    decreases s.len(),
{
    if s.len() > 0 {
        lemma_count_all_not_running(s.drop_last());
    }
}

} // verus!

//! The run queue of one vCPU.
use vstd::prelude::*;

use crate::entity::Task;

verus! {

/// Whether index `i` holds the first task of the highest class in `q`.
pub open spec fn is_next(q: Seq<Task>, i: int) -> bool {
    &&& 0 <= i < q.len()
    &&& forall|j: int| 0 <= j < q.len() ==> #[trigger] q[j].rank() <= q[i].rank()
    &&& forall|j: int| 0 <= j < i ==> #[trigger] q[j].rank() < q[i].rank()
}

/// The tasks that draining `q` for vCPU `v` removes: the first `max` tasks,
/// from the head, that may run on `v`.
pub open spec fn drained(q: Seq<Task>, max: nat, v: int) -> Seq<Task>
    decreases q.len(),
{
    if q.len() == 0 {
        Seq::empty()
    } else {
        let p = drained(q.drop_last(), max, v);
        if p.len() < max && q.last().may_run_on(v) {
            p.push(q.last())
        } else {
            p
        }
    }
}

/// The tasks that draining `q` for vCPU `v` leaves, in their order.
pub open spec fn remaining(q: Seq<Task>, max: nat, v: int) -> Seq<Task>
    decreases q.len(),
{
    if q.len() == 0 {
        Seq::empty()
    } else {
        let p = drained(q.drop_last(), max, v);
        if p.len() < max && q.last().may_run_on(v) {
            remaining(q.drop_last(), max, v)
        } else {
            remaining(q.drop_last(), max, v).push(q.last())
        }
    }
}

/// Draining splits a queue: the drained and the remaining tasks together are
/// the queue's tasks, at most `max` are drained, and each may run on `v`.
pub proof fn lemma_drain_split(q: Seq<Task>, max: nat, v: int)
    ensures
        drained(q, max, v).to_multiset().add(remaining(q, max, v).to_multiset()) == q.to_multiset(),
        drained(q, max, v).len() <= max,
        forall|k: int| 0 <= k < drained(q, max, v).len() ==> #[trigger] drained(q, max, v)[k].may_run_on(v),
    decreases q.len(),
{
    broadcast use vstd::seq_lib::group_to_multiset_ensures, vstd::multiset::group_multiset_axioms;

    if q.len() > 0 {
        let p = q.drop_last();
        lemma_drain_split(p, max, v);
        assert(q =~= p.push(q.last()));
        if drained(p, max, v).len() < max && q.last().may_run_on(v) {
            let d = drained(p, max, v);
            assert forall|k: int| 0 <= k < d.push(q.last()).len() implies #[trigger] d.push(
                q.last(),
            )[k].may_run_on(v) by {
                if k < d.len() {
                    assert(d.push(q.last())[k] == d[k]);
                }
            }
        }
    }
}

/// The run queue of one vCPU, with its idle and asleep flags.
///
/// The queue is served by priority class, then first in, first out.
/// The vCPU is idle while it looks for work and finds its queue empty.
pub struct LocalScheduler {
    this_vcpu: u32,
    queue: Vec<Task>,
    is_idle: bool,
    is_asleep: bool,
}

impl LocalScheduler {
    /// The queued tasks, head first.
    pub closed spec fn tasks(&self) -> Seq<Task> {
        self.queue@
    }

    /// The vCPU that owns this queue.
    pub closed spec fn vcpu(&self) -> u32 {
        self.this_vcpu
    }

    /// Whether the vCPU is idle.
    pub closed spec fn idle(&self) -> bool {
        self.is_idle
    }

    /// Whether the vCPU is asleep.
    pub closed spec fn asleep(&self) -> bool {
        self.is_asleep
    }

    /// An empty queue for `this_vcpu`, neither idle nor asleep.
    pub fn new(this_vcpu: u32) -> (r: LocalScheduler)
        ensures
            r.tasks() == Seq::<Task>::empty(),
            r.vcpu() == this_vcpu,
            !r.idle(),
            !r.asleep(),
    {
        LocalScheduler { this_vcpu, queue: Vec::new(), is_idle: false, is_asleep: false }
    }

    /// The vCPU that owns this queue.
    pub fn this_vcpu(&self) -> (r: u32)
        ensures
            r == self.vcpu(),
    {
        self.this_vcpu
    }

    /// The number of queued tasks: the load of the vCPU.
    pub fn len(&self) -> (r: usize)
        ensures
            r == self.tasks().len(),
    {
        self.queue.len()
    }

    /// Whether the vCPU is idle.
    pub fn is_idle(&self) -> (r: bool)
        ensures
            r == self.idle(),
    {
        self.is_idle
    }

    /// Whether the vCPU is asleep.
    pub fn is_asleep(&self) -> (r: bool)
        ensures
            r == self.asleep(),
    {
        self.is_asleep
    }

    /// Appends `task` to the queue; the vCPU stops being idle.
    /// Returns whether it was idle.
    pub fn enqueue(&mut self, task: Task) -> (was_idle: bool)
        ensures
            final(self).tasks() == old(self).tasks().push(task),
            final(self).vcpu() == old(self).vcpu(),
            !final(self).idle(),
            final(self).asleep() == old(self).asleep(),
            was_idle == old(self).idle(),
    {
        let was_idle = self.is_idle;
        self.queue.push(task);
        self.is_idle = false;
        was_idle
    }

    /// Removes and returns the first task of the highest class present.
    /// The vCPU, which is looking for work, is awake, and is idle exactly
    /// when the queue was empty.
    pub fn dequeue(&mut self) -> (r: Option<Task>)
        ensures
            final(self).vcpu() == old(self).vcpu(),
            !final(self).asleep(),
            final(self).idle() == (old(self).tasks().len() == 0),
            old(self).tasks().len() == 0 ==> r is None && final(self).tasks() == old(self).tasks(),
            old(self).tasks().len() > 0 ==> exists|i: int|
                is_next(old(self).tasks(), i) && r == Some(old(self).tasks()[i])
                    && final(self).tasks() == old(self).tasks().remove(i),
    {
        self.is_asleep = false;
        if self.queue.len() == 0 {
            self.is_idle = true;
            return None;
        }
        self.is_idle = false;
        let ghost q = self.queue@;
        let mut best: usize = 0;
        let mut i: usize = 1;
        while i < self.queue.len()
            invariant
                self.queue@ == q,
                q.len() > 0,
                best < i <= q.len(),
                forall|j: int| 0 <= j < i ==> #[trigger] q[j].rank() <= q[best as int].rank(),
                forall|j: int| 0 <= j < best ==> #[trigger] q[j].rank() < q[best as int].rank(),
            decreases q.len() - i,
        {
            if rank_of(&self.queue[i]) > rank_of(&self.queue[best]) {
                best = i;
            }
            i = i + 1;
        }
        let t = self.queue.remove(best);
        assert(is_next(q, best as int));
        Some(t)
    }

    /// Marks the vCPU asleep or awake. An asleep vCPU is not idle.
    pub fn set_asleep(&mut self, asleep: bool)
        ensures
            final(self).tasks() == old(self).tasks(),
            final(self).vcpu() == old(self).vcpu(),
            final(self).asleep() == asleep,
            final(self).idle() == (old(self).idle() && !asleep),
    {
        self.is_asleep = asleep;
        if asleep {
            self.is_idle = false;
        }
    }

    /// Removes up to `max_count` tasks that may run on `vcpu`, taken from the
    /// head, and returns them in queue order. The other tasks keep their order.
    pub fn drain(&mut self, max_count: usize, vcpu: u32) -> (r: Vec<Task>)
        ensures
            r@ == drained(old(self).tasks(), max_count as nat, vcpu as int),
            final(self).tasks() == remaining(old(self).tasks(), max_count as nat, vcpu as int),
            final(self).vcpu() == old(self).vcpu(),
            final(self).idle() == old(self).idle(),
            final(self).asleep() == old(self).asleep(),
    {
        let ghost q = self.queue@;
        let mut rest: Vec<Task> = Vec::new();
        std::mem::swap(&mut rest, &mut self.queue);
        let mut taken: Vec<Task> = Vec::new();
        let mut kept: Vec<Task> = Vec::new();
        let ghost mut i: int = 0;
        while rest.len() > 0
            invariant
                0 <= i <= q.len(),
                rest@ == q.skip(i),
                taken@ == drained(q.take(i), max_count as nat, vcpu as int),
                kept@ == remaining(q.take(i), max_count as nat, vcpu as int),
            decreases rest@.len(),
        {
            let t = rest.remove(0);
            proof {
                assert(q.take(i + 1).drop_last() =~= q.take(i));
                assert(q.take(i + 1).last() == q[i]);
                i = i + 1;
                assert(q.skip(i - 1).remove(0) =~= q.skip(i));
            }
            if taken.len() < max_count && t.can_run_on(vcpu) {
                taken.push(t);
            } else {
                kept.push(t);
            }
        }
        assert(q.take(i) =~= q);
        self.queue = kept;
        taken
    }
}

/// The rank of a task's class.
fn rank_of(t: &Task) -> (r: u8)
    ensures
        r as int == t.rank(),
{
    match t.state.priority {
        crate::entity::Priority::High => 2,
        crate::entity::Priority::Normal => 1,
        crate::entity::Priority::Low => 0,
    }
}

} // verus!

//! Schedulable entities: tasks and the state the scheduler keeps for them.
use vstd::prelude::*;

use crate::bitmask::{bit_set, BitMask};

verus! {

/// The interactivity class of a task. I/O-bound tasks get `High`,
/// CPU-bound ones `Low`; a local queue serves the higher classes first.
#[derive(Clone, Copy, Debug, PartialEq, Eq, Structural)]
pub enum Priority {
    High,
    Normal,
    Low,
}

/// The rank of a priority class: a higher rank is served first.
pub open spec fn rank(p: Priority) -> int {
    match p {
        Priority::High => 2,
        Priority::Normal => 1,
        Priority::Low => 0,
    }
}

/// Whether vCPU `v` is a legal placement for affinity `affinity` among `n` vCPUs.
pub open spec fn legal(affinity: Seq<bool>, n: nat, v: int) -> bool {
    0 <= v < n && bit_set(affinity, v)
}

/// Whether `affinity` allows at least one of the `n` vCPUs.
pub open spec fn affinity_nonempty(affinity: Seq<bool>, n: nat) -> bool {
    exists|v: int| legal(affinity, n, v)
}

/// What the scheduler knows of a task: where it may run, where it ran last,
/// and its interactivity class.
pub struct SchedState {
    pub affinity: BitMask,
    pub vcpu: Option<u32>,
    pub priority: Priority,
}

impl SchedState {
    /// A state for a task that has not run yet.
    pub fn new(affinity: BitMask, priority: Priority) -> (r: SchedState)
        ensures
            r.affinity@ == affinity@,
            r.vcpu is None,
            r.priority == priority,
    {
        SchedState { affinity, vcpu: None, priority }
    }

    /// The affinity mask.
    pub fn affinity(&self) -> (r: &BitMask)
        ensures
            r@ == self.affinity@,
    {
        &self.affinity
    }

    /// The vCPU the task last ran on, if any.
    pub fn vcpu(&self) -> (r: Option<u32>)
        ensures
            r == self.vcpu,
    {
        self.vcpu
    }

    /// A copy of this state.
    pub fn copy(&self) -> (r: SchedState)
        ensures
            r.affinity@ == self.affinity@,
            r.vcpu == self.vcpu,
            r.priority == self.priority,
    {
        SchedState { affinity: self.affinity.copy(), vcpu: self.vcpu, priority: self.priority }
    }
}

/// A task as it sits in a run queue: its id and its scheduling state.
pub struct Task {
    pub id: usize,
    pub state: SchedState,
}

impl Task {
    /// Whether the task may run on vCPU `v`.
    pub open spec fn may_run_on(&self, v: int) -> bool {
        bit_set(self.state.affinity@, v)
    }

    /// The rank of the task's interactivity class.
    pub open spec fn rank(&self) -> int {
        rank(self.state.priority)
    }

    /// Whether the task may run on vCPU `v`.
    pub fn can_run_on(&self, v: u32) -> (r: bool)
        ensures
            r == self.may_run_on(v as int),
    {
        self.state.affinity.get(v as usize)
    }
}

} // verus!

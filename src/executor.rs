//! The executor: the per-vCPU run loop as a state machine over a task table.
use vstd::prelude::*;

use crate::bitmask::BitMask;
use crate::entity::{affinity_nonempty, Priority, SchedState, Task};
use crate::load_balancer::{idle_after, is_less_busy_order, migrate_along, MigrationTask};
use crate::local_scheduler::is_next;
use crate::scheduler::{all_tasks, total_len, Dequeued, Scheduler};
use crate::vcpu_selector::selection;

verus! {

/// Where a task's pollable state stands.
#[derive(Clone, Copy, Debug, PartialEq, Eq, Structural)]
pub enum TaskStatus {
    /// The future is present and nobody polls it.
    Runnable,
    /// The given vCPU is polling the future.
    Polling(u32),
    /// The future completed and was dropped.
    Completed,
}

/// A task's entry in the executor's table.
pub struct TaskSlot {
    pub state: SchedState,
    pub status: TaskStatus,
}

/// What one turn of a vCPU's run loop decided.
#[derive(Clone, Copy, Debug, PartialEq, Eq, Structural)]
pub enum RunStep {
    /// Poll the future of the named task, then call `finish_poll`.
    Poll(usize),
    /// The task is being polled elsewhere; it was enqueued again.
    Requeued(usize),
    /// The task had completed (or is unknown); it was dropped.
    Discarded(usize),
    /// The queue is empty: look again, or park.
    Idle,
    /// The scheduler was shut down (or the caller is no vCPU): leave the loop.
    Exit,
}

/// Whether two scheduling states agree.
pub open spec fn same_state(a: SchedState, b: SchedState) -> bool {
    a.affinity@ == b.affinity@ && a.vcpu == b.vcpu && a.priority == b.priority
}

/// Whether `new_qs` is `old_qs` with one task, of id `id` and a state that
/// agrees with `st`, appended to queue `t`.
pub open spec fn pushed_to(
    old_qs: Seq<Seq<Task>>,
    new_qs: Seq<Seq<Task>>,
    t: int,
    id: usize,
    st: SchedState,
) -> bool {
    &&& 0 <= t < old_qs.len()
    &&& new_qs.len() == old_qs.len()
    &&& forall|i: int| 0 <= i < old_qs.len() && i != t ==> #[trigger] new_qs[i] == old_qs[i]
    &&& new_qs[t].len() == old_qs[t].len() + 1
    &&& new_qs[t].drop_last() == old_qs[t]
    &&& new_qs[t].last().id == id
    &&& same_state(new_qs[t].last().state, st)
}

/// The executor: a scheduler, the table of tasks, and which task each vCPU
/// is polling. Each worker thread runs `next_step` in a loop, polls what it
/// is told to, and reports with `finish_poll`.
pub struct Executor {
    num_vcpus: u32,
    scheduler: Scheduler,
    running_vcpus: u32,
    tasks: Vec<TaskSlot>,
    polling: Vec<Option<usize>>,
}

impl Executor {
    /// The number of vCPUs.
    pub closed spec fn vcpus(&self) -> nat {
        self.num_vcpus as nat
    }

    /// The scheduler.
    pub closed spec fn sched(&self) -> Scheduler {
        self.scheduler
    }

    /// The task table, indexed by task id.
    pub closed spec fn slots(&self) -> Seq<TaskSlot> {
        self.tasks@
    }

    /// For each vCPU, the task it is polling, if any.
    pub closed spec fn polled(&self) -> Seq<Option<usize>> {
        self.polling@
    }

    /// How many vCPUs have registered.
    pub closed spec fn registered(&self) -> nat {
        self.running_vcpus as nat
    }

    /// The scheduler is well formed; every task may run somewhere; a vCPU
    /// polls a task exactly when the task's status names that vCPU.
    pub closed spec fn wf(&self) -> bool {
        &&& self.scheduler.wf()
        &&& self.scheduler.vcpus() == self.num_vcpus
        &&& self.polling@.len() == self.num_vcpus
        &&& self.running_vcpus <= self.num_vcpus
        &&& forall|id: int|
            0 <= id < self.tasks@.len() ==> affinity_nonempty(
                #[trigger] self.tasks@[id].state.affinity@,
                self.num_vcpus as nat,
            )
        &&& forall|v: int|
            0 <= v < self.num_vcpus && #[trigger] self.polling@[v] is Some ==> {
                let id = self.polling@[v]->0;
                &&& id < self.tasks@.len()
                &&& self.tasks@[id as int].status == TaskStatus::Polling(v as u32)
            }
        &&& forall|id: int|
            0 <= id < self.tasks@.len() && #[trigger] self.tasks@[id].status is Polling ==> {
                let v = self.tasks@[id].status->0;
                &&& v < self.num_vcpus
                &&& self.polling@[v as int] == Some(id as usize)
            }
    }

    /// What the well-formedness of an executor says of its views.
    pub proof fn lemma_wf(&self)
        requires
            self.wf(),
        ensures
            self.sched().wf(),
            self.sched().vcpus() == self.vcpus(),
            self.polled().len() == self.vcpus(),
            forall|v: int|
                0 <= v < self.vcpus() && #[trigger] self.polled()[v] is Some ==> {
                    let id = self.polled()[v]->0;
                    &&& id < self.slots().len()
                    &&& self.slots()[id as int].status == TaskStatus::Polling(v as u32)
                },
    {
    }

    /// At most one vCPU polls a given task at any time.
    pub proof fn lemma_at_most_one_poll(&self, v1: int, v2: int)
        requires
            self.wf(),
            0 <= v1 < self.vcpus(),
            0 <= v2 < self.vcpus(),
            self.polled()[v1] is Some,
            self.polled()[v1] == self.polled()[v2],
        ensures
            v1 == v2,
    {
        let id = self.polled()[v1]->0;
        assert(self.polling@[v1] is Some);
        assert(self.polling@[v2] is Some);
        assert(self.tasks@[id as int].status == TaskStatus::Polling(v1 as u32));
        assert(self.tasks@[id as int].status == TaskStatus::Polling(v2 as u32));
    }

    /// Whether vCPU `v` may take a new task: it is a vCPU of the executor
    /// and has no poll in flight.
    pub open spec fn may_dequeue(self, v: u32) -> bool {
        v < self.vcpus() && self.polled()[v as int] is None
    }

    /// The task table and the polled tasks are unchanged from `self` to `new`.
    pub open spec fn table_unchanged(self, new: Executor) -> bool {
        new.slots() == self.slots() && new.polled() == self.polled()
    }

    /// From `self` to `new`, vCPU `v` took up the poll of task `id`: the task
    /// is marked as polled by `v`, which is now its last vCPU.
    pub open spec fn polls_task(self, new: Executor, v: u32, id: usize) -> bool {
        &&& new.polled() == self.polled().update(v as int, Some(id))
        &&& new.slots().len() == self.slots().len()
        &&& new.slots()[id as int].status == TaskStatus::Polling(v)
        &&& new.slots()[id as int].state.vcpu == Some(v)
        &&& new.slots()[id as int].state.affinity@ == self.slots()[id as int].state.affinity@
        &&& new.slots()[id as int].state.priority == self.slots()[id as int].state.priority
        &&& forall|k: int|
            0 <= k < self.slots().len() && k != id ==> #[trigger] new.slots()[k] == self.slots()[k]
    }

    /// What a turn of vCPU `v` does, from `self` to `new`, with result `r`,
    /// when it dequeued the task at index `i` of its queue.
    pub open spec fn step_taken(self, new: Executor, v: u32, i: int, r: RunStep) -> bool {
        let q = self.sched().queues()[v as int];
        let e = q[i];
        let removed = self.sched().queues().update(v as int, q.remove(i));
        if e.id >= self.slots().len() || self.slots()[e.id as int].status is Completed {
            &&& r == RunStep::Discarded(e.id)
            &&& new.sched().queues() == removed
            &&& self.table_unchanged(new)
        } else if self.slots()[e.id as int].status is Polling {
            let t = selection(
                self.sched().idle_mask().update(v as int, false),
                self.sched().sleep_mask().update(v as int, false),
                e.state.affinity@,
                self.vcpus(),
                e.state.vcpu,
                Some(v),
                self.sched().counter(),
            );
            &&& r == RunStep::Requeued(e.id)
            &&& new.sched().queues() == removed.update(t, removed[t].push(e))
            &&& all_tasks(new.sched().queues()) == all_tasks(self.sched().queues())
            &&& self.table_unchanged(new)
        } else {
            &&& r == RunStep::Poll(e.id)
            &&& new.sched().queues() == removed
            &&& self.polls_task(new, v, e.id)
        }
    }

    /// An executor for `num_vcpus` vCPUs, with no task.
    pub fn new(num_vcpus: u32) -> (r: Executor)
        requires
            num_vcpus > 0,
        ensures
            r.wf(),
            r.vcpus() == num_vcpus,
            r.slots().len() == 0,
            r.polled() == Seq::new(num_vcpus as nat, |v: int| None::<usize>),
            r.registered() == 0,
            r.sched().queues() == Seq::new(num_vcpus as nat, |i: int| Seq::<Task>::empty()),
            !r.sched().shut_down(),
    {
        let mut polling: Vec<Option<usize>> = Vec::new();
        let mut v: u32 = 0;
        while v < num_vcpus
            invariant
                v <= num_vcpus,
                polling@ == Seq::new(v as nat, |i: int| None::<usize>),
            decreases num_vcpus - v,
        {
            polling.push(None);
            v = v + 1;
        }
        Executor {
            num_vcpus,
            scheduler: Scheduler::new(num_vcpus),
            running_vcpus: 0,
            tasks: Vec::new(),
            polling,
        }
    }

    /// The number of vCPUs.
    pub fn num_vcpus(&self) -> (r: u32)
        ensures
            r == self.vcpus(),
    {
        self.num_vcpus
    }

    /// The scheduler.
    pub fn scheduler(&self) -> (r: &Scheduler)
        ensures
            *r == self.sched(),
    {
        &self.scheduler
    }

    /// The status of task `id`.
    pub fn task_status(&self, id: usize) -> (r: Option<TaskStatus>)
        ensures
            id < self.slots().len() ==> r == Some(self.slots()[id as int].status),
            id >= self.slots().len() ==> r is None,
    {
        if id < self.tasks.len() {
            Some(self.tasks[id].status)
        } else {
            None
        }
    }

    /// The number of tasks ever spawned.
    pub fn num_tasks(&self) -> (r: usize)
        ensures
            r == self.slots().len(),
    {
        self.tasks.len()
    }

    /// Registers the calling worker thread as the next vCPU. Returns its id,
    /// or `None` once every vCPU has a worker.
    pub fn register_vcpu(&mut self) -> (r: Option<u32>)
        requires
            old(self).wf(),
        ensures
            final(self).wf(),
            old(self).registered() < old(self).vcpus() ==> r == Some(old(self).registered() as u32)
                && final(self).registered() == old(self).registered() + 1,
            old(self).registered() >= old(self).vcpus() ==> r is None && final(self).registered()
                == old(self).registered(),
            final(self).sched() == old(self).sched(),
            final(self).slots() == old(self).slots(),
            final(self).polled() == old(self).polled(),
            final(self).vcpus() == old(self).vcpus(),
    {
        if self.running_vcpus < self.num_vcpus {
            let this_vcpu = self.running_vcpus;
            self.running_vcpus = self.running_vcpus + 1;
            Some(this_vcpu)
        } else {
            None
        }
    }

    /// Enqueues the task whose table entry is `task`, as a waker does. A
    /// caller that is itself a vCPU names it in `this_vcpu`.
    pub fn schedule_task(&mut self, task: usize, this_vcpu: Option<u32>)
        requires
            old(self).wf(),
            task < old(self).slots().len(),
        ensures
            final(self).wf(),
            pushed_to(
                old(self).sched().queues(),
                final(self).sched().queues(),
                selection(
                    old(self).sched().idle_mask(),
                    old(self).sched().sleep_mask(),
                    old(self).slots()[task as int].state.affinity@,
                    old(self).vcpus(),
                    old(self).slots()[task as int].state.vcpu,
                    this_vcpu,
                    old(self).sched().counter(),
                ),
                task,
                old(self).slots()[task as int].state,
            ),
            final(self).sched().shut_down() == old(self).sched().shut_down(),
            final(self).slots() == old(self).slots(),
            final(self).polled() == old(self).polled(),
            final(self).registered() == old(self).registered(),
            final(self).vcpus() == old(self).vcpus(),
    {
        let entity = Task { id: task, state: self.tasks[task].state.copy() };
        let ghost e = entity;
        let ghost old_qs = self.scheduler.queues();
        proof {
            self.scheduler.lemma_wf();
        }
        self.scheduler.enqueue(entity, this_vcpu);
        proof {
            let t = selection(
                old(self).sched().idle_mask(),
                old(self).sched().sleep_mask(),
                e.state.affinity@,
                old(self).vcpus(),
                e.state.vcpu,
                this_vcpu,
                old(self).sched().counter(),
            );
            assert(self.scheduler.queues()[t].drop_last() =~= old_qs[t]);
        }
    }

    /// Adds a task that may run on the vCPUs of `affinity`, with the given
    /// class, and enqueues it. Returns its id, the next free entry of the table.
    pub fn spawn(&mut self, affinity: BitMask, priority: Priority, this_vcpu: Option<u32>) -> (r: usize)
        requires
            old(self).wf(),
            affinity_nonempty(affinity@, old(self).vcpus()),
            old(self).slots().len() < usize::MAX,
        ensures
            final(self).wf(),
            r == old(self).slots().len(),
            final(self).slots().len() == old(self).slots().len() + 1,
            forall|id: int| 0 <= id < r ==> #[trigger] final(self).slots()[id] == old(self).slots()[id],
            final(self).slots()[r as int].status == TaskStatus::Runnable,
            final(self).slots()[r as int].state.affinity@ == affinity@,
            final(self).slots()[r as int].state.vcpu is None,
            final(self).slots()[r as int].state.priority == priority,
            pushed_to(
                old(self).sched().queues(),
                final(self).sched().queues(),
                selection(
                    old(self).sched().idle_mask(),
                    old(self).sched().sleep_mask(),
                    affinity@,
                    old(self).vcpus(),
                    None,
                    this_vcpu,
                    old(self).sched().counter(),
                ),
                r,
                final(self).slots()[r as int].state,
            ),
            final(self).sched().shut_down() == old(self).sched().shut_down(),
            final(self).polled() == old(self).polled(),
            final(self).registered() == old(self).registered(),
            final(self).vcpus() == old(self).vcpus(),
    {
        let id = self.tasks.len();
        let state = SchedState::new(affinity, priority);
        self.tasks.push(TaskSlot { state, status: TaskStatus::Runnable });
        proof {
            assert forall|i: int|
                0 <= i < self.tasks@.len() && #[trigger] self.tasks@[i].status is Polling implies {
                let v = self.tasks@[i].status->0;
                &&& v < self.num_vcpus
                &&& self.polling@[v as int] == Some(i as usize)
            } by {
                assert(i < id);
                assert(self.tasks@[i] == old(self).tasks@[i]);
            }
        }
        self.schedule_task(id, this_vcpu);
        id
    }

    /// Shuts the executor down: every vCPU's next turn exits its loop.
    /// Polls in flight may still be reported.
    pub fn shutdown(&mut self)
        requires
            old(self).wf(),
        ensures
            final(self).wf(),
            final(self).sched().shut_down(),
            final(self).sched().queues() == old(self).sched().queues(),
            final(self).slots() == old(self).slots(),
            final(self).polled() == old(self).polled(),
            final(self).registered() == old(self).registered(),
            final(self).vcpus() == old(self).vcpus(),
    {
        self.scheduler.shutdown();
    }

    /// Runs one migration cycle of `task` on the executor's scheduler.
    /// Returns how many tasks moved.
    pub fn rebalance(&mut self, task: &MigrationTask) -> (r: usize)
        requires
            old(self).wf(),
        ensures
            final(self).wf(),
            task.vcpu() < old(self).vcpus() ==> exists|c: Seq<(u32, usize)>|
                is_less_busy_order(old(self).sched().queues(), task.vcpu() as int, c)
                    && final(self).sched().queues() == migrate_along(
                    old(self).sched().queues(),
                    task.vcpu() as int,
                    c,
                ),
            task.vcpu() < old(self).vcpus() ==> r == old(self).sched().queues()[task.vcpu() as int].len() - final(self).sched().queues()[task.vcpu() as int].len(),
            task.vcpu() >= old(self).vcpus() ==> r == 0 && final(self).sched().queues() == old(self).sched().queues(),
            total_len(final(self).sched().queues()) == total_len(old(self).sched().queues()),
            all_tasks(final(self).sched().queues()) == all_tasks(old(self).sched().queues()),
            final(self).sched().idle_mask() == idle_after(
                old(self).sched().idle_mask(),
                final(self).sched().queues(),
            ),
            final(self).sched().sleep_mask() == old(self).sched().sleep_mask(),
            final(self).sched().shut_down() == old(self).sched().shut_down(),
            old(self).table_unchanged(*final(self)),
            final(self).registered() == old(self).registered(),
            final(self).vcpus() == old(self).vcpus(),
    {
        let r = task.do_migration(&mut self.scheduler);
        proof {
            if task.vcpu() < old(self).vcpus() {
                let qs = old(self).sched().queues();
                let v = task.vcpu() as int;
                let c = choose|c: Seq<(u32, usize)>|
                    is_less_busy_order(qs, v, c) && self.scheduler.queues() == migrate_along(qs, v, c);
                assert(is_less_busy_order(old(self).sched().queues(), v, c) && self.sched().queues()
                    == migrate_along(old(self).sched().queues(), v, c));
            }
        }
        r
    }

    /// Marks `this_vcpu` asleep before its worker parks, or awake after.
    pub fn set_vcpu_asleep(&mut self, this_vcpu: u32, asleep: bool)
        requires
            old(self).wf(),
            this_vcpu < old(self).vcpus(),
        ensures
            final(self).wf(),
            final(self).sched().sleep_mask() == old(self).sched().sleep_mask().update(
                this_vcpu as int,
                asleep,
            ),
            final(self).sched().queues() == old(self).sched().queues(),
            final(self).sched().shut_down() == old(self).sched().shut_down(),
            final(self).slots() == old(self).slots(),
            final(self).polled() == old(self).polled(),
            final(self).registered() == old(self).registered(),
            final(self).vcpus() == old(self).vcpus(),
    {
        self.scheduler.set_vcpu_asleep(this_vcpu, asleep);
    }

    /// One turn of `this_vcpu`'s run loop. It dequeues from the vCPU's own
    /// queue and tries to take the task's pollable state without blocking:
    /// a task polled elsewhere is enqueued again, a completed one dropped,
    /// and a runnable one handed out to poll, now marked as polled here.
    /// Once the executor is shut down the turn says `Exit` and takes nothing.
    /// A vCPU that still has a poll in flight is told to go on with it, and
    /// an id that is no vCPU of the executor is told to leave.
    pub fn next_step(&mut self, this_vcpu: u32) -> (r: RunStep)
        requires
            old(self).wf(),
        ensures
            final(self).wf(),
            final(self).vcpus() == old(self).vcpus(),
            final(self).registered() == old(self).registered(),
            final(self).sched().shut_down() == old(self).sched().shut_down(),
            final(self).slots().len() == old(self).slots().len(),
            this_vcpu >= old(self).vcpus() ==> r is Exit && *final(self) == *old(self),
            this_vcpu < old(self).vcpus() && old(self).polled()[this_vcpu as int] is Some ==> r
                == RunStep::Poll(old(self).polled()[this_vcpu as int]->0) && *final(self) == *old(
                self,
            ),
            old(self).may_dequeue(this_vcpu) && old(self).sched().shut_down() ==> r is Exit
                && final(self).sched().queues() == old(self).sched().queues() && old(
                self,
            ).table_unchanged(*final(self)),
            old(self).may_dequeue(this_vcpu) && !old(self).sched().shut_down() && old(
                self,
            ).sched().queues()[this_vcpu as int].len() == 0 ==> r is Idle
                && final(self).sched().queues() == old(self).sched().queues() && old(
                self,
            ).table_unchanged(*final(self)),
            old(self).may_dequeue(this_vcpu) && !old(self).sched().shut_down() && old(
                self,
            ).sched().queues()[this_vcpu as int].len() > 0 ==> exists|i: int|
                is_next(old(self).sched().queues()[this_vcpu as int], i) && old(self).step_taken(
                    *final(self),
                    this_vcpu,
                    i,
                    r,
                ),
    {
        if this_vcpu >= self.num_vcpus {
            return RunStep::Exit;
        }
        if let Some(id) = self.polling[this_vcpu as usize] {
            // A poll is still in flight here: it must be finished first.
            return RunStep::Poll(id);
        }
        proof {
            self.scheduler.lemma_wf();
        }
        let task = match self.scheduler.dequeue(this_vcpu) {
            Dequeued::Shutdown => {
                return RunStep::Exit;
            },
            Dequeued::Empty => {
                return RunStep::Idle;
            },
            Dequeued::Task(task) => task,
        };
        let id = task.id;
        if id >= self.tasks.len() {
            return RunStep::Discarded(id);
        }
        match self.tasks[id].status {
            TaskStatus::Polling(_) => {
                // Being polled by another vCPU at the moment: try again later.
                self.scheduler.enqueue(task, Some(this_vcpu));
                proof {
                    assert(all_tasks(self.scheduler.queues()) =~= all_tasks(old(self).scheduler.queues()));
                }
                RunStep::Requeued(id)
            },
            TaskStatus::Completed => RunStep::Discarded(id),
            TaskStatus::Runnable => {
                self.tasks[id].status = TaskStatus::Polling(this_vcpu);
                self.tasks[id].state.vcpu = Some(this_vcpu);
                self.polling.set(this_vcpu as usize, Some(id));
                proof {
                    assert forall|w: int|
                        0 <= w < self.num_vcpus && #[trigger] self.polling@[w] is Some implies {
                        let k = self.polling@[w]->0;
                        &&& k < self.tasks@.len()
                        &&& self.tasks@[k as int].status == TaskStatus::Polling(w as u32)
                    } by {
                        if w != this_vcpu {
                            let k = old(self).polling@[w]->0;
                            assert(old(self).tasks@[k as int].status == TaskStatus::Polling(w as u32));
                        }
                    }
                    assert forall|k: int|
                        0 <= k < self.tasks@.len() && #[trigger] self.tasks@[k].status is Polling implies {
                        let w = self.tasks@[k].status->0;
                        &&& w < self.num_vcpus
                        &&& self.polling@[w as int] == Some(k as usize)
                    } by {
                        if k != id {
                            assert(self.tasks@[k] == old(self).tasks@[k]);
                        }
                    }
                    assert forall|k: int| 0 <= k < self.tasks@.len() implies affinity_nonempty(
                        #[trigger] self.tasks@[k].state.affinity@,
                        self.num_vcpus as nat,
                    ) by {
                        assert(self.tasks@[k].state.affinity@ == old(self).tasks@[k].state.affinity@);
                    }
                }
                RunStep::Poll(id)
            },
        }
    }

    /// Reports the end of `this_vcpu`'s poll: the task completed (its state
    /// is dropped) or is pending (it waits for its waker). Returns the task's id.
    pub fn finish_poll(&mut self, this_vcpu: u32, completed: bool) -> (r: usize)
        requires
            old(self).wf(),
            this_vcpu < old(self).vcpus(),
            old(self).polled()[this_vcpu as int] is Some,
        ensures
            final(self).wf(),
            r == old(self).polled()[this_vcpu as int]->0,
            final(self).polled() == old(self).polled().update(this_vcpu as int, None),
            final(self).slots().len() == old(self).slots().len(),
            final(self).slots()[r as int].status == (if completed {
                TaskStatus::Completed
            } else {
                TaskStatus::Runnable
            }),
            same_state(final(self).slots()[r as int].state, old(self).slots()[r as int].state),
            forall|id: int|
                0 <= id < old(self).slots().len() && id != r ==> #[trigger] final(self).slots()[id]
                    == old(self).slots()[id],
            final(self).sched() == old(self).sched(),
            final(self).registered() == old(self).registered(),
            final(self).vcpus() == old(self).vcpus(),
    {
        let id = self.polling[this_vcpu as usize].unwrap();
        self.tasks[id].status = if completed {
            TaskStatus::Completed
        } else {
            TaskStatus::Runnable
        };
        self.polling.set(this_vcpu as usize, None);
        let num_tasks = self.tasks.len();
        proof {
            assert(num_tasks == self.tasks@.len());
            assert forall|w: int|
                0 <= w < self.num_vcpus && #[trigger] self.polling@[w] is Some implies {
                let k = self.polling@[w]->0;
                &&& k < self.tasks@.len()
                &&& self.tasks@[k as int].status == TaskStatus::Polling(w as u32)
            } by {
                let k = old(self).polling@[w]->0;
                assert(old(self).tasks@[k as int].status == TaskStatus::Polling(w as u32));
                assert(k != id);
            }
            assert forall|k: int|
                0 <= k < self.tasks@.len() && #[trigger] self.tasks@[k].status is Polling implies {
                let w = self.tasks@[k].status->0;
                &&& w < self.num_vcpus
                &&& self.polling@[w as int] == Some(k as usize)
            } by {
                if k == id {
                    assert(!(self.tasks@[k].status is Polling));
                } else {
                    assert(self.tasks@[k] == old(self).tasks@[k]);
                    let w = self.tasks@[k].status->0;
                    assert(old(self).polling@[w as int] == Some(k as usize));
                    assert(old(self).polling@[this_vcpu as int] == Some(id));
                    assert(w != this_vcpu);
                }
            }
            assert forall|k: int| 0 <= k < self.tasks@.len() implies affinity_nonempty(
                #[trigger] self.tasks@[k].state.affinity@,
                self.num_vcpus as nat,
            ) by {
                assert(self.tasks@[k].state.affinity@ == old(self).tasks@[k].state.affinity@);
            }
        }
        id
    }
}

} // verus!

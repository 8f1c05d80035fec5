//! The scheduler: one local scheduler per vCPU and a vCPU selector.
use vstd::multiset::Multiset;
use vstd::prelude::*;

use crate::bitmask::bit_set;
use crate::entity::{affinity_nonempty, legal, Task};
use crate::local_scheduler::{drained, is_next, lemma_drain_split, remaining, LocalScheduler};
use crate::vcpu_selector::{moves_counter, selection, VcpuSelector};

verus! {

/// Every task in every queue may run on the vCPU whose queue holds it.
pub open spec fn affinity_respected(qs: Seq<Seq<Task>>) -> bool {
    forall|i: int, j: int|
        0 <= i < qs.len() && 0 <= j < qs[i].len() ==> legal(
            #[trigger] qs[i][j].state.affinity@,
            qs.len(),
            i,
        )
}

/// All tasks held by the queues `qs`, counted with multiplicity.
pub open spec fn all_tasks(qs: Seq<Seq<Task>>) -> Multiset<Task>
    decreases qs.len(),
{
    if qs.len() == 0 {
        Multiset::empty()
    } else {
        all_tasks(qs.drop_last()).add(qs.last().to_multiset())
    }
}

/// The number of tasks held by the queues `qs`: the sum of their lengths.
pub open spec fn total_len(qs: Seq<Seq<Task>>) -> int
    decreases qs.len(),
{
    if qs.len() == 0 {
        0
    } else {
        total_len(qs.drop_last()) + qs.last().len()
    }
}

/// The task multiset of some queues has as many elements as the queues
/// have tasks.
pub proof fn lemma_all_tasks_len(qs: Seq<Seq<Task>>)
    ensures
        all_tasks(qs).len() == total_len(qs),
    decreases qs.len(),
{
    broadcast use vstd::seq_lib::group_to_multiset_ensures, vstd::multiset::group_multiset_axioms;

    if qs.len() > 0 {
        lemma_all_tasks_len(qs.drop_last());
    }
}

/// The queues after moving the tasks that draining `qs[src]` for `dst`
/// removes, up to `max`, to the tail of `qs[dst]`.
pub open spec fn move_tasks(qs: Seq<Seq<Task>>, src: int, dst: int, max: nat) -> Seq<Seq<Task>> {
    qs.update(src, remaining(qs[src], max, dst)).update(dst, qs[dst] + drained(qs[src], max, dst))
}

/// Replacing one queue changes the task multiset by exactly that queue.
pub proof fn lemma_all_tasks_update(qs: Seq<Seq<Task>>, i: int, s: Seq<Task>)
    requires
        0 <= i < qs.len(),
    ensures
        all_tasks(qs.update(i, s)).add(qs[i].to_multiset()) == all_tasks(qs).add(s.to_multiset()),
    decreases qs.len(),
{
    broadcast use vstd::multiset::group_multiset_axioms;

    let u = qs.update(i, s);
    let lhs = all_tasks(u).add(qs[i].to_multiset());
    let rhs = all_tasks(qs).add(s.to_multiset());
    assert(all_tasks(u) == all_tasks(u.drop_last()).add(u.last().to_multiset()));
    assert(all_tasks(qs) == all_tasks(qs.drop_last()).add(qs.last().to_multiset()));
    if i == qs.len() - 1 {
        assert(u.drop_last() =~= qs.drop_last());
        assert(u.last() == s);
        assert forall|x: Task| #[trigger] lhs.count(x) == rhs.count(x) by {}
    } else {
        let p = qs.drop_last();
        lemma_all_tasks_update(p, i, s);
        assert(u.drop_last() =~= p.update(i, s));
        assert(u.last() == qs.last());
        assert(p[i] == qs[i]);
        assert forall|x: Task| #[trigger] lhs.count(x) == rhs.count(x) by {
            assert(all_tasks(p.update(i, s)).add(p[i].to_multiset()).count(x) == all_tasks(p).add(
                s.to_multiset(),
            ).count(x));
        }
    }
    assert(lhs =~= rhs);
}

/// Migration moves tasks between queues and never loses or duplicates one.
pub proof fn lemma_migration_conserves_tasks(qs: Seq<Seq<Task>>, src: int, dst: int, max: nat)
    requires
        0 <= src < qs.len(),
        0 <= dst < qs.len(),
        src != dst,
    ensures
        all_tasks(move_tasks(qs, src, dst, max)) == all_tasks(qs),
{
    broadcast use vstd::multiset::group_multiset_axioms;

    let d = drained(qs[src], max, dst);
    let r = remaining(qs[src], max, dst);
    let qs1 = qs.update(src, r);
    lemma_drain_split(qs[src], max, dst);
    lemma_all_tasks_update(qs, src, r);
    lemma_all_tasks_update(qs1, dst, qs[dst] + d);
    vstd::seq_lib::lemma_multiset_commutative(qs[dst], d);
    assert(qs1[dst] == qs[dst]);
    assert(qs1.update(dst, qs[dst] + d) == move_tasks(qs, src, dst, max));
    let m = move_tasks(qs, src, dst, max);
    assert forall|x: Task| #[trigger] all_tasks(m).count(x) == all_tasks(qs).count(x) by {
        assert(all_tasks(m).add(qs[dst].to_multiset()).count(x) == all_tasks(qs1).add(
            (qs[dst] + d).to_multiset(),
        ).count(x));
        assert(all_tasks(qs1).add(qs[src].to_multiset()).count(x) == all_tasks(qs).add(
            r.to_multiset(),
        ).count(x));
    }
    assert(all_tasks(m) =~= all_tasks(qs));
}

/// Migration keeps every task on a vCPU that its affinity allows.
pub proof fn lemma_migration_respects_affinity(qs: Seq<Seq<Task>>, src: int, dst: int, max: nat)
    requires
        affinity_respected(qs),
        0 <= src < qs.len(),
        0 <= dst < qs.len(),
        src != dst,
    ensures
        affinity_respected(move_tasks(qs, src, dst, max)),
{
    broadcast use vstd::seq_lib::group_to_multiset_ensures, vstd::multiset::group_multiset_axioms;

    let d = drained(qs[src], max, dst);
    let r = remaining(qs[src], max, dst);
    let m = move_tasks(qs, src, dst, max);
    lemma_drain_split(qs[src], max, dst);
    assert forall|i: int, j: int| 0 <= i < m.len() && 0 <= j < m[i].len() implies legal(
        #[trigger] m[i][j].state.affinity@,
        m.len(),
        i,
    ) by {
        if i == dst {
            if j >= qs[dst].len() {
                assert(m[i][j] == d[j - qs[dst].len()]);
                assert(d[j - qs[dst].len()].may_run_on(dst));
            } else {
                assert(m[i][j] == qs[dst][j]);
            }
        } else if i == src {
            assert(r.contains(m[i][j]));
            assert(qs[src].to_multiset().count(m[i][j]) > 0);
            assert(qs[src].contains(m[i][j]));
            let k = choose|k: int| 0 <= k < qs[src].len() && qs[src][k] == m[i][j];
            assert(legal(qs[src][k].state.affinity@, qs.len(), src));
        }
    }
}

/// Every task in a queue of a well-formed scheduler may run on that
/// queue's vCPU: enqueue, dequeue and migration all keep it so.
pub proof fn lemma_affinity_invariant(s: &Scheduler, i: int, j: int)
    requires
        s.wf(),
        0 <= i < s.queues().len(),
        0 <= j < s.queues()[i].len(),
    ensures
        legal(s.queues()[i][j].state.affinity@, s.vcpus(), i),
{
    s.lemma_wf();
}

/// What a dequeue found.
pub enum Dequeued {
    /// The next task of the vCPU's queue.
    Task(Task),
    /// The queue was empty: the vCPU is now idle.
    Empty,
    /// The scheduler has been shut down.
    Shutdown,
}

/// A scheduler for tasks on a fixed number of vCPUs.
///
/// Each vCPU pulls only from its own queue. A task is enqueued on the vCPU
/// that the selector picks; only migration moves tasks between queues.
pub struct Scheduler {
    local_schedulers: Vec<LocalScheduler>,
    vcpu_selector: VcpuSelector,
    is_shutdown: bool,
}

impl Scheduler {
    /// The number of vCPUs.
    pub closed spec fn vcpus(&self) -> nat {
        self.vcpu_selector.vcpus()
    }

    /// The queues, one per vCPU.
    pub closed spec fn queues(&self) -> Seq<Seq<Task>> {
        Seq::new(self.local_schedulers@.len(), |i: int| self.local_schedulers@[i].tasks())
    }

    /// Which vCPUs are idle.
    pub closed spec fn idle_mask(&self) -> Seq<bool> {
        self.vcpu_selector.idle_mask()
    }

    /// Which vCPUs are asleep.
    pub closed spec fn sleep_mask(&self) -> Seq<bool> {
        self.vcpu_selector.sleep_mask()
    }

    /// The selector's round-robin counter.
    pub closed spec fn counter(&self) -> nat {
        self.vcpu_selector.counter()
    }

    /// Whether the scheduler has been shut down.
    pub closed spec fn shut_down(&self) -> bool {
        self.is_shutdown
    }

    /// One local scheduler per vCPU, whose flags the selector's masks
    /// mirror; an idle vCPU has an empty queue and is awake; every queued
    /// task may run where it is queued.
    pub closed spec fn wf(&self) -> bool {
        &&& self.vcpu_selector.wf()
        &&& self.local_schedulers@.len() == self.vcpu_selector.vcpus()
        &&& forall|i: int|
            0 <= i < self.local_schedulers@.len() ==> {
                let l = #[trigger] self.local_schedulers@[i];
                &&& l.vcpu() == i
                &&& l.idle() == bit_set(self.idle_mask(), i)
                &&& l.asleep() == bit_set(self.sleep_mask(), i)
                &&& l.idle() ==> l.tasks().len() == 0 && !l.asleep()
            }
        &&& affinity_respected(self.queues())
    }

    /// What the well-formedness of a scheduler says of its views.
    pub proof fn lemma_wf(&self)
        requires
            self.wf(),
        ensures
            self.vcpus() > 0,
            self.vcpus() <= u32::MAX,
            self.queues().len() == self.vcpus(),
            self.idle_mask().len() == self.vcpus(),
            self.sleep_mask().len() == self.vcpus(),
            self.counter() < self.vcpus(),
            affinity_respected(self.queues()),
            forall|i: int|
                0 <= i < self.vcpus() && bit_set(self.idle_mask(), i) ==> self.queues()[i].len() == 0
                    && !bit_set(self.sleep_mask(), i),
    {
        self.vcpu_selector.lemma_wf();
        assert forall|i: int|
            0 <= i < self.vcpus() && bit_set(self.idle_mask(), i) implies self.queues()[i].len()
            == 0 && !bit_set(self.sleep_mask(), i) by {
            assert(self.local_schedulers@[i].idle());
        }
    }

    /// A scheduler for `num_vcpus` vCPUs with empty queues, none idle or asleep.
    pub fn new(num_vcpus: u32) -> (r: Scheduler)
        requires
            num_vcpus > 0,
        ensures
            r.wf(),
            r.vcpus() == num_vcpus,
            r.queues() == Seq::new(num_vcpus as nat, |i: int| Seq::<Task>::empty()),
            r.idle_mask() == Seq::new(num_vcpus as nat, |i: int| false),
            r.sleep_mask() == Seq::new(num_vcpus as nat, |i: int| false),
            r.counter() == 0,
            !r.shut_down(),
    {
        let vcpu_selector = VcpuSelector::new(num_vcpus);
        let mut local_schedulers: Vec<LocalScheduler> = Vec::new();
        let mut this_vcpu: u32 = 0;
        while this_vcpu < num_vcpus
            invariant
                this_vcpu <= num_vcpus,
                local_schedulers@.len() == this_vcpu,
                forall|i: int|
                    0 <= i < this_vcpu ==> {
                        let l = #[trigger] local_schedulers@[i];
                        &&& l.vcpu() == i
                        &&& !l.idle()
                        &&& !l.asleep()
                        &&& l.tasks() == Seq::<Task>::empty()
                    },
            decreases num_vcpus - this_vcpu,
        {
            local_schedulers.push(LocalScheduler::new(this_vcpu));
            this_vcpu = this_vcpu + 1;
        }
        let r = Scheduler { local_schedulers, vcpu_selector, is_shutdown: false };
        assert(r.queues() =~= Seq::new(num_vcpus as nat, |i: int| Seq::<Task>::empty()));
        r
    }

    /// Enqueues `entity` on the vCPU that the selector picks. A caller that
    /// is itself a vCPU names it in `this_vcpu`. The target vCPU stops being idle.
    pub fn enqueue(&mut self, entity: Task, this_vcpu: Option<u32>)
        requires
            old(self).wf(),
            affinity_nonempty(entity.state.affinity@, old(self).vcpus()),
        ensures
            final(self).wf(),
            ({
                let t = selection(
                    old(self).idle_mask(),
                    old(self).sleep_mask(),
                    entity.state.affinity@,
                    old(self).vcpus(),
                    entity.state.vcpu,
                    this_vcpu,
                    old(self).counter(),
                );
                &&& legal(entity.state.affinity@, old(self).vcpus(), t)
                &&& final(self).queues() == old(self).queues().update(t, old(self).queues()[t].push(entity))
                &&& final(self).idle_mask() == old(self).idle_mask().update(t, false)
                &&& moves_counter(
                    old(self).idle_mask(),
                    old(self).sleep_mask(),
                    entity.state.affinity@,
                    old(self).vcpus(),
                    entity.state.vcpu,
                ) ==> final(self).counter() == (t + 1) % (old(self).vcpus() as int)
                &&& !moves_counter(
                    old(self).idle_mask(),
                    old(self).sleep_mask(),
                    entity.state.affinity@,
                    old(self).vcpus(),
                    entity.state.vcpu,
                ) ==> final(self).counter() == old(self).counter()
            }),
            all_tasks(final(self).queues()) == all_tasks(old(self).queues()).insert(entity),
            final(self).sleep_mask() == old(self).sleep_mask(),
            final(self).vcpus() == old(self).vcpus(),
            final(self).shut_down() == old(self).shut_down(),
    {
        broadcast use vstd::seq_lib::group_to_multiset_ensures, vstd::multiset::group_multiset_axioms;

        proof {
            self.vcpu_selector.lemma_wf();
        }
        let ghost old_qs = self.queues();
        let target_vcpu = self.vcpu_selector.select_vcpu(&entity.state, this_vcpu);
        let ghost e = entity;
        self.local_schedulers[target_vcpu as usize].enqueue(entity);
        self.vcpu_selector.notify_idle_status(target_vcpu, false);
        let ghost t = target_vcpu as int;
        proof {
            self.vcpu_selector.lemma_wf();
            assert(self.queues() =~= old_qs.update(t, old_qs[t].push(e)));
            lemma_all_tasks_update(old_qs, t, old_qs[t].push(e));
            let qs = self.queues();
            assert forall|x: Task| #[trigger] all_tasks(qs).count(x) == all_tasks(old_qs).insert(
                e,
            ).count(x) by {
                assert(all_tasks(qs).add(old_qs[t].to_multiset()).count(x) == all_tasks(old_qs).add(
                    old_qs[t].push(e).to_multiset(),
                ).count(x));
            }
            assert(all_tasks(self.queues()) =~= all_tasks(old_qs).insert(e));
            let qs = self.queues();
            assert forall|i: int, j: int| 0 <= i < qs.len() && 0 <= j < qs[i].len() implies legal(
                #[trigger] qs[i][j].state.affinity@,
                qs.len(),
                i,
            ) by {
                if i == t && j == old_qs[t].len() {
                } else {
                    assert(qs[i][j] == old_qs[i][j]);
                }
            }
        }
    }

    /// Dequeues the next task of `this_vcpu`'s own queue: the first task of
    /// the highest class present. An empty queue makes the vCPU idle; a
    /// shut-down scheduler hands out nothing and changes nothing.
    pub fn dequeue(&mut self, this_vcpu: u32) -> (r: Dequeued)
        requires
            old(self).wf(),
            this_vcpu < old(self).vcpus(),
        ensures
            final(self).wf(),
            final(self).vcpus() == old(self).vcpus(),
            final(self).counter() == old(self).counter(),
            final(self).shut_down() == old(self).shut_down(),
            old(self).shut_down() ==> r is Shutdown && final(self).queues() == old(self).queues()
                && final(self).idle_mask() == old(self).idle_mask() && final(self).sleep_mask()
                == old(self).sleep_mask(),
            !old(self).shut_down() ==> {
                let q = old(self).queues()[this_vcpu as int];
                &&& final(self).sleep_mask() == old(self).sleep_mask().update(this_vcpu as int, false)
                &&& final(self).idle_mask() == old(self).idle_mask().update(
                    this_vcpu as int,
                    q.len() == 0,
                )
                &&& q.len() == 0 ==> r is Empty && final(self).queues() == old(self).queues()
                &&& q.len() > 0 ==> (r matches Dequeued::Task(t) && exists|i: int|
                    is_next(q, i) && t == q[i] && final(self).queues() == old(self).queues().update(
                        this_vcpu as int,
                        q.remove(i),
                    ))
            },
            r is Task ==> legal(r->Task_0.state.affinity@, old(self).vcpus(), this_vcpu as int)
                && all_tasks(old(self).queues()) == all_tasks(final(self).queues()).insert(r->Task_0),
    {
        broadcast use vstd::seq_lib::group_to_multiset_ensures, vstd::multiset::group_multiset_axioms;

        if self.is_shutdown {
            return Dequeued::Shutdown;
        }
        proof {
            self.vcpu_selector.lemma_wf();
        }
        let ghost old_qs = self.queues();
        let ghost v = this_vcpu as int;
        let ghost q = old_qs[v];
        let r = self.local_schedulers[this_vcpu as usize].dequeue();
        let is_idle = self.local_schedulers[this_vcpu as usize].is_idle();
        self.vcpu_selector.notify_idle_status(this_vcpu, is_idle);
        self.vcpu_selector.notify_sleep_status(this_vcpu, false);
        proof {
            self.vcpu_selector.lemma_wf();
        }
        match r {
            Some(t) => {
                proof {
                    let i = choose|i: int|
                        is_next(q, i) && Some(t) == Some(q[i]) && self.local_schedulers@[v].tasks()
                            == q.remove(i);
                    assert(self.queues() =~= old_qs.update(v, q.remove(i)));
                    lemma_all_tasks_update(old_qs, v, q.remove(i));
                    assert(q.remove(i).to_multiset() == q.to_multiset().remove(t));
                    let qs = self.queues();
                    assert forall|x: Task| #[trigger] all_tasks(old_qs).count(x) == all_tasks(
                        qs,
                    ).insert(t).count(x) by {
                        assert(all_tasks(qs).add(q.to_multiset()).count(x) == all_tasks(old_qs).add(
                            q.remove(i).to_multiset(),
                        ).count(x));
                    }
                    assert(all_tasks(old_qs) =~= all_tasks(self.queues()).insert(t));
                    assert(legal(q[i].state.affinity@, old_qs.len(), v));
                    let qs = self.queues();
                    assert forall|a: int, b: int|
                        0 <= a < qs.len() && 0 <= b < qs[a].len() implies legal(
                        #[trigger] qs[a][b].state.affinity@,
                        qs.len(),
                        a,
                    ) by {
                        if a == v {
                            if b < i {
                                assert(qs[a][b] == q[b]);
                            } else {
                                assert(qs[a][b] == q[b + 1]);
                            }
                        } else {
                            assert(qs[a][b] == old_qs[a][b]);
                        }
                    }
                }
                Dequeued::Task(t)
            },
            None => {
                assert(self.queues() =~= old_qs);
                Dequeued::Empty
            },
        }
    }

    /// The number of vCPUs.
    pub fn num_vcpus(&self) -> (r: u32)
        requires
            self.wf(),
        ensures
            r == self.vcpus(),
    {
        self.vcpu_selector.num_vcpus()
    }

    /// The per-vCPU local schedulers, indexed by vCPU id.
    pub fn local_schedulers(&self) -> (r: &[LocalScheduler])
        requires
            self.wf(),
        ensures
            r@.len() == self.vcpus(),
            forall|i: int|
                0 <= i < r@.len() ==> {
                    let l = #[trigger] r@[i];
                    &&& l.tasks() == self.queues()[i]
                    &&& l.vcpu() == i
                    &&& l.idle() == bit_set(self.idle_mask(), i)
                    &&& l.asleep() == bit_set(self.sleep_mask(), i)
                },
    {
        self.local_schedulers.as_slice()
    }

    /// Shuts the scheduler down: every later dequeue reports it.
    pub fn shutdown(&mut self)
        requires
            old(self).wf(),
        ensures
            final(self).wf(),
            final(self).shut_down(),
            final(self).queues() == old(self).queues(),
            final(self).idle_mask() == old(self).idle_mask(),
            final(self).sleep_mask() == old(self).sleep_mask(),
            final(self).counter() == old(self).counter(),
            final(self).vcpus() == old(self).vcpus(),
    {
        self.is_shutdown = true;
    }

    /// Whether the scheduler has been shut down.
    pub fn is_shutdown(&self) -> (r: bool)
        ensures
            r == self.shut_down(),
    {
        self.is_shutdown
    }

    /// Marks `vcpu` asleep (parked) or awake. An asleep vCPU is not idle.
    pub fn set_vcpu_asleep(&mut self, vcpu: u32, asleep: bool)
        requires
            old(self).wf(),
            vcpu < old(self).vcpus(),
        ensures
            final(self).wf(),
            final(self).sleep_mask() == old(self).sleep_mask().update(vcpu as int, asleep),
            final(self).idle_mask() == old(self).idle_mask().update(
                vcpu as int,
                bit_set(old(self).idle_mask(), vcpu as int) && !asleep,
            ),
            final(self).queues() == old(self).queues(),
            final(self).counter() == old(self).counter(),
            final(self).vcpus() == old(self).vcpus(),
            final(self).shut_down() == old(self).shut_down(),
    {
        proof {
            self.vcpu_selector.lemma_wf();
        }
        let ghost old_qs = self.queues();
        self.local_schedulers[vcpu as usize].set_asleep(asleep);
        let is_idle = self.local_schedulers[vcpu as usize].is_idle();
        self.vcpu_selector.notify_sleep_status(vcpu, asleep);
        self.vcpu_selector.notify_idle_status(vcpu, is_idle);
        proof {
            self.vcpu_selector.lemma_wf();
        }
        assert(self.queues() =~= old_qs);
    }

    /// Moves up to `max_count` tasks that may run on `dst` from the head of
    /// `src`'s queue to the tail of `dst`'s, bypassing the selector.
    /// Returns how many moved; `dst` stops being idle if any did.
    pub fn migrate(&mut self, src: u32, dst: u32, max_count: usize) -> (r: usize)
        requires
            old(self).wf(),
            src < old(self).vcpus(),
            dst < old(self).vcpus(),
            src != dst,
        ensures
            final(self).wf(),
            final(self).queues() == move_tasks(old(self).queues(), src as int, dst as int, max_count as nat),
            r == drained(old(self).queues()[src as int], max_count as nat, dst as int).len(),
            final(self).idle_mask() == old(self).idle_mask().update(
                dst as int,
                bit_set(old(self).idle_mask(), dst as int) && r == 0,
            ),
            final(self).sleep_mask() == old(self).sleep_mask(),
            final(self).counter() == old(self).counter(),
            final(self).vcpus() == old(self).vcpus(),
            final(self).shut_down() == old(self).shut_down(),
    {
        let ghost old_qs = self.queues();
        proof {
            self.vcpu_selector.lemma_wf();
            lemma_drain_split(old_qs[src as int], max_count as nat, dst as int);
            lemma_migration_respects_affinity(old_qs, src as int, dst as int, max_count as nat);
        }
        let mut tasks = self.local_schedulers[src as usize].drain(max_count, dst);
        let ghost d = tasks@;
        let r = tasks.len();
        let ghost dst_q = self.local_schedulers@[dst as int].tasks();
        let ghost mut k: int = 0;
        while tasks.len() > 0
            invariant
                self.vcpu_selector == old(self).vcpu_selector,
                self.is_shutdown == old(self).is_shutdown,
                self.local_schedulers@.len() == old(self).local_schedulers@.len(),
                src < self.local_schedulers@.len(),
                dst < self.local_schedulers@.len(),
                src != dst,
                0 <= k <= d.len(),
                tasks@ == d.skip(k),
                forall|i: int|
                    0 <= i < self.local_schedulers@.len() && i != dst && i != src
                        ==> #[trigger] self.local_schedulers@[i] == old(self).local_schedulers@[i],
                self.local_schedulers@[src as int].tasks() == remaining(
                    old_qs[src as int],
                    max_count as nat,
                    dst as int,
                ),
                self.local_schedulers@[src as int].vcpu() == src,
                self.local_schedulers@[src as int].idle() == old(self).local_schedulers@[src as int].idle(),
                self.local_schedulers@[src as int].asleep() == old(
                    self,
                ).local_schedulers@[src as int].asleep(),
                self.local_schedulers@[dst as int].tasks() == dst_q + d.take(k),
                self.local_schedulers@[dst as int].vcpu() == dst,
                self.local_schedulers@[dst as int].asleep() == old(
                    self,
                ).local_schedulers@[dst as int].asleep(),
                self.local_schedulers@[dst as int].idle() == (old(
                    self,
                ).local_schedulers@[dst as int].idle() && k == 0),
            decreases tasks@.len(),
        {
            let t = tasks.remove(0);
            self.local_schedulers[dst as usize].enqueue(t);
            proof {
                assert(d.take(k + 1) =~= d.take(k).push(d[k]));
                assert(d.skip(k).remove(0) =~= d.skip(k + 1));
                k = k + 1;
            }
        }
        proof {
            assert(d.take(k) =~= d);
        }
        let is_idle = self.local_schedulers[dst as usize].is_idle();
        self.vcpu_selector.notify_idle_status(dst, is_idle);
        proof {
            self.vcpu_selector.lemma_wf();
        }
        assert(self.queues() =~= move_tasks(old_qs, src as int, dst as int, max_count as nat));
        r
    }
}

} // verus!

//! The load balancer: per-vCPU migration of queued tasks from busier vCPUs
//! to less busy ones.
use vstd::prelude::*;

use crate::bitmask::bit_set;
use crate::entity::Task;
use crate::local_scheduler::{drained, lemma_drain_split, LocalScheduler};
use crate::scheduler::{
    affinity_respected, all_tasks, lemma_all_tasks_len, lemma_migration_conserves_tasks,
    lemma_migration_respects_affinity, move_tasks, total_len, Scheduler,
};

verus! {

/// Whether candidate `a` comes before `b`: lower load first, then lower id.
pub open spec fn comes_before(a: (u32, usize), b: (u32, usize)) -> bool {
    a.1 < b.1 || (a.1 == b.1 && a.0 < b.0)
}

/// Whether `c` lists, as `(vcpu, load)`, exactly the vCPUs strictly less
/// loaded than `v` in `qs`, in ascending order of load (then of id).
pub open spec fn is_less_busy_order(qs: Seq<Seq<Task>>, v: int, c: Seq<(u32, usize)>) -> bool {
    &&& forall|k: int|
        0 <= k < c.len() ==> {
            let e = #[trigger] c[k];
            &&& 0 <= e.0 < qs.len()
            &&& e.0 != v
            &&& e.1 == qs[e.0 as int].len()
            &&& e.1 < qs[v].len()
        }
    &&& forall|u: int|
        0 <= u < qs.len() && u != v && #[trigger] qs[u].len() < qs[v].len() ==> exists|k: int|
            0 <= k < c.len() && c[k].0 == u
    &&& forall|k1: int, k2: int| 0 <= k1 < k2 < c.len() ==> comes_before(#[trigger] c[k1], #[trigger] c[k2])
}

/// How many tasks may move from a vCPU of load `this_load` to one of load
/// `dst_load`: none unless the gap exceeds two, else half the gap.
pub open spec fn migration_quota(this_load: int, dst_load: int) -> int {
    if this_load <= dst_load + 2 {
        0
    } else {
        (this_load - dst_load) / 2
    }
}

/// The queues after vCPU `v` migrates along the candidates `c`, in order,
/// re-reading its own load before each and stopping at the first candidate
/// whose quota is zero.
pub open spec fn migrate_along(qs: Seq<Seq<Task>>, v: int, c: Seq<(u32, usize)>) -> Seq<Seq<Task>>
    decreases c.len(),
{
    if c.len() == 0 {
        qs
    } else {
        let q = migration_quota(qs[v].len() as int, c[0].1 as int);
        if q <= 0 {
            qs
        } else {
            migrate_along(move_tasks(qs, v, c[0].0 as int, q as nat), v, c.drop_first())
        }
    }
}

/// The idle mask `idle` after the queues became `qs`: a vCPU stays idle only
/// while its queue stays empty.
pub open spec fn idle_after(idle: Seq<bool>, qs: Seq<Seq<Task>>) -> Seq<bool> {
    Seq::new(idle.len(), |i: int| bit_set(idle, i) && qs[i].len() == 0)
}

/// A migration only moves when the source is more than two tasks ahead,
/// always moves at least one task then, and never leaves the destination
/// more loaded than the source.
pub proof fn lemma_migration_narrows_gap(this_load: int, dst_load: int)
    requires
        0 <= dst_load,
    ensures
        migration_quota(this_load, dst_load) > 0 <==> this_load > dst_load + 2,
        migration_quota(this_load, dst_load) > 0 ==> dst_load + migration_quota(this_load, dst_load)
            <= this_load - migration_quota(this_load, dst_load),
{
}

/// A whole migration cycle, along any candidates other than the source,
/// neither loses nor duplicates a task, and keeps every task on a vCPU that
/// its affinity allows.
pub proof fn lemma_rebalancing_conserves_tasks(qs: Seq<Seq<Task>>, v: int, c: Seq<(u32, usize)>)
    requires
        0 <= v < qs.len(),
        forall|k: int| 0 <= k < c.len() ==> (#[trigger] c[k]).0 < qs.len() && c[k].0 != v,
    ensures
        all_tasks(migrate_along(qs, v, c)) == all_tasks(qs),
        affinity_respected(qs) ==> affinity_respected(migrate_along(qs, v, c)),
    decreases c.len(),
{
    if c.len() > 0 {
        let q = migration_quota(qs[v].len() as int, c[0].1 as int);
        if q > 0 {
            let d = c[0].0 as int;
            let m = move_tasks(qs, v, d, q as nat);
            lemma_migration_conserves_tasks(qs, v, d, q as nat);
            if affinity_respected(qs) {
                lemma_migration_respects_affinity(qs, v, d, q as nat);
            }
            assert forall|k: int| 0 <= k < c.drop_first().len() implies (
            #[trigger] c.drop_first()[k]).0 < m.len() && c.drop_first()[k].0 != v by {
                assert(c.drop_first()[k] == c[k + 1]);
            }
            lemma_rebalancing_conserves_tasks(m, v, c.drop_first());
        }
    }
}

/// The vCPUs strictly less loaded than `this_vcpu`, as `(vcpu, load)`,
/// sorted by load, then by id.
fn less_busy_vcpus(local_schedulers: &[LocalScheduler], this_vcpu: u32, Ghost(qs): Ghost<Seq<Seq<Task>>>) -> (r: Vec<(u32, usize)>)
    requires
        local_schedulers@.len() == qs.len(),
        qs.len() <= u32::MAX,
        this_vcpu < qs.len(),
        forall|i: int| 0 <= i < qs.len() ==> (#[trigger] local_schedulers@[i]).tasks() == qs[i],
    ensures
        is_less_busy_order(qs, this_vcpu as int, r@),
{
    let n = local_schedulers.len();
    let this_load = local_schedulers[this_vcpu as usize].len();
    let mut c: Vec<(u32, usize)> = Vec::new();
    let mut u: usize = 0;
    while u < n
        invariant
            n == qs.len(),
            u <= n,
            n <= u32::MAX,
            this_vcpu < n,
            this_load == qs[this_vcpu as int].len(),
            local_schedulers@.len() == qs.len(),
            forall|i: int| 0 <= i < qs.len() ==> (#[trigger] local_schedulers@[i]).tasks() == qs[i],
            forall|k: int|
                0 <= k < c@.len() ==> {
                    let e = #[trigger] c@[k];
                    &&& 0 <= e.0 < u
                    &&& e.0 != this_vcpu
                    &&& e.1 == qs[e.0 as int].len()
                    &&& e.1 < this_load
                },
            forall|w: int|
                0 <= w < u && w != this_vcpu && #[trigger] qs[w].len() < this_load ==> exists|k: int|
                    0 <= k < c@.len() && c@[k].0 == w,
            forall|k1: int, k2: int|
                0 <= k1 < k2 < c@.len() ==> comes_before(#[trigger] c@[k1], #[trigger] c@[k2]),
        decreases n - u,
    {
        let load = local_schedulers[u].len();
        if u != this_vcpu as usize && load < this_load {
            let mut pos: usize = 0;
            while pos < c.len() && c[pos].1 <= load
                invariant
                    pos <= c@.len(),
                    forall|k: int| 0 <= k < pos ==> (#[trigger] c@[k]).1 <= load,
                decreases c@.len() - pos,
            {
                pos = pos + 1;
            }
            let ghost old_c = c@;
            let x = (u as u32, load);
            c.insert(pos, x);
            proof {
                old_c.insert_ensures(pos as int, x);
                assert forall|w: int|
                    0 <= w < u + 1 && w != this_vcpu && #[trigger] qs[w].len() < this_load implies exists|
                    k: int,
                | 0 <= k < c@.len() && c@[k].0 == w by {
                    if w == u {
                        assert(c@[pos as int].0 == w);
                    } else {
                        let k = choose|k: int| 0 <= k < old_c.len() && old_c[k].0 == w;
                        if k < pos {
                            assert(c@[k].0 == w);
                        } else {
                            assert(c@[k + 1].0 == w);
                        }
                    }
                }
                assert forall|k1: int, k2: int| 0 <= k1 < k2 < c@.len() implies comes_before(
                    #[trigger] c@[k1],
                    #[trigger] c@[k2],
                ) by {
                    if k2 < pos {
                    } else if k2 == pos {
                        assert(old_c[k1].1 <= load);
                        assert(old_c[k1].0 < u);
                    } else if k1 < pos {
                        assert(c@[k2] == old_c[k2 - 1]);
                        assert(comes_before(old_c[k1], old_c[k2 - 1]));
                    } else if k1 == pos {
                        assert(c@[k2] == old_c[k2 - 1]);
                        assert(pos < old_c.len());
                        assert(old_c[pos as int].1 > load);
                        if k2 - 1 > pos {
                            assert(comes_before(old_c[pos as int], old_c[k2 - 1]));
                        }
                    } else {
                        assert(c@[k1] == old_c[k1 - 1]);
                        assert(c@[k2] == old_c[k2 - 1]);
                        assert(comes_before(old_c[k1 - 1], old_c[k2 - 1]));
                    }
                }
            }
        }
        u = u + 1;
    }
    c
}

/// The per-vCPU migration task of a load balancer.
pub struct MigrationTask {
    this_vcpu: u32,
}

impl MigrationTask {
    /// The vCPU whose queue it takes load from.
    pub closed spec fn vcpu(&self) -> u32 {
        self.this_vcpu
    }

    /// A migration task for `this_vcpu`.
    pub fn new(this_vcpu: u32) -> (r: MigrationTask)
        ensures
            r.vcpu() == this_vcpu,
    {
        MigrationTask { this_vcpu }
    }

    /// The vCPU whose queue it takes load from.
    pub fn this_vcpu(&self) -> (r: u32)
        ensures
            r == self.vcpu(),
    {
        self.this_vcpu
    }

    /// One migration cycle: moves tasks from this vCPU to the vCPUs strictly
    /// less loaded than it, least loaded first, each task only to a vCPU that
    /// its affinity allows. Returns how many tasks moved.
    pub fn do_migration(&self, scheduler: &mut Scheduler) -> (r: usize)
        requires
            old(scheduler).wf(),
        ensures
            final(scheduler).wf(),
            self.vcpu() < old(scheduler).vcpus() ==> exists|c: Seq<(u32, usize)>|
                is_less_busy_order(old(scheduler).queues(), self.vcpu() as int, c)
                    && final(scheduler).queues() == migrate_along(
                    old(scheduler).queues(),
                    self.vcpu() as int,
                    c,
                ),
            self.vcpu() < old(scheduler).vcpus() ==> r == old(scheduler).queues()[self.vcpu() as int].len() - final(scheduler).queues()[self.vcpu() as int].len(),
            self.vcpu() >= old(scheduler).vcpus() ==> r == 0 && final(scheduler).queues() == old(scheduler).queues(),
            all_tasks(final(scheduler).queues()) == all_tasks(old(scheduler).queues()),
            total_len(final(scheduler).queues()) == total_len(old(scheduler).queues()),
            final(scheduler).idle_mask() == idle_after(old(scheduler).idle_mask(), final(scheduler).queues()),
            final(scheduler).sleep_mask() == old(scheduler).sleep_mask(),
            final(scheduler).counter() == old(scheduler).counter(),
            final(scheduler).vcpus() == old(scheduler).vcpus(),
            final(scheduler).shut_down() == old(scheduler).shut_down(),
    {
        let this_vcpu = self.this_vcpu;
        let ghost old_qs = scheduler.queues();
        let ghost v = this_vcpu as int;
        proof {
            scheduler.lemma_wf();
            let idle = scheduler.idle_mask();
            assert forall|j: int| 0 <= j < idle.len() implies idle[j] == (bit_set(idle, j)
                && old_qs[j].len() == 0) by {
                if bit_set(idle, j) {
                    assert(old_qs[j].len() == 0);
                }
            }
            assert(scheduler.idle_mask() =~= idle_after(scheduler.idle_mask(), old_qs));
            lemma_all_tasks_len(old_qs);
        }
        if this_vcpu >= scheduler.num_vcpus() {
            return 0;
        }
        let less_busy = less_busy_vcpus(scheduler.local_schedulers(), this_vcpu, Ghost(old_qs));
        let ghost c = less_busy@;
        assert(c.skip(0) =~= c);
        let initial_load = scheduler.local_schedulers()[this_vcpu as usize].len();
        let mut num_migrated_tasks: usize = 0;
        let mut i: usize = 0;
        while i < less_busy.len()
            invariant
                scheduler.wf(),
                old(scheduler).wf(),
                scheduler.vcpus() == old(scheduler).vcpus(),
                old_qs == old(scheduler).queues(),
                v < old_qs.len(),
                this_vcpu < scheduler.vcpus(),
                v == this_vcpu as int,
                initial_load == old_qs[v].len(),
                less_busy@ == c,
                i <= c.len(),
                is_less_busy_order(old_qs, v, c),
                migrate_along(old_qs, v, c) == migrate_along(scheduler.queues(), v, c.skip(i as int)),
                all_tasks(scheduler.queues()) == all_tasks(old_qs),
                scheduler.queues()[v].len() <= old_qs[v].len(),
                num_migrated_tasks == old_qs[v].len() - scheduler.queues()[v].len(),
                scheduler.idle_mask() == idle_after(old(scheduler).idle_mask(), scheduler.queues()),
                scheduler.sleep_mask() == old(scheduler).sleep_mask(),
                scheduler.counter() == old(scheduler).counter(),
                scheduler.shut_down() == old(scheduler).shut_down(),
            ensures
                migrate_along(old_qs, v, c) == scheduler.queues(),
            decreases c.len() - i,
        {
            let (dst_vcpu, dst_load) = less_busy[i];
            let ghost qs = scheduler.queues();
            proof {
                scheduler.lemma_wf();
                old(scheduler).lemma_wf();
                assert(c.skip(i as int)[0] == c[i as int]);
                assert(c.skip(i as int).drop_first() =~= c.skip(i + 1));
            }
            // The latest load of this vCPU
            let this_load = scheduler.local_schedulers()[this_vcpu as usize].len();
            // Keep a gap of two tasks, lest tasks bounce back and forth
            if this_load <= dst_load || this_load - dst_load <= 2 {
                assert(this_load == qs[v].len());
                assert(dst_load == c[i as int].1);
                assert(migration_quota(qs[v].len() as int, c[i as int].1 as int) == 0);
                assert(migrate_along(qs, v, c.skip(i as int)) == qs);
                assert(migrate_along(old_qs, v, c) == scheduler.queues());
                break;
            }
            let max_tasks_to_migrate = (this_load - dst_load) / 2;
            proof {
                lemma_drain_split(qs[v], max_tasks_to_migrate as nat, dst_vcpu as int);
                lemma_migration_conserves_tasks(qs, v, dst_vcpu as int, max_tasks_to_migrate as nat);
            }
            let ghost idle_before = scheduler.idle_mask();
            let moved = scheduler.migrate(this_vcpu, dst_vcpu, max_tasks_to_migrate);
            proof {
                let nq = scheduler.queues();
                assert(nq[v] == crate::local_scheduler::remaining(
                    qs[v],
                    max_tasks_to_migrate as nat,
                    dst_vcpu as int,
                ));
                assert(nq[v].to_multiset().len() == nq[v].len()) by {
                    vstd::seq_lib::to_multiset_len(nq[v]);
                }
                vstd::seq_lib::to_multiset_len(qs[v]);
                vstd::seq_lib::to_multiset_len(
                    drained(qs[v], max_tasks_to_migrate as nat, dst_vcpu as int),
                );
                assert(nq[v].len() + moved == qs[v].len());
                scheduler.lemma_wf();
                old(scheduler).lemma_wf();
                assert(scheduler.idle_mask() =~= idle_after(old(scheduler).idle_mask(), nq));
            }
            num_migrated_tasks = num_migrated_tasks + moved;
            i = i + 1;
            if i == less_busy.len() {
                assert(c.skip(i as int) =~= Seq::<(u32, usize)>::empty());
            }
        }
        proof {
            assert(is_less_busy_order(old_qs, v, c) && scheduler.queues() == migrate_along(
                old_qs,
                v,
                c,
            ));
            lemma_all_tasks_len(scheduler.queues());
        }
        num_migrated_tasks
    }
}

/// The life cycle of a load balancer's migration tasks.
#[derive(Clone, Copy, Debug, PartialEq, Eq, Structural)]
pub enum BalancerState {
    /// No migration task runs.
    Stopped,
    /// One migration task per vCPU runs.
    Running,
    /// The migration tasks have been told to stop and are being joined.
    Stopping,
}

/// How many migration tasks `start` spawns in state `s`, for `n` vCPUs.
pub open spec fn start_spawns(s: BalancerState, n: nat) -> nat {
    if s is Stopped {
        n
    } else {
        0
    }
}

/// The state after `start` in state `s`.
pub open spec fn start_next(s: BalancerState) -> BalancerState {
    if s is Stopped {
        BalancerState::Running
    } else {
        s
    }
}

/// Whether `stop` in state `s` signals migration tasks to stop.
pub open spec fn stop_signals(s: BalancerState) -> bool {
    s is Running
}

/// The state after `stop` in state `s`.
pub open spec fn stop_next(s: BalancerState) -> BalancerState {
    if s is Running {
        BalancerState::Stopping
    } else {
        s
    }
}

/// Starting twice in a row spawns the migration tasks once; stopping a
/// balancer that never started does nothing.
pub proof fn lemma_start_stop_idempotent(s: BalancerState, n: nat)
    ensures
        start_spawns(start_next(s), n) == 0,
        start_next(start_next(s)) == start_next(s),
        !stop_signals(BalancerState::Stopped),
        stop_next(BalancerState::Stopped) == BalancerState::Stopped,
        stop_next(stop_next(s)) == stop_next(s),
{
}

/// A load balancer: it starts one migration task per vCPU and stops them.
/// The caller spawns the tasks that `start` hands out, and on `stop` wakes
/// and joins them, then calls `finish_stop`.
pub struct LoadBalancer {
    num_vcpus: u32,
    state: BalancerState,
}

impl LoadBalancer {
    /// The number of vCPUs.
    pub closed spec fn vcpus(&self) -> nat {
        self.num_vcpus as nat
    }

    /// The life-cycle state.
    pub closed spec fn status(&self) -> BalancerState {
        self.state
    }

    /// A stopped load balancer for the vCPUs of `scheduler`.
    pub fn new(scheduler: &Scheduler) -> (r: LoadBalancer)
        requires
            scheduler.wf(),
        ensures
            r.vcpus() == scheduler.vcpus(),
            r.status() == BalancerState::Stopped,
    {
        LoadBalancer { num_vcpus: scheduler.num_vcpus(), state: BalancerState::Stopped }
    }

    /// Starts the migration tasks: returns one per vCPU, in vCPU order, if
    /// the balancer was stopped, and none otherwise.
    pub fn start(&mut self) -> (r: Vec<MigrationTask>)
        ensures
            final(self).status() == start_next(old(self).status()),
            final(self).vcpus() == old(self).vcpus(),
            r@.len() == start_spawns(old(self).status(), old(self).vcpus()),
            forall|k: int| 0 <= k < r@.len() ==> (#[trigger] r@[k]).vcpu() == k,
    {
        let mut tasks: Vec<MigrationTask> = Vec::new();
        if self.state != BalancerState::Stopped {
            return tasks;
        }
        let mut this_vcpu: u32 = 0;
        while this_vcpu < self.num_vcpus
            invariant
                this_vcpu <= self.num_vcpus,
                tasks@.len() == this_vcpu,
                forall|k: int| 0 <= k < tasks@.len() ==> (#[trigger] tasks@[k]).vcpu() == k,
            decreases self.num_vcpus - this_vcpu,
        {
            tasks.push(MigrationTask::new(this_vcpu));
            this_vcpu = this_vcpu + 1;
        }
        self.state = BalancerState::Running;
        tasks
    }

    /// Tells the migration tasks to stop. Returns whether any were running,
    /// that is whether the caller must wake and join them.
    pub fn stop(&mut self) -> (r: bool)
        ensures
            final(self).status() == stop_next(old(self).status()),
            final(self).vcpus() == old(self).vcpus(),
            r == stop_signals(old(self).status()),
    {
        if self.state == BalancerState::Running {
            self.state = BalancerState::Stopping;
            true
        } else {
            false
        }
    }

    /// Records that the stopped migration tasks have all been joined.
    pub fn finish_stop(&mut self)
        ensures
            old(self).status() is Stopping ==> final(self).status() == BalancerState::Stopped,
            !(old(self).status() is Stopping) ==> final(self).status() == old(self).status(),
            final(self).vcpus() == old(self).vcpus(),
    {
        if self.state == BalancerState::Stopping {
            self.state = BalancerState::Stopped;
        }
    }

    /// Whether the migration tasks should stop.
    pub fn should_stop(&self) -> (r: bool)
        ensures
            r == (self.status() is Stopping),
    {
        self.state == BalancerState::Stopping
    }

    /// The life-cycle state.
    pub fn state(&self) -> (r: BalancerState)
        ensures
            r == self.status(),
    {
        self.state
    }
}

} // verus!

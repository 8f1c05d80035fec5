//! The vCPU selector: where a task should be enqueued.
use vstd::prelude::*;

use crate::bitmask::{bit_set, BitMask};
use crate::entity::{affinity_nonempty, legal, SchedState};

verus! {

/// The lowest vCPU `u` with `i <= u < n`, legal for `affinity`, whose bit in
/// `mask` equals `want`.
pub open spec fn first_where(mask: Seq<bool>, want: bool, affinity: Seq<bool>, n: nat, i: int) -> Option<int>
    decreases n - i,
{
    if i < 0 || i >= n {
        None
    } else if bit_set(mask, i) == want && legal(affinity, n, i) {
        Some(i)
    } else {
        first_where(mask, want, affinity, n, i + 1)
    }
}

/// What `first_where` finds is legal and has the wanted bit.
pub proof fn lemma_first_where_found(mask: Seq<bool>, want: bool, affinity: Seq<bool>, n: nat, i: int)
    ensures
        first_where(mask, want, affinity, n, i) matches Some(u) ==> legal(affinity, n, u) && bit_set(
            mask,
            u,
        ) == want && i <= u,
    decreases n - i,
{
    if 0 <= i < n && !(bit_set(mask, i) == want && legal(affinity, n, i)) {
        lemma_first_where_found(mask, want, affinity, n, i + 1);
    }
}

/// `first_where` finds something when some candidate exists.
pub proof fn lemma_first_where_complete(
    mask: Seq<bool>,
    want: bool,
    affinity: Seq<bool>,
    n: nat,
    i: int,
    u: int,
)
    requires
        0 <= i <= u,
        legal(affinity, n, u),
        bit_set(mask, u) == want,
    ensures
        first_where(mask, want, affinity, n, i) is Some,
    decreases u - i,
{
    if i < u && !(bit_set(mask, i) == want && legal(affinity, n, i)) {
        lemma_first_where_complete(mask, want, affinity, n, i + 1, u);
    }
}

/// Whether a round-robin pick may take vCPU `v`: the affinity allows it
/// and, when `awake_only`, it is not asleep.
pub open spec fn rr_ok(affinity: Seq<bool>, asleep: Seq<bool>, awake_only: bool, n: nat, v: int) -> bool {
    legal(affinity, n, v) && (!awake_only || !bit_set(asleep, v))
}

/// The round-robin pick: starting at `(c + k) % n` and going round, the
/// first vCPU that `rr_ok` accepts.
pub open spec fn round_robin(
    affinity: Seq<bool>,
    asleep: Seq<bool>,
    awake_only: bool,
    n: nat,
    c: nat,
    k: nat,
) -> int
    decreases n - k,
{
    if k >= n {
        c as int
    } else if rr_ok(affinity, asleep, awake_only, n, (c + k) as int % (n as int)) {
        (c + k) as int % (n as int)
    } else {
        round_robin(affinity, asleep, awake_only, n, c, k + 1)
    }
}

/// The affinity that allows all `n` vCPUs.
pub open spec fn all_vcpus(n: nat) -> Seq<bool> {
    Seq::new(n, |i: int| true)
}

/// The vCPUs chosen by `m` successive round-robin picks for tasks of
/// affinity `affinity`, starting from counter `c`; each moves the counter
/// one past its pick.
pub open spec fn round_robin_run(
    affinity: Seq<bool>,
    asleep: Seq<bool>,
    awake_only: bool,
    n: nat,
    c: nat,
    m: nat,
) -> Seq<int>
    decreases m,
{
    if m == 0 || n == 0 {
        Seq::empty()
    } else {
        let v = round_robin(affinity, asleep, awake_only, n, c, 0);
        seq![v] + round_robin_run(
            affinity,
            asleep,
            awake_only,
            n,
            ((v + 1) % (n as int)) as nat,
            (m - 1) as nat,
        )
    }
}

/// Whether `u` is among the `n` placements of `run` from index `k` on.
pub open spec fn placed_within(run: Seq<int>, k: int, n: nat, u: int) -> bool {
    exists|j: int| k <= j < k + n && run[j] == u
}

/// When every vCPU may be picked (all in the affinity and, for picks among
/// awake vCPUs, all awake), round-robin placements visit the vCPUs in turn
/// from the counter: any `n` consecutive placements hit each of the `n`
/// vCPUs exactly once, so over any run no vCPU gets more than one placement
/// more than another.
pub proof fn lemma_round_robin_spreads_evenly(
    affinity: Seq<bool>,
    asleep: Seq<bool>,
    awake_only: bool,
    n: nat,
    c: nat,
    m: nat,
)
    requires
        0 < n,
        c < n,
        forall|v: int| 0 <= v < n ==> #[trigger] rr_ok(affinity, asleep, awake_only, n, v),
    ensures
        round_robin_run(affinity, asleep, awake_only, n, c, m).len() == m,
        forall|k: int|
            0 <= k < m ==> #[trigger] round_robin_run(affinity, asleep, awake_only, n, c, m)[k] == (c + k)
                % (n as int),
        forall|k1: int, k2: int|
            0 <= k1 < k2 < m && k2 - k1 < n ==> #[trigger] round_robin_run(affinity, asleep, awake_only, n, c, m)[k1] != #[trigger] round_robin_run(affinity, asleep, awake_only, n, c, m)[k2],
        forall|k: int, u: int|
            0 <= k && k + n <= m && 0 <= u < n ==> #[trigger] placed_within(
                round_robin_run(affinity, asleep, awake_only, n, c, m),
                k,
                n,
                u,
            ),
    decreases m,
{
    let run = round_robin_run(affinity, asleep, awake_only, n, c, m);
    if m > 0 {
        vstd::arithmetic::div_mod::lemma_small_mod(c, n);
        assert(rr_ok(affinity, asleep, awake_only, n, (c + 0) as int % (n as int)));
        assert(round_robin(affinity, asleep, awake_only, n, c, 0) == c);
        let c1 = ((c + 1) as int % (n as int)) as nat;
        vstd::arithmetic::div_mod::lemma_mod_bound((c + 1) as int, n as int);
        lemma_round_robin_spreads_evenly(affinity, asleep, awake_only, n, c1, (m - 1) as nat);
        let rest = round_robin_run(affinity, asleep, awake_only, n, c1, (m - 1) as nat);
        assert(run == seq![c as int] + rest);
        assert forall|k: int| 0 <= k < m implies #[trigger] run[k] == (c + k) % (n as int) by {
            if k > 0 {
                assert(run[k] == rest[k - 1]);
                vstd::arithmetic::div_mod::lemma_add_mod_noop((c + 1) as int, k - 1, n as int);
                vstd::arithmetic::div_mod::lemma_add_mod_noop_right(
                    (c + 1) as int % (n as int),
                    k - 1,
                    n as int,
                );
                assert(rest[k - 1] == (c1 + (k - 1)) % (n as int));
            }
        }
    }
    assert forall|k1: int, k2: int| 0 <= k1 < k2 < m && k2 - k1 < n implies #[trigger] run[k1]
        != #[trigger] run[k2] by {
        vstd::arithmetic::div_mod::lemma_mod_equivalence(c + k2, c + k1, n as int);
        vstd::arithmetic::div_mod::lemma_small_mod((k2 - k1) as nat, n);
    }
    assert forall|k: int, u: int| 0 <= k && k + n <= m && 0 <= u < n implies #[trigger] placed_within(
        run,
        k,
        n,
        u,
    ) by {
        let j = k + ((u - c - k) % (n as int));
        vstd::arithmetic::div_mod::lemma_mod_bound(u - c - k, n as int);
        assert(run[j] == (c + j) % (n as int));
        assert((c + j) % (n as int) == u) by {
            vstd::arithmetic::div_mod::lemma_add_mod_noop(c + k, u - c - k, n as int);
            vstd::arithmetic::div_mod::lemma_mod_twice(u - c - k, n as int);
            vstd::arithmetic::div_mod::lemma_small_mod(u as nat, n);
            vstd::arithmetic::div_mod::lemma_add_mod_noop(c + k, (u - c - k) % (n as int), n as int);
        }
        assert(k <= j < k + n && run[j] == u);
    }
}

/// Whether the optional vCPU `v` is present and legal for `affinity`.
pub open spec fn legal_opt(affinity: Seq<bool>, n: nat, v: Option<u32>) -> bool {
    v is Some && legal(affinity, n, v->0 as int)
}

/// Whether the selection is decided by a round-robin rule: no vCPU of the
/// affinity is idle, the last vCPU is not an awake one of the affinity, and
/// either some vCPU of the affinity is awake or the last vCPU is not in it.
pub open spec fn moves_counter(
    idle: Seq<bool>,
    asleep: Seq<bool>,
    affinity: Seq<bool>,
    n: nat,
    last: Option<u32>,
) -> bool {
    &&& first_where(idle, true, affinity, n, 0) is None
    &&& !(legal_opt(affinity, n, last) && !bit_set(asleep, last->0 as int))
    &&& (first_where(asleep, false, affinity, n, 0) is Some || !legal_opt(affinity, n, last))
}

/// The vCPU chosen for a task with `affinity` that last ran on `last`, asked
/// from vCPU `this` (if any), given the idle and asleep masks and the
/// round-robin counter `c`. The first rule that applies wins: this vCPU if
/// idle; the last vCPU if idle; the lowest idle vCPU; the last vCPU if
/// awake; the next awake vCPU round robin from the counter; the last vCPU;
/// the next vCPU round robin from the counter.
pub open spec fn selection(
    idle: Seq<bool>,
    asleep: Seq<bool>,
    affinity: Seq<bool>,
    n: nat,
    last: Option<u32>,
    this: Option<u32>,
    c: nat,
) -> int {
    if legal_opt(affinity, n, this) && bit_set(idle, this->0 as int) {
        this->0 as int
    } else if legal_opt(affinity, n, last) && bit_set(idle, last->0 as int) {
        last->0 as int
    } else if first_where(idle, true, affinity, n, 0) is Some {
        first_where(idle, true, affinity, n, 0)->0
    } else if legal_opt(affinity, n, last) && !bit_set(asleep, last->0 as int) {
        last->0 as int
    } else if first_where(asleep, false, affinity, n, 0) is Some {
        round_robin(affinity, asleep, true, n, c, 0)
    } else if legal_opt(affinity, n, last) {
        last->0 as int
    } else {
        round_robin(affinity, asleep, false, n, c, 0)
    }
}

/// With every vCPU in the affinity, none idle and all awake, a task that
/// never ran is placed by the round-robin rule over awake vCPUs, which moves
/// the counter; so successive such placements form a `round_robin_run`.
pub proof fn lemma_busy_awake_placement(
    idle: Seq<bool>,
    asleep: Seq<bool>,
    n: nat,
    this: Option<u32>,
    c: nat,
)
    requires
        0 < n,
        forall|v: int| 0 <= v < n ==> !#[trigger] bit_set(idle, v),
        forall|v: int| 0 <= v < n ==> !#[trigger] bit_set(asleep, v),
    ensures
        selection(idle, asleep, all_vcpus(n), n, None, this, c) == round_robin(
            all_vcpus(n),
            asleep,
            true,
            n,
            c,
            0,
        ),
        moves_counter(idle, asleep, all_vcpus(n), n, None),
        forall|v: int| 0 <= v < n ==> #[trigger] rr_ok(all_vcpus(n), asleep, true, n, v),
{
    let full = all_vcpus(n);
    lemma_first_where_found(idle, true, full, n, 0);
    assert(bit_set(full, 0) && !bit_set(asleep, 0));
    lemma_first_where_complete(asleep, false, full, n, 0, 0);
    assert forall|v: int| 0 <= v < n implies #[trigger] rr_ok(full, asleep, true, n, v) by {
        assert(bit_set(full, v));
        assert(!bit_set(asleep, v));
    }
}

/// The vCPU selector. It holds the status registry (which vCPUs are idle,
/// which asleep) and the round-robin counter for first placements.
pub struct VcpuSelector {
    idle_vcpu_mask: BitMask,
    sleep_vcpu_mask: BitMask,
    num_vcpus: u32,
    next_vcpu: u32,
}

impl VcpuSelector {
    /// The idle mask.
    pub closed spec fn idle_mask(&self) -> Seq<bool> {
        self.idle_vcpu_mask@
    }

    /// The asleep mask.
    pub closed spec fn sleep_mask(&self) -> Seq<bool> {
        self.sleep_vcpu_mask@
    }

    /// The number of vCPUs.
    pub closed spec fn vcpus(&self) -> nat {
        self.num_vcpus as nat
    }

    /// The round-robin counter: the next vCPU to try.
    pub closed spec fn counter(&self) -> nat {
        self.next_vcpu as nat
    }

    /// Both masks have one bit per vCPU, and the counter names a vCPU.
    pub closed spec fn wf(&self) -> bool {
        &&& self.idle_vcpu_mask@.len() == self.num_vcpus
        &&& self.sleep_vcpu_mask@.len() == self.num_vcpus
        &&& self.num_vcpus > 0
        &&& self.next_vcpu < self.num_vcpus
    }

    /// What the well-formedness of a selector says of its views.
    pub proof fn lemma_wf(&self)
        requires
            self.wf(),
        ensures
            self.vcpus() > 0,
            self.vcpus() <= u32::MAX,
            self.counter() < self.vcpus(),
            self.idle_mask().len() == self.vcpus(),
            self.sleep_mask().len() == self.vcpus(),
    {
    }

    /// A selector for `num_vcpus` vCPUs, none of them idle or asleep.
    pub fn new(num_vcpus: u32) -> (r: VcpuSelector)
        requires
            num_vcpus > 0,
        ensures
            r.wf(),
            r.vcpus() == num_vcpus,
            r.idle_mask() == Seq::new(num_vcpus as nat, |i: int| false),
            r.sleep_mask() == Seq::new(num_vcpus as nat, |i: int| false),
            r.counter() == 0,
    {
        VcpuSelector {
            idle_vcpu_mask: BitMask::new_zeroes(num_vcpus as usize),
            sleep_vcpu_mask: BitMask::new_zeroes(num_vcpus as usize),
            num_vcpus,
            next_vcpu: 0,
        }
    }

    /// The number of vCPUs.
    pub fn num_vcpus(&self) -> (r: u32)
        ensures
            r == self.vcpus(),
    {
        self.num_vcpus
    }

    /// Whether `vcpu` is marked idle.
    pub fn is_idle(&self, vcpu: u32) -> (r: bool)
        ensures
            r == bit_set(self.idle_mask(), vcpu as int),
    {
        self.idle_vcpu_mask.get(vcpu as usize)
    }

    /// Whether `vcpu` is marked asleep.
    pub fn is_asleep(&self, vcpu: u32) -> (r: bool)
        ensures
            r == bit_set(self.sleep_mask(), vcpu as int),
    {
        self.sleep_vcpu_mask.get(vcpu as usize)
    }

    /// Records whether `vcpu` is idle.
    pub fn notify_idle_status(&mut self, vcpu: u32, is_idle: bool)
        requires
            old(self).wf(),
            vcpu < old(self).vcpus(),
        ensures
            final(self).wf(),
            final(self).idle_mask() == old(self).idle_mask().update(vcpu as int, is_idle),
            final(self).sleep_mask() == old(self).sleep_mask(),
            final(self).vcpus() == old(self).vcpus(),
            final(self).counter() == old(self).counter(),
    {
        self.idle_vcpu_mask.set(vcpu as usize, is_idle);
    }

    /// Records whether `vcpu` is asleep.
    pub fn notify_sleep_status(&mut self, vcpu: u32, is_sleep: bool)
        requires
            old(self).wf(),
            vcpu < old(self).vcpus(),
        ensures
            final(self).wf(),
            final(self).sleep_mask() == old(self).sleep_mask().update(vcpu as int, is_sleep),
            final(self).idle_mask() == old(self).idle_mask(),
            final(self).vcpus() == old(self).vcpus(),
            final(self).counter() == old(self).counter(),
    {
        self.sleep_vcpu_mask.set(vcpu as usize, is_sleep);
    }

    /// The lowest legal vCPU whose bit in `mask` equals `want`.
    fn find_first(mask: &BitMask, want: bool, affinity: &BitMask, n: u32) -> (r: Option<u32>)
        ensures
            r matches Some(v) ==> Some(v as int) == first_where(mask@, want, affinity@, n as nat, 0),
            r is None ==> first_where(mask@, want, affinity@, n as nat, 0) is None,
    {
        let mut i: u32 = 0;
        while i < n
            invariant
                i <= n,
                first_where(mask@, want, affinity@, n as nat, 0) == first_where(
                    mask@,
                    want,
                    affinity@,
                    n as nat,
                    i as int,
                ),
            decreases n - i,
        {
            if mask.get(i as usize) == want && affinity.get(i as usize) {
                return Some(i);
            }
            i = i + 1;
        }
        None
    }

    /// Selects the vCPU for a task with scheduling state `sched_state`. If
    /// the caller is itself a vCPU, `has_this_vcpu` names it. The result is
    /// always a vCPU that the task's affinity allows; the round-robin
    /// counter moves one past the pick when a round-robin rule decides.
    pub fn select_vcpu(&mut self, sched_state: &SchedState, has_this_vcpu: Option<u32>) -> (r: u32)
        requires
            old(self).wf(),
            affinity_nonempty(sched_state.affinity@, old(self).vcpus()),
        ensures
            final(self).wf(),
            r as int == selection(
                old(self).idle_mask(),
                old(self).sleep_mask(),
                sched_state.affinity@,
                old(self).vcpus(),
                sched_state.vcpu,
                has_this_vcpu,
                old(self).counter(),
            ),
            legal(sched_state.affinity@, old(self).vcpus(), r as int),
            final(self).idle_mask() == old(self).idle_mask(),
            final(self).sleep_mask() == old(self).sleep_mask(),
            final(self).vcpus() == old(self).vcpus(),
            moves_counter(
                old(self).idle_mask(),
                old(self).sleep_mask(),
                sched_state.affinity@,
                old(self).vcpus(),
                sched_state.vcpu,
            ) ==> final(self).counter() == (r as int + 1) % (old(self).vcpus() as int),
            !moves_counter(
                old(self).idle_mask(),
                old(self).sleep_mask(),
                sched_state.affinity@,
                old(self).vcpus(),
                sched_state.vcpu,
            ) ==> final(self).counter() == old(self).counter(),
    {
        let n = self.num_vcpus;
        let affinity = sched_state.affinity();
        // 1. This vCPU, if it is idle
        if let Some(this_vcpu) = has_this_vcpu {
            if this_vcpu < n && affinity.get(this_vcpu as usize) && self.idle_vcpu_mask.get(
                this_vcpu as usize,
            ) {
                proof {
                    lemma_first_where_complete(
                        self.idle_vcpu_mask@,
                        true,
                        affinity@,
                        n as nat,
                        0,
                        this_vcpu as int,
                    );
                }
                return this_vcpu;
            }
        }
        let has_last_vcpu = match sched_state.vcpu() {
            Some(last_vcpu) => {
                if last_vcpu < n && affinity.get(last_vcpu as usize) {
                    Some(last_vcpu)
                } else {
                    None
                }
            },
            None => None,
        };
        // 2. The last vCPU, if it is idle
        if let Some(last_vcpu) = has_last_vcpu {
            if self.idle_vcpu_mask.get(last_vcpu as usize) {
                proof {
                    lemma_first_where_complete(
                        self.idle_vcpu_mask@,
                        true,
                        affinity@,
                        n as nat,
                        0,
                        last_vcpu as int,
                    );
                }
                return last_vcpu;
            }
        }
        proof {
            lemma_first_where_found(self.idle_vcpu_mask@, true, affinity@, n as nat, 0);
            lemma_first_where_found(self.sleep_vcpu_mask@, false, affinity@, n as nat, 0);
        }
        // 3. Any idle vCPU
        if let Some(idle_vcpu) = Self::find_first(&self.idle_vcpu_mask, true, affinity, n) {
            return idle_vcpu;
        }
        // 4. The last vCPU, if it is awake
        if let Some(last_vcpu) = has_last_vcpu {
            if !self.sleep_vcpu_mask.get(last_vcpu as usize) {
                return last_vcpu;
            }
        }
        // 5. An awake vCPU, round robin so that placements spread out
        if let Some(active_vcpu) = Self::find_first(&self.sleep_vcpu_mask, false, affinity, n) {
            proof {
                assert(rr_ok(affinity@, self.sleep_vcpu_mask@, true, n as nat, active_vcpu as int));
            }
            return self.next_round_robin(affinity, true);
        }
        // 6. The last vCPU, awake or not
        if let Some(last_vcpu) = has_last_vcpu {
            return last_vcpu;
        }
        // 7. Round robin over the vCPUs that the affinity allows
        proof {
            let v = choose|v: int| legal(affinity@, n as nat, v);
            assert(rr_ok(affinity@, self.sleep_vcpu_mask@, false, n as nat, v));
        }
        self.next_round_robin(affinity, false)
    }

    /// Advances the round-robin counter to the first vCPU that `affinity`
    /// allows (and that is awake, when `awake_only`), returns it, and moves
    /// the counter one past it.
    fn next_round_robin(&mut self, affinity: &BitMask, awake_only: bool) -> (r: u32)
        requires
            old(self).wf(),
            exists|v: int| rr_ok(affinity@, old(self).sleep_mask(), awake_only, old(self).vcpus(), v),
        ensures
            final(self).wf(),
            r as int == round_robin(
                affinity@,
                old(self).sleep_mask(),
                awake_only,
                old(self).vcpus(),
                old(self).counter(),
                0,
            ),
            rr_ok(affinity@, old(self).sleep_mask(), awake_only, old(self).vcpus(), r as int),
            final(self).counter() == (r as int + 1) % (old(self).vcpus() as int),
            final(self).idle_mask() == old(self).idle_mask(),
            final(self).sleep_mask() == old(self).sleep_mask(),
            final(self).vcpus() == old(self).vcpus(),
    {
        let n = self.num_vcpus;
        let ghost c = self.next_vcpu as int;
        let ghost asleep = self.sleep_vcpu_mask@;
        let ghost target = choose|v: int| rr_ok(affinity@, asleep, awake_only, n as nat, v);
        let ghost kstar: int = (target - c + n) % (n as int);
        proof {
            assert(0 <= kstar < n);
            assert((c + kstar) % (n as int) == target) by (nonlinear_arith)
                requires
                    kstar == (target - c + n) % (n as int),
                    0 <= c < n,
                    0 <= target < n,
            {
                vstd::arithmetic::div_mod::lemma_mod_add_multiples_vanish(target - c, n as int);
            }
        }
        let mut v: u32 = self.next_vcpu;
        let ghost mut k: int = 0;
        proof {
            vstd::arithmetic::div_mod::lemma_small_mod(c as nat, n as nat);
        }
        loop
            invariant
                self.wf(),
                self.num_vcpus == n,
                self.next_vcpu == c,
                n == old(self).num_vcpus,
                c == old(self).next_vcpu,
                0 <= k <= kstar < n,
                (c + kstar) % (n as int) == target,
                rr_ok(affinity@, asleep, awake_only, n as nat, target),
                v as int == (c + k) % (n as int),
                asleep == self.sleep_vcpu_mask@,
                round_robin(affinity@, asleep, awake_only, n as nat, c as nat, 0) == round_robin(
                    affinity@,
                    asleep,
                    awake_only,
                    n as nat,
                    c as nat,
                    k as nat,
                ),
                self.idle_vcpu_mask@ == old(self).idle_vcpu_mask@,
                self.sleep_vcpu_mask@ == old(self).sleep_vcpu_mask@,
            decreases kstar - k,
        {
            if affinity.get(v as usize) && !(awake_only && self.sleep_vcpu_mask.get(v as usize)) {
                assert(0 <= v < n);
                assert(round_robin(affinity@, asleep, awake_only, n as nat, c as nat, k as nat)
                    == v as int);
                self.next_vcpu = if v + 1 == n { 0 } else { v + 1 };
                proof {
                    assert(v < n);
                    assert(0 <= (v + 1) % (n as int) < n);
                    if v + 1 == n {
                        vstd::arithmetic::div_mod::lemma_mod_self_0(n as int);
                    } else {
                        vstd::arithmetic::div_mod::lemma_small_mod((v + 1) as nat, n as nat);
                    }
                }
                return v;
            }
            proof {
                if k == kstar {
                    assert(false);
                }
                vstd::arithmetic::div_mod::lemma_add_mod_noop(c + k, 1, n as int);
                if n == 1 {
                    assert(false);
                } else {
                    vstd::arithmetic::div_mod::lemma_small_mod(1, n as nat);
                }
                assert(v < n);
                if v + 1 == n {
                    vstd::arithmetic::div_mod::lemma_mod_self_0(n as int);
                } else {
                    vstd::arithmetic::div_mod::lemma_small_mod((v + 1) as nat, n as nat);
                }
                k = k + 1;
            }
            v = if v + 1 == n { 0 } else { v + 1 };
        }
    }
}

} // verus!

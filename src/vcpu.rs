//! vCPU identity: the total number of vCPUs and the vCPU of a worker thread,
//! held in explicit context values.
use vstd::prelude::*;

verus! {

/// The vCPU id that stands for "not a vCPU".
pub const NONE_VCPU: u32 = 0xffff_ffff;

/// The total number of vCPUs: 1 until set, and set at most once.
pub struct TotalVcpus {
    total: u32,
    is_set: bool,
}

impl TotalVcpus {
    /// The current total.
    pub closed spec fn value(&self) -> u32 {
        self.total
    }

    /// Whether the total has been set.
    pub closed spec fn was_set(&self) -> bool {
        self.is_set
    }

    /// The default: one vCPU, not yet set.
    pub fn new() -> (r: TotalVcpus)
        ensures
            r.value() == 1,
            !r.was_set(),
    {
        TotalVcpus { total: 1, is_set: false }
    }
}

/// Sets the total number of vCPUs. Only the first call takes effect.
pub fn set_total(vcpus: &mut TotalVcpus, total_vcpus: u32)
    ensures
        !old(vcpus).was_set() ==> final(vcpus).value() == total_vcpus,
        old(vcpus).was_set() ==> final(vcpus).value() == old(vcpus).value(),
        final(vcpus).was_set(),
{
    if !vcpus.is_set {
        vcpus.total = total_vcpus;
        vcpus.is_set = true;
    }
}

/// The total number of vCPUs.
pub fn get_total(vcpus: &TotalVcpus) -> (r: u32)
    ensures
        r == vcpus.value(),
{
    vcpus.total
}

/// The vCPU that a worker thread serves, if any.
pub struct CurrentVcpu {
    id: u32,
}

impl CurrentVcpu {
    /// The vCPU served, or `None` for a thread that is not a vCPU.
    pub closed spec fn current(&self) -> Option<u32> {
        if self.id == NONE_VCPU {
            None
        } else {
            Some(self.id)
        }
    }

    /// A thread that serves no vCPU.
    pub fn new() -> (r: CurrentVcpu)
        ensures
            r.current() is None,
    {
        CurrentVcpu { id: NONE_VCPU }
    }

    /// The vCPU served, if any.
    pub fn get(&self) -> (r: Option<u32>)
        ensures
            r == self.current(),
    {
        if self.id == NONE_VCPU {
            None
        } else {
            Some(self.id)
        }
    }
}

/// The vCPU id of the current thread, which must serve a vCPU.
pub fn get_current(current: &CurrentVcpu) -> (r: u32)
    requires
        current.current() is Some,
    ensures
        Some(r) == current.current(),
{
    current.id
}

/// Records that the current thread serves `current_vcpu`.
pub fn set_current(current: &mut CurrentVcpu, current_vcpu: u32)
    requires
        current_vcpu != NONE_VCPU,
    ensures
        final(current).current() == Some(current_vcpu),
{
    current.id = current_vcpu;
}

/// Records that the current thread no longer serves a vCPU.
pub fn clear_current(current: &mut CurrentVcpu)
    ensures
        final(current).current() is None,
{
    current.id = NONE_VCPU;
}

} // verus!

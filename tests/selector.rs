use async_rt::bitmask::BitMask;
use async_rt::entity::{Priority, SchedState};
use async_rt::vcpu_selector::VcpuSelector;

fn state(bits: Vec<bool>, last: Option<u32>) -> SchedState {
    let mut s = SchedState::new(BitMask::from_bits(bits), Priority::Normal);
    s.vcpu = last;
    s
}

#[test]
fn idle_vcpu_wins_over_busy_one() {
    let mut sel = VcpuSelector::new(2);
    sel.notify_idle_status(0, true);
    assert_eq!(sel.select_vcpu(&state(vec![true, true], None), None), 0);
    assert_eq!(sel.select_vcpu(&state(vec![true, true], Some(1)), Some(1)), 0);
}

#[test]
fn awake_last_vcpu_wins_over_any_awake_vcpu() {
    let mut sel = VcpuSelector::new(2);
    sel.notify_sleep_status(0, true);
    assert_eq!(sel.select_vcpu(&state(vec![true, true], Some(1)), None), 1);
    // Even with vCPU 0 awake, the awake last vCPU comes first.
    sel.notify_sleep_status(0, false);
    assert_eq!(sel.select_vcpu(&state(vec![true, true], Some(1)), None), 1);
}

#[test]
fn current_vcpu_if_idle_comes_first() {
    let mut sel = VcpuSelector::new(3);
    sel.notify_idle_status(0, true);
    sel.notify_idle_status(2, true);
    sel.notify_idle_status(1, true);
    assert_eq!(sel.select_vcpu(&state(vec![true, true, true], Some(1)), Some(2)), 2);
    // Not in the affinity: the idle last vCPU instead.
    assert_eq!(sel.select_vcpu(&state(vec![true, true, false], Some(1)), Some(2)), 1);
}

#[test]
fn idle_last_vcpu_before_lowest_idle() {
    let mut sel = VcpuSelector::new(3);
    sel.notify_idle_status(0, true);
    sel.notify_idle_status(2, true);
    assert_eq!(sel.select_vcpu(&state(vec![true, true, true], Some(2)), None), 2);
    assert_eq!(sel.select_vcpu(&state(vec![true, true, true], Some(1)), None), 0);
}

#[test]
fn any_idle_vcpu_respects_affinity() {
    let mut sel = VcpuSelector::new(3);
    sel.notify_idle_status(0, true);
    sel.notify_idle_status(2, true);
    assert_eq!(sel.select_vcpu(&state(vec![false, true, true], None), None), 2);
}

#[test]
fn awake_vcpus_taken_round_robin_when_none_idle() {
    let mut sel = VcpuSelector::new(3);
    sel.notify_sleep_status(0, true);
    // From counter 0, the first awake vCPU is 1; the counter moves to 2.
    assert_eq!(sel.select_vcpu(&state(vec![true, true, true], None), None), 1);
    // An asleep last vCPU gives way to the next awake one.
    assert_eq!(sel.select_vcpu(&state(vec![true, true, true], Some(0)), None), 2);
    assert_eq!(sel.select_vcpu(&state(vec![true, true, true], None), None), 1);
}

#[test]
fn asleep_last_vcpu_before_round_robin() {
    let mut sel = VcpuSelector::new(3);
    for v in 0..3 {
        sel.notify_sleep_status(v, true);
    }
    assert_eq!(sel.select_vcpu(&state(vec![true, true, true], Some(2)), None), 2);
    // The round-robin counter did not move.
    assert_eq!(sel.select_vcpu(&state(vec![true, true, true], None), None), 0);
}

#[test]
fn round_robin_skips_vcpus_outside_the_affinity() {
    let mut sel = VcpuSelector::new(4);
    for v in 0..4 {
        sel.notify_sleep_status(v, true);
    }
    let picks: Vec<u32> = (0..4)
        .map(|_| sel.select_vcpu(&state(vec![false, true, false, true], None), None))
        .collect();
    assert_eq!(picks, vec![1, 3, 1, 3]);
}

#[test]
fn round_robin_spreads_a_thousand_placements_over_asleep_vcpus() {
    let mut sel = VcpuSelector::new(4);
    for v in 0..4 {
        sel.notify_sleep_status(v, true);
    }
    let mut counts = [0usize; 4];
    for _ in 0..1000 {
        let v = sel.select_vcpu(&state(vec![true; 4], None), None);
        counts[v as usize] += 1;
    }
    assert_eq!(counts, [250, 250, 250, 250]);
}

#[test]
fn busy_awake_vcpus_share_a_thousand_first_placements_evenly() {
    // Every vCPU busy (none idle) and awake, full affinity, no last vCPU.
    let mut sel = VcpuSelector::new(4);
    let mut counts = [0usize; 4];
    for _ in 0..1000 {
        let v = sel.select_vcpu(&state(vec![true; 4], None), None);
        counts[v as usize] += 1;
    }
    assert_eq!(counts, [250, 250, 250, 250]);
}

#[test]
fn busy_awake_placements_go_round_in_turn() {
    let mut sel = VcpuSelector::new(3);
    let picks: Vec<u32> = (0..7).map(|_| sel.select_vcpu(&state(vec![true; 3], None), None)).collect();
    assert_eq!(picks, vec![0, 1, 2, 0, 1, 2, 0]);
}

#[test]
fn awake_round_robin_skips_asleep_and_disallowed_vcpus() {
    let mut sel = VcpuSelector::new(4);
    sel.notify_sleep_status(2, true);
    let picks: Vec<u32> = (0..4)
        .map(|_| sel.select_vcpu(&state(vec![false, true, true, true], None), None))
        .collect();
    assert_eq!(picks, vec![1, 3, 1, 3]);
}

#[test]
fn out_of_range_current_vcpu_is_ignored() {
    let mut sel = VcpuSelector::new(2);
    sel.notify_idle_status(1, true);
    assert_eq!(sel.select_vcpu(&state(vec![true, true, true], None), Some(5)), 1);
    assert_eq!(sel.num_vcpus(), 2);
    assert!(sel.is_idle(1) && !sel.is_asleep(1));
}

#[test]
fn single_vcpu_always_gets_the_task() {
    let mut sel = VcpuSelector::new(1);
    sel.notify_sleep_status(0, true);
    for _ in 0..3 {
        assert_eq!(sel.select_vcpu(&state(vec![true], None), None), 0);
    }
}

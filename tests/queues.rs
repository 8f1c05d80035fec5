use async_rt::bitmask::BitMask;
use async_rt::entity::{Priority, SchedState, Task};
use async_rt::local_scheduler::LocalScheduler;

fn task(id: usize, bits: Vec<bool>, priority: Priority) -> Task {
    Task { id, state: SchedState::new(BitMask::from_bits(bits), priority) }
}

#[test]
fn bitmask_get_and_set() {
    let mut m = BitMask::new_zeroes(3);
    assert_eq!(m.len(), 3);
    assert!(!m.get(1));
    m.set(1, true);
    assert!(m.get(1));
    assert!(!m.get(0));
    // Past the end reads as unset and writes are ignored.
    assert!(!m.get(7));
    m.set(7, true);
    assert_eq!(m.len(), 3);
    let ones = BitMask::new_ones(2);
    assert!(ones.get(0) && ones.get(1) && !ones.get(2));
    let c = m.copy();
    assert!(c.get(1) && !c.get(2));
}

#[test]
fn dequeue_is_fifo_within_a_class() {
    let mut q = LocalScheduler::new(0);
    for id in 0..3 {
        q.enqueue(task(id, vec![true], Priority::Normal));
    }
    assert_eq!(q.len(), 3);
    assert_eq!(q.dequeue().unwrap().id, 0);
    assert_eq!(q.dequeue().unwrap().id, 1);
    assert_eq!(q.dequeue().unwrap().id, 2);
    assert!(q.dequeue().is_none());
}

#[test]
fn dequeue_serves_higher_classes_first() {
    let mut q = LocalScheduler::new(0);
    q.enqueue(task(0, vec![true], Priority::Low));
    q.enqueue(task(1, vec![true], Priority::Normal));
    q.enqueue(task(2, vec![true], Priority::High));
    q.enqueue(task(3, vec![true], Priority::High));
    q.enqueue(task(4, vec![true], Priority::Normal));
    let order: Vec<usize> = (0..5).map(|_| q.dequeue().unwrap().id).collect();
    assert_eq!(order, vec![2, 3, 1, 4, 0]);
}

#[test]
fn empty_dequeue_makes_the_vcpu_idle_and_enqueue_busy() {
    let mut q = LocalScheduler::new(4);
    assert_eq!(q.this_vcpu(), 4);
    assert!(!q.is_idle());
    assert!(q.dequeue().is_none());
    assert!(q.is_idle());
    let was_idle = q.enqueue(task(0, vec![true], Priority::Normal));
    assert!(was_idle);
    assert!(!q.is_idle());
    let was_idle = q.enqueue(task(1, vec![true], Priority::Normal));
    assert!(!was_idle);
}

#[test]
fn asleep_vcpu_is_not_idle() {
    let mut q = LocalScheduler::new(0);
    assert!(q.dequeue().is_none());
    assert!(q.is_idle());
    q.set_asleep(true);
    assert!(q.is_asleep());
    assert!(!q.is_idle());
    // A vCPU that looks for work is awake.
    assert!(q.dequeue().is_none());
    assert!(!q.is_asleep());
}

#[test]
fn drain_takes_allowed_tasks_from_the_head_and_keeps_order() {
    let mut q = LocalScheduler::new(0);
    q.enqueue(task(0, vec![true, false], Priority::Normal));
    q.enqueue(task(1, vec![true, true], Priority::Normal));
    q.enqueue(task(2, vec![true, false], Priority::Normal));
    q.enqueue(task(3, vec![true, true], Priority::Normal));
    q.enqueue(task(4, vec![true, true], Priority::Normal));
    let taken = q.drain(2, 1);
    let ids: Vec<usize> = taken.iter().map(|t| t.id).collect();
    assert_eq!(ids, vec![1, 3]);
    assert_eq!(q.len(), 3);
    let rest: Vec<usize> = (0..3).map(|_| q.dequeue().unwrap().id).collect();
    assert_eq!(rest, vec![0, 2, 4]);
}

#[test]
fn drain_with_zero_quota_takes_nothing() {
    let mut q = LocalScheduler::new(0);
    q.enqueue(task(0, vec![true, true], Priority::Normal));
    assert!(q.drain(0, 1).is_empty());
    assert_eq!(q.len(), 1);
}

#[test]
fn drain_with_a_large_quota_takes_every_allowed_task() {
    let mut q = LocalScheduler::new(0);
    q.enqueue(task(0, vec![true, true], Priority::High));
    q.enqueue(task(1, vec![true, false], Priority::Low));
    q.enqueue(task(2, vec![true, true], Priority::Low));
    let ids: Vec<usize> = q.drain(10, 1).iter().map(|t| t.id).collect();
    assert_eq!(ids, vec![0, 2]);
    assert_eq!(q.dequeue().unwrap().id, 1);
}

use async_rt::bitmask::BitMask;
use async_rt::entity::{Priority, SchedState, Task};
use async_rt::executor::{Executor, RunStep, TaskStatus};
use async_rt::load_balancer::{BalancerState, LoadBalancer, MigrationTask};
use async_rt::parker::Parker;
use async_rt::scheduler::{Dequeued, Scheduler};
use async_rt::vcpu::{clear_current, get_current, get_total, set_current, set_total, CurrentVcpu, TotalVcpus};

fn task(id: usize, bits: Vec<bool>) -> Task {
    Task { id, state: SchedState::new(BitMask::from_bits(bits), Priority::Normal) }
}

fn loads(s: &Scheduler) -> Vec<usize> {
    s.local_schedulers().iter().map(|l| l.len()).collect()
}

/// A scheduler of two vCPUs with `a` tasks on vCPU 0 that may run anywhere
/// and `b` tasks pinned to vCPU 1.
fn two_vcpus(a: usize, b: usize) -> Scheduler {
    let mut s = Scheduler::new(2);
    // With vCPU 1 asleep, tasks that may run anywhere land on vCPU 0.
    s.set_vcpu_asleep(1, true);
    for id in 0..a {
        s.enqueue(task(id, vec![true, true]), None);
    }
    s.set_vcpu_asleep(1, false);
    for id in 0..b {
        s.enqueue(task(a + id, vec![false, true]), None);
    }
    assert_eq!(loads(&s), vec![a, b]);
    s
}

#[test]
fn scheduler_starts_with_empty_queues() {
    let s = Scheduler::new(3);
    assert_eq!(s.num_vcpus(), 3);
    assert_eq!(loads(&s), vec![0, 0, 0]);
    assert!(!s.is_shutdown());
}

#[test]
fn enqueue_places_tasks_only_within_their_affinity() {
    let mut s = Scheduler::new(4);
    for id in 0..40 {
        let bits = vec![id % 3 == 0, id % 2 == 0, true, id % 5 == 0];
        s.enqueue(task(id, bits), Some((id % 4) as u32));
    }
    let mut total = 0;
    for v in 0..4u32 {
        while let Dequeued::Task(t) = s.dequeue(v) {
            assert!(t.state.affinity.get(v as usize));
            total += 1;
        }
    }
    assert_eq!(total, 40);
}

#[test]
fn dequeue_reports_empty_then_tasks_then_shutdown() {
    let mut s = Scheduler::new(2);
    assert!(matches!(s.dequeue(1), Dequeued::Empty));
    assert!(s.local_schedulers()[1].is_idle());
    // vCPU 1 is idle, so it gets the next task.
    s.enqueue(task(7, vec![true, true]), None);
    assert_eq!(loads(&s), vec![0, 1]);
    assert!(!s.local_schedulers()[1].is_idle());
    match s.dequeue(1) {
        Dequeued::Task(t) => assert_eq!(t.id, 7),
        _ => panic!("expected a task"),
    }
    s.shutdown();
    assert!(s.is_shutdown());
    assert!(matches!(s.dequeue(0), Dequeued::Shutdown));
    assert!(matches!(s.dequeue(1), Dequeued::Shutdown));
}

#[test]
fn busy_awake_scheduler_spreads_new_tasks_round_robin() {
    let mut s = Scheduler::new(4);
    for id in 0..1000 {
        s.enqueue(task(id, vec![true; 4]), None);
    }
    assert_eq!(loads(&s), vec![250, 250, 250, 250]);
}

#[test]
fn asleep_vcpu_is_passed_over() {
    let mut s = Scheduler::new(2);
    s.set_vcpu_asleep(0, true);
    s.enqueue(task(0, vec![true, true]), None);
    assert_eq!(loads(&s), vec![0, 1]);
    s.set_vcpu_asleep(0, false);
    s.enqueue(task(1, vec![true, true]), None);
    assert_eq!(loads(&s), vec![1, 1]);
}

#[test]
fn no_migration_within_the_hysteresis_band() {
    let mut s = two_vcpus(10, 9);
    let moved = MigrationTask::new(0).do_migration(&mut s);
    assert_eq!(moved, 0);
    assert_eq!(loads(&s), vec![10, 9]);
}

#[test]
fn migration_moves_half_the_gap() {
    let mut s = two_vcpus(10, 2);
    let moved = MigrationTask::new(0).do_migration(&mut s);
    assert_eq!(moved, 4);
    assert_eq!(loads(&s), vec![6, 6]);
}

#[test]
fn migration_with_a_gap_of_three_moves_one() {
    let mut s = two_vcpus(5, 2);
    assert_eq!(MigrationTask::new(0).do_migration(&mut s), 1);
    assert_eq!(loads(&s), vec![4, 3]);
}

#[test]
fn migration_respects_affinity() {
    // Ten tasks on vCPU 0, only three of which may run on vCPU 1.
    let mut s = Scheduler::new(2);
    s.set_vcpu_asleep(1, true);
    for id in 0..10 {
        s.enqueue(task(id, vec![true, id < 3]), Some(0));
    }
    s.set_vcpu_asleep(1, false);
    assert_eq!(loads(&s), vec![10, 0]);
    let moved = MigrationTask::new(0).do_migration(&mut s);
    assert_eq!(moved, 3);
    assert_eq!(loads(&s), vec![7, 3]);
    let mut on_one = Vec::new();
    while let Dequeued::Task(t) = s.dequeue(1) {
        on_one.push(t.id);
    }
    assert_eq!(on_one, vec![0, 1, 2]);
}

#[test]
fn migration_visits_less_loaded_vcpus_first_and_conserves_tasks() {
    let mut s = Scheduler::new(3);
    s.set_vcpu_asleep(1, true);
    s.set_vcpu_asleep(2, true);
    for id in 0..12 {
        s.enqueue(task(id, vec![true, true, true]), Some(0));
    }
    s.set_vcpu_asleep(1, false);
    s.set_vcpu_asleep(2, false);
    for id in 0..4 {
        s.enqueue(task(100 + id, vec![false, true, false]), None);
    }
    s.enqueue(task(200, vec![false, false, true]), None);
    assert_eq!(loads(&s), vec![12, 4, 1]);
    let moved = MigrationTask::new(0).do_migration(&mut s);
    // vCPU 2 first: (12 - 1) / 2 = 5; then vCPU 1 at gap 7 - 4 = 3: one more.
    assert_eq!(moved, 6);
    assert_eq!(loads(&s), vec![6, 5, 6]);
    assert_eq!(loads(&s).iter().sum::<usize>(), 17);
}

#[test]
fn migration_from_a_less_loaded_vcpu_does_nothing() {
    let mut s = two_vcpus(2, 9);
    assert_eq!(MigrationTask::new(0).do_migration(&mut s), 0);
    assert_eq!(loads(&s), vec![2, 9]);
}

#[test]
fn balancer_start_and_stop_are_idempotent() {
    let s = Scheduler::new(3);
    let mut lb = LoadBalancer::new(&s);
    assert_eq!(lb.state(), BalancerState::Stopped);
    assert!(!lb.stop());
    assert_eq!(lb.state(), BalancerState::Stopped);
    let tasks = lb.start();
    let vcpus: Vec<u32> = tasks.iter().map(|t| t.this_vcpu()).collect();
    assert_eq!(vcpus, vec![0, 1, 2]);
    assert!(lb.start().is_empty());
    assert!(!lb.should_stop());
    assert!(lb.stop());
    assert!(lb.should_stop());
    assert!(!lb.stop());
    lb.finish_stop();
    assert_eq!(lb.state(), BalancerState::Stopped);
    assert_eq!(lb.start().len(), 3);
}

#[test]
fn executor_polls_a_spawned_task_once_until_woken() {
    let mut e = Executor::new(2);
    let v = e.register_vcpu().unwrap();
    assert_eq!(v, 0);
    let id = e.spawn(BitMask::from_bits(vec![true, false]), Priority::Normal, None);
    assert_eq!(id, 0);
    assert_eq!(e.next_step(0), RunStep::Poll(0));
    assert_eq!(e.task_status(0), Some(TaskStatus::Polling(0)));
    assert_eq!(e.finish_poll(0, false), 0);
    assert_eq!(e.task_status(0), Some(TaskStatus::Runnable));
    assert_eq!(e.next_step(0), RunStep::Idle);
    e.schedule_task(0, Some(0));
    assert_eq!(e.next_step(0), RunStep::Poll(0));
    assert_eq!(e.finish_poll(0, true), 0);
    assert_eq!(e.task_status(0), Some(TaskStatus::Completed));
}

#[test]
fn task_woken_during_its_poll_is_never_polled_twice_at_once() {
    let mut e = Executor::new(2);
    let id = e.spawn(BitMask::new_ones(2), Priority::Normal, None);
    assert_eq!(e.next_step(0), RunStep::Poll(id));
    // Its waker fires while vCPU 0 still polls it; vCPU 1 is idle and gets it.
    assert_eq!(e.next_step(1), RunStep::Idle);
    e.schedule_task(id, None);
    assert_eq!(e.next_step(1), RunStep::Requeued(id));
    assert_eq!(e.task_status(id), Some(TaskStatus::Polling(0)));
    assert_eq!(e.finish_poll(0, false), id);
    // Now the requeued entry can be polled, by whichever vCPU holds it.
    let holder = if e.scheduler().local_schedulers()[0].len() == 1 { 0 } else { 1 };
    assert_eq!(e.next_step(holder), RunStep::Poll(id));
    assert_eq!(e.task_status(id), Some(TaskStatus::Polling(holder)));
}

#[test]
fn completed_task_woken_late_is_discarded() {
    let mut e = Executor::new(1);
    let id = e.spawn(BitMask::new_ones(1), Priority::High, None);
    assert_eq!(e.next_step(0), RunStep::Poll(id));
    e.schedule_task(id, Some(0));
    assert_eq!(e.finish_poll(0, true), id);
    assert_eq!(e.next_step(0), RunStep::Discarded(id));
    assert_eq!(e.next_step(0), RunStep::Idle);
}

#[test]
fn shutdown_ends_every_run_loop() {
    let mut e = Executor::new(3);
    for _ in 0..5 {
        e.spawn(BitMask::new_ones(3), Priority::Normal, None);
    }
    assert!(matches!(e.next_step(0), RunStep::Poll(_)));
    e.shutdown();
    for v in 1..3 {
        assert_eq!(e.next_step(v), RunStep::Exit);
    }
    // The poll in flight can still be reported.
    let id = e.finish_poll(0, false);
    assert_eq!(e.task_status(id), Some(TaskStatus::Runnable));
    assert_eq!(e.next_step(0), RunStep::Exit);
}

#[test]
fn registration_hands_out_each_vcpu_once() {
    let mut e = Executor::new(2);
    assert_eq!(e.register_vcpu(), Some(0));
    assert_eq!(e.register_vcpu(), Some(1));
    assert_eq!(e.register_vcpu(), None);
    assert_eq!(e.num_vcpus(), 2);
    assert_eq!(e.num_tasks(), 0);
    assert_eq!(e.task_status(0), None);
}

#[test]
fn total_vcpus_can_be_set_once() {
    let mut t = TotalVcpus::new();
    assert_eq!(get_total(&t), 1);
    set_total(&mut t, 8);
    assert_eq!(get_total(&t), 8);
    set_total(&mut t, 2);
    assert_eq!(get_total(&t), 8);
}

#[test]
fn current_vcpu_is_set_and_cleared() {
    let mut c = CurrentVcpu::new();
    assert_eq!(c.get(), None);
    set_current(&mut c, 3);
    assert_eq!(get_current(&c), 3);
    clear_current(&mut c);
    assert_eq!(c.get(), None);
}

#[test]
fn parker_token_wakes_one_park() {
    let mut p = Parker::new();
    assert!(p.park());
    p.unpark();
    p.unpark();
    assert!(!p.park());
    assert!(p.park());
}

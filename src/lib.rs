//! A multi-vCPU task scheduler: per-vCPU run queues, a vCPU selector, a
//! scheduler that routes tasks to vCPUs, the executor's run loop as a state
//! machine, and a load balancer that migrates queued tasks.

pub mod bitmask;
pub mod entity;
pub mod local_scheduler;
pub mod vcpu_selector;
pub mod scheduler;
pub mod load_balancer;
pub mod executor;
pub mod parker;
pub mod vcpu;

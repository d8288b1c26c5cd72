//! The thread control block as the scheduling core sees it.

use vstd::prelude::*;
use crate::config::{DEFAULT_PRIORITY, MAX_SYSCALL_NUM, MIN_PRIORITY};

verus! {

/// Identifier of a thread.
pub type Tid = usize;

/// Where a thread stands in its life cycle.
#[derive(Clone, Copy, Debug, PartialEq, Eq, Structural)]
pub enum TaskStatus {
    /// Runnable, waiting in the ready queue.
    Ready,
    /// Occupying the processor.
    Running,
    /// Parked in the wait queue of a lock primitive.
    Blocked,
    /// Finished; never queued again.
    Exited,
}

/// Scheduling record of one thread.
///
/// A record is owned by exactly one place at a time: the ready queue, the
/// processor's current slot, or the wait queue of one primitive.
#[derive(Clone, Copy, Debug, PartialEq, Eq)]
pub struct TaskControlBlock {
    /// Stable identifier.
    pub tid: Tid,
    /// Life-cycle state.
    pub status: TaskStatus,
    /// Scheduling priority, at least `MIN_PRIORITY`.
    pub priority: usize,
    /// Accumulated scheduling position.
    pub stride: usize,
    /// Microsecond timestamp of the first dispatch, once it has happened.
    pub start_time: Option<usize>,
    /// Invocation count per system-call number.
    pub syscall_times: [u32; MAX_SYSCALL_NUM],
    /// Address-space token handed to the trap layer.
    pub user_token: usize,
}

impl TaskControlBlock {
    /// A record is well formed when its priority is a legal one.
    pub open spec fn wf(&self) -> bool {
        self.priority >= MIN_PRIORITY
    }

    /// The same record with another status.
    pub open spec fn with_status(self, status: TaskStatus) -> TaskControlBlock {
        TaskControlBlock { status, ..self }
    }

    /// A new ready thread with the default priority, stride zero, no start
    /// time and all counters at zero.
    pub fn new(tid: Tid, user_token: usize) -> (tcb: TaskControlBlock)
        ensures
            tcb.wf(),
            tcb.tid == tid,
            tcb.user_token == user_token,
            tcb.status == TaskStatus::Ready,
            tcb.priority == DEFAULT_PRIORITY,
            tcb.stride == 0,
            tcb.start_time is None,
            forall|i: int| 0 <= i < MAX_SYSCALL_NUM ==> tcb.syscall_times@[i] == 0,
    {
        TaskControlBlock {
            tid,
            status: TaskStatus::Ready,
            priority: DEFAULT_PRIORITY,
            stride: 0,
            start_time: None,
            syscall_times: [0u32; MAX_SYSCALL_NUM],
            user_token,
        }
    }
}

} // verus!

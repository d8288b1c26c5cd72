//! Process-management system calls, as steps on the scheduling state.
//!
//! Each call takes the values that the surrounding kernel has read (the
//! clock, the outcome of a memory request) and returns the value that the
//! kernel hands to the calling thread.

use vstd::prelude::*;
use crate::config::{CLOCK_FREQ, MAX_SYSCALL_NUM, MICRO_PER_SEC};
use crate::manager::TaskManager;
use crate::processor::{
    exit_current_and_run_next, get_current_run_time, get_current_task_status, get_syscall_times,
    queue_after_wakeup, suspend_current_and_run_next, Processor,
};
use crate::task::{TaskControlBlock, TaskStatus};

verus! {

/// A point in time as whole seconds and the microseconds beyond them.
#[derive(Clone, Copy, Debug, PartialEq, Eq)]
pub struct TimeVal {
    /// Whole seconds.
    pub sec: usize,
    /// Microseconds beyond the whole seconds, below one million.
    pub usec: usize,
}

/// What a thread can learn about itself.
#[derive(Clone, Copy, Debug, PartialEq, Eq)]
pub struct TaskInfo {
    /// Life-cycle state.
    pub status: TaskStatus,
    /// Invocation count per system-call number.
    pub syscall_times: [u32; MAX_SYSCALL_NUM],
    /// Running time in milliseconds.
    pub time: usize,
}

/// The running thread ends. The processor is left without a current thread
/// and the exited record is returned for the caller to drop.
pub fn sys_exit(processor: &mut Processor, exit_code: i32) -> (exited: TaskControlBlock)
    requires
        old(processor)@ is Some,
    ensures
        final(processor)@ is None,
        exited == old(processor)@->0.with_status(TaskStatus::Exited),
{
    exit_current_and_run_next(processor)
}

/// The running thread gives the processor up and re-enters the ready queue.
/// Always returns 0.
pub fn sys_yield(processor: &mut Processor, manager: &mut TaskManager) -> (result: isize)
    requires
        old(processor).wf(),
        old(processor)@ is Some,
        old(manager).wf(),
    ensures
        result == 0,
        final(processor)@ is None,
        final(manager)@ == queue_after_wakeup(old(manager)@, old(processor)@->0),
        final(manager).wf(),
{
    suspend_current_and_run_next(processor, manager);
    0
}

/// Splits a clock reading in microseconds into seconds and microseconds.
pub fn sys_get_time(now_us: usize) -> (time: TimeVal)
    ensures
        time.sec == now_us / MICRO_PER_SEC,
        time.usec == now_us % MICRO_PER_SEC,
        time.sec * MICRO_PER_SEC + time.usec == now_us,
{
    proof {
        vstd::arithmetic::div_mod::lemma_fundamental_div_mod(
            now_us as int,
            MICRO_PER_SEC as int,
        );
    }
    TimeVal { sec: now_us / MICRO_PER_SEC, usec: now_us % MICRO_PER_SEC }
}

/// Status, system-call counters and running time of the running thread at
/// clock reading `now`.
pub fn sys_task_info(processor: &Processor, now: usize) -> (info: TaskInfo)
    requires
        processor@ is Some,
        processor@->0.start_time is Some,
        processor@->0.start_time->0 <= now,
    ensures
        info.status == processor@->0.status,
        info.syscall_times == processor@->0.syscall_times,
        info.time == (now - processor@->0.start_time->0) / (CLOCK_FREQ as int / 1000),
{
    TaskInfo {
        status: get_current_task_status(processor),
        syscall_times: get_syscall_times(processor),
        time: get_current_run_time(processor, now),
    }
}

/// Result of a request to move the program break: the break before the
/// move, or `-1` when the move was refused.
pub fn sys_sbrk(old_brk: Option<usize>) -> (result: isize)
    ensures
        result == match old_brk {
            Some(brk) => brk as isize,
            None => -1isize,
        },
{
    match old_brk {
        Some(brk) => brk as isize,
        None => -1,
    }
}

} // verus!

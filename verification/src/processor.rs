//! The processor record and the steps that move the running thread.
//!
//! Each function is one decision of the dispatch machinery on explicit
//! state. Where a step leaves the processor without a current thread, the
//! caller switches control back to the idle flow, which runs the next round
//! of dispatch.

use vstd::prelude::*;
use crate::config::{CLOCK_FREQ, MAX_SYSCALL_NUM, MIN_PRIORITY};
use crate::manager::{add_task, enqueued, fetch_task, insert_position, TaskManager};
use crate::task::{TaskControlBlock, TaskStatus};

verus! {

/// The record a fetched thread becomes when it is dispatched: running, with
/// its start time set to `now_us` unless it already has one.
pub open spec fn dispatched(task: TaskControlBlock, now_us: usize) -> TaskControlBlock {
    TaskControlBlock {
        status: TaskStatus::Running,
        start_time: if task.start_time is None {
            Some(now_us)
        } else {
            task.start_time
        },
        ..task
    }
}

/// The ready queue after `task` has been marked ready and enqueued.
pub open spec fn queue_after_wakeup(
    queue: Seq<TaskControlBlock>,
    task: TaskControlBlock,
) -> Seq<TaskControlBlock> {
    let entry = enqueued(task.with_status(TaskStatus::Ready));
    queue.insert(insert_position(queue, entry.stride), entry)
}

/// Whether two records agree in everything but their system-call counters.
pub open spec fn same_but_counters(a: TaskControlBlock, b: TaskControlBlock) -> bool {
    &&& a.tid == b.tid
    &&& a.status == b.status
    &&& a.priority == b.priority
    &&& a.stride == b.stride
    &&& a.start_time == b.start_time
    &&& a.user_token == b.user_token
}

/// State of the single processor: the thread that is running, if any.
pub struct Processor {
    current: Option<TaskControlBlock>,
}

impl View for Processor {
    type V = Option<TaskControlBlock>;

    /// The running thread.
    closed spec fn view(&self) -> Option<TaskControlBlock> {
        self.current
    }
}

impl Processor {
    /// The running thread, if there is one, has a legal priority.
    pub open spec fn wf(&self) -> bool {
        self@ is Some ==> self@->0.wf()
    }

    /// A processor that runs no thread.
    pub fn new() -> (processor: Processor)
        ensures
            processor@ is None,
            processor.wf(),
    {
        Processor { current: None }
    }

    /// Moves the running thread out, leaving the processor without one.
    pub fn take_current(&mut self) -> (task: Option<TaskControlBlock>)
        ensures
            task == old(self)@,
            final(self)@ is None,
    {
        self.current.take()
    }

    /// A snapshot of the running thread.
    pub fn current(&self) -> (task: Option<TaskControlBlock>)
        ensures
            task == self@,
    {
        self.current
    }
}

/// Moves the running thread out of the processor record.
pub fn take_current_task(processor: &mut Processor) -> (task: Option<TaskControlBlock>)
    ensures
        task == old(processor)@,
        final(processor)@ is None,
{
    processor.take_current()
}

/// A snapshot of the running thread.
pub fn current_task(processor: &Processor) -> (task: Option<TaskControlBlock>)
    ensures
        task == processor@,
{
    processor.current()
}

/// One round of the dispatch loop. If a thread is ready, the one at the
/// front of the queue becomes the current thread, marked running and stamped
/// with `now_us` on its first dispatch, and the result is `true`: the caller
/// then switches into it. With an empty queue nothing changes and the result
/// is `false`.
pub fn run_tasks(processor: &mut Processor, manager: &mut TaskManager, now_us: usize) -> (switch:
    bool)
    requires
        old(processor).wf(),
        old(manager).wf(),
    ensures
        switch == (old(manager)@.len() > 0),
        switch ==> final(processor)@ == Some(dispatched(old(manager)@[0], now_us)),
        switch ==> final(manager)@ == old(manager)@.subrange(1, old(manager)@.len() as int),
        !switch ==> final(processor)@ == old(processor)@ && final(manager)@ == old(manager)@,
        final(processor).wf(),
        final(manager).wf(),
{
    match fetch_task(manager) {
        Some(task) => {
            let mut next = task;
            next.status = TaskStatus::Running;
            if next.start_time.is_none() {
                next.start_time = Some(now_us);
            }
            processor.current = Some(next);
            true
        },
        None => false,
    }
}

/// Marks `task` ready and hands it back to the scheduler. The thread that
/// wakes it keeps running.
pub fn wakeup_task(manager: &mut TaskManager, task: TaskControlBlock)
    requires
        old(manager).wf(),
        task.wf(),
    ensures
        final(manager)@ == queue_after_wakeup(old(manager)@, task),
        final(manager).wf(),
{
    let mut ready = task;
    ready.status = TaskStatus::Ready;
    add_task(manager, ready);
}

/// The running thread gives up the processor and goes back to the ready
/// queue.
pub fn suspend_current_and_run_next(processor: &mut Processor, manager: &mut TaskManager)
    requires
        old(processor).wf(),
        old(processor)@ is Some,
        old(manager).wf(),
    ensures
        final(processor)@ is None,
        final(manager)@ == queue_after_wakeup(old(manager)@, old(processor)@->0),
        final(manager).wf(),
{
    match take_current_task(processor) {
        Some(task) => wakeup_task(manager, task),
        None => {},
    }
}

/// The running thread leaves the processor to wait; the blocked record is
/// returned so that the caller's wait queue can own it.
pub fn block_current_and_run_next(processor: &mut Processor) -> (blocked: TaskControlBlock)
    requires
        old(processor)@ is Some,
    ensures
        final(processor)@ is None,
        blocked == old(processor)@->0.with_status(TaskStatus::Blocked),
{
    let mut task = take_current_task(processor).unwrap();
    task.status = TaskStatus::Blocked;
    task
}

/// The running thread ends. Its record, marked exited, is returned and is
/// never queued again.
pub fn exit_current_and_run_next(processor: &mut Processor) -> (exited: TaskControlBlock)
    requires
        old(processor)@ is Some,
    ensures
        final(processor)@ is None,
        exited == old(processor)@->0.with_status(TaskStatus::Exited),
{
    let mut task = take_current_task(processor).unwrap();
    task.status = TaskStatus::Exited;
    task
}

/// Identifier of the running thread.
pub fn current_task_id(processor: &Processor) -> (tid: Option<usize>)
    ensures
        tid == match processor@ {
            Some(task) => Some(task.tid),
            None => None,
        },
{
    match current_task(processor) {
        Some(task) => Some(task.tid),
        None => None,
    }
}

/// Address-space token of the running thread.
pub fn current_user_token(processor: &Processor) -> (token: usize)
    requires
        processor@ is Some,
    ensures
        token == processor@->0.user_token,
{
    current_task(processor).unwrap().user_token
}

/// Counts one invocation of system call `syscall_id` for the running thread.
pub fn count_syscall(processor: &mut Processor, syscall_id: usize)
    requires
        old(processor)@ is Some,
        syscall_id < MAX_SYSCALL_NUM,
        old(processor)@->0.syscall_times@[syscall_id as int] < u32::MAX,
    ensures
        final(processor)@ is Some,
        same_but_counters(final(processor)@->0, old(processor)@->0),
        final(processor)@->0.syscall_times@ == old(processor)@->0.syscall_times@.update(
            syscall_id as int,
            (old(processor)@->0.syscall_times@[syscall_id as int] + 1) as u32,
        ),
{
    let mut task = processor.current.unwrap();
    let mut times = task.syscall_times;
    let seen: u32 = times[syscall_id];
    times[syscall_id] = seen + 1;
    task.syscall_times = times;
    processor.current = Some(task);
}

/// System-call counters of the running thread.
pub fn get_syscall_times(processor: &Processor) -> (times: [u32; MAX_SYSCALL_NUM])
    requires
        processor@ is Some,
    ensures
        times == processor@->0.syscall_times,
{
    current_task(processor).unwrap().syscall_times
}

/// Life-cycle state of the running thread.
pub fn get_current_task_status(processor: &Processor) -> (status: TaskStatus)
    requires
        processor@ is Some,
    ensures
        status == processor@->0.status,
{
    current_task(processor).unwrap().status
}

/// Milliseconds of clock ticks between the running thread's first dispatch
/// and `now`.
pub fn get_current_run_time(processor: &Processor, now: usize) -> (elapsed: usize)
    requires
        processor@ is Some,
        processor@->0.start_time is Some,
        processor@->0.start_time->0 <= now,
    ensures
        elapsed == (now - processor@->0.start_time->0) / (CLOCK_FREQ as int / 1000),
{
    let start_time: usize = current_task(processor).unwrap().start_time.unwrap();
    (now - start_time) / (CLOCK_FREQ / 1000)
}

/// Sets the running thread's priority. A value below `MIN_PRIORITY` is
/// rejected with `-1` and changes nothing; any other value becomes the new
/// priority and is returned.
pub fn set_priority(processor: &mut Processor, prio: isize) -> (result: isize)
    requires
        prio >= MIN_PRIORITY ==> old(processor)@ is Some,
    ensures
        prio < MIN_PRIORITY ==> result == -1 && final(processor)@ == old(processor)@,
        prio >= MIN_PRIORITY ==> result == prio && final(processor)@ == Some(
            (TaskControlBlock { priority: prio as usize, ..old(processor)@->0 }),
        ),
        old(processor).wf() ==> final(processor).wf(),
{
    if prio < 2 {
        return -1;
    }
    let mut task = processor.current.unwrap();
    task.priority = prio as usize;
    processor.current = Some(task);
    prio
}

} // verus!

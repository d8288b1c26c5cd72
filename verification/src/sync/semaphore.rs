//! A counting semaphore with a FIFO wait queue.

use std::collections::VecDeque;
use vstd::prelude::*;
use crate::manager::{all_wf, TaskManager};
use crate::processor::{
    block_current_and_run_next, current_task_id, queue_after_wakeup, wakeup_task, Processor,
};
use crate::sync::{demand_of, one_unit_each, tids_of, Resource};
use crate::task::{TaskControlBlock, TaskStatus, Tid};
use crate::tid_set::TidSet;

verus! {

/// State of a semaphore.
pub struct SemaphoreInner {
    /// Free units; when negative, the number of threads that wait.
    pub count: isize,
    /// Threads that took a unit without waiting and have not given it back.
    pub allocated_to: TidSet,
    /// The parked threads, the longest waiting in front.
    pub wait_queue: VecDeque<TaskControlBlock>,
}

/// Mathematical state of a semaphore.
pub struct SemaphoreState {
    /// Free units; when negative, the number of threads that wait.
    pub count: int,
    /// Threads recorded as holding a unit.
    pub allocated_to: Set<Tid>,
    /// The parked threads, the longest waiting in front.
    pub waiters: Seq<TaskControlBlock>,
}

/// Whether the running thread gets a unit at once when it calls `down`.
pub open spec fn down_acquires(pre: SemaphoreState) -> bool {
    pre.count - 1 >= 0
}

/// The state after the running thread `task` has called `down`: the count
/// drops by one, and the thread is recorded as a holder, or joins the back
/// of the wait queue as blocked when the count has become negative.
pub open spec fn after_down(pre: SemaphoreState, task: TaskControlBlock) -> SemaphoreState {
    if down_acquires(pre) {
        SemaphoreState {
            count: pre.count - 1,
            allocated_to: pre.allocated_to.insert(task.tid),
            ..pre
        }
    } else {
        SemaphoreState {
            count: pre.count - 1,
            waiters: pre.waiters.push(task.with_status(TaskStatus::Blocked)),
            ..pre
        }
    }
}

/// The thread that an `up` wakes: the front waiter, if the count is still
/// not positive after the increment and somebody waits.
pub open spec fn up_wakes(pre: SemaphoreState) -> Option<TaskControlBlock> {
    if pre.count + 1 <= 0 && pre.waiters.len() > 0 {
        Some(pre.waiters[0])
    } else {
        None
    }
}

/// The state after thread `tid` has called `up`: it is no longer recorded
/// as a holder, the count rises by one, and the woken thread, if any, has
/// left the wait queue.
pub open spec fn after_up(pre: SemaphoreState, tid: Tid) -> SemaphoreState {
    SemaphoreState {
        count: pre.count + 1,
        allocated_to: pre.allocated_to.remove(tid),
        waiters: if up_wakes(pre) is Some {
            pre.waiters.subrange(1, pre.waiters.len() as int)
        } else {
            pre.waiters
        },
    }
}

/// A negative count is the number of waiters, and nobody waits otherwise.
pub open spec fn balanced(state: SemaphoreState) -> bool {
    if state.count < 0 {
        state.waiters.len() == -state.count
    } else {
        state.waiters.len() == 0
    }
}

/// A counting semaphore.
pub struct Semaphore {
    /// The semaphore's state.
    pub inner: SemaphoreInner,
}

impl View for Semaphore {
    type V = SemaphoreState;

    open spec fn view(&self) -> SemaphoreState {
        SemaphoreState {
            count: self.inner.count as int,
            allocated_to: self.inner.allocated_to@,
            waiters: self.inner.wait_queue@,
        }
    }
}

impl Semaphore {
    /// A semaphore with `res_count` free units, no holder and no waiter.
    pub fn new(res_count: usize) -> (semaphore: Semaphore)
        requires
            res_count <= isize::MAX,
        ensures
            semaphore@ == (SemaphoreState {
                count: res_count as int,
                allocated_to: Set::empty(),
                waiters: Seq::empty(),
            }),
            semaphore.wf(),
            balanced(semaphore@),
    {
        Semaphore {
            inner: SemaphoreInner {
                count: res_count as isize,
                allocated_to: TidSet::new(),
                wait_queue: VecDeque::new(),
            },
        }
    }

    /// The running thread gives a unit back. It is struck from the holders
    /// whether or not it was one of them, the count rises by one, and if the
    /// count is still not positive the front waiter becomes ready. An empty
    /// wait queue at that point is tolerated: nobody is woken.
    pub fn up(&mut self, processor: &Processor, manager: &mut TaskManager)
        requires
            old(self).wf(),
            old(self)@.count < isize::MAX,
            processor@ is Some,
            old(manager).wf(),
        ensures
            final(self).wf(),
            final(manager).wf(),
            final(self)@ == after_up(old(self)@, processor@->0.tid),
            final(manager)@ == match up_wakes(old(self)@) {
                Some(task) => queue_after_wakeup(old(manager)@, task),
                None => old(manager)@,
            },
    {
        let tid: Tid = current_task_id(processor).unwrap();
        self.inner.allocated_to.remove(tid);
        self.inner.count = self.inner.count + 1;
        if self.inner.count <= 0 {
            match self.inner.wait_queue.pop_front() {
                Some(task) => {
                    wakeup_task(manager, task);
                },
                None => {},
            }
        }
    }

    /// The running thread asks for a unit. The count drops by one. The
    /// result is `true` when a unit was free: the thread is recorded as a
    /// holder and runs on. Otherwise the thread has left the processor and
    /// waits at the back of the queue, and the caller switches to the idle
    /// flow.
    pub fn down(&mut self, processor: &mut Processor) -> (acquired: bool)
        requires
            old(self).wf(),
            old(self)@.count > isize::MIN,
            old(processor).wf(),
            old(processor)@ is Some,
        ensures
            final(self).wf(),
            final(processor).wf(),
            acquired == down_acquires(old(self)@),
            final(self)@ == after_down(old(self)@, old(processor)@->0),
            acquired ==> final(processor)@ == old(processor)@,
            !acquired ==> final(processor)@ is None,
    {
        self.inner.count = self.inner.count - 1;
        if self.inner.count < 0 {
            let task = block_current_and_run_next(processor);
            self.inner.wait_queue.push_back(task);
            false
        } else {
            let tid: Tid = current_task_id(processor).unwrap();
            self.inner.allocated_to.insert(tid);
            true
        }
    }
}

impl Resource for Semaphore {
    open spec fn wf(&self) -> bool {
        &&& self.inner.allocated_to.wf()
        &&& all_wf(self@.waiters)
    }

    open spec fn available(&self) -> nat {
        if self@.count < 0 {
            0
        } else {
            self@.count as nat
        }
    }

    open spec fn allocation(&self) -> Seq<(Tid, usize)> {
        one_unit_each(self.inner.allocated_to.ascending())
    }

    open spec fn need(&self) -> Seq<(Tid, usize)> {
        one_unit_each(tids_of(self@.waiters))
    }

    fn get_available(&self) -> (units: usize) {
        if self.inner.count < 0 {
            0
        } else {
            self.inner.count as usize
        }
    }

    /// The recorded holders in ascending order of identifier.
    fn get_allocation(&self) -> (holders: Vec<(Tid, usize)>) {
        let members = self.inner.allocated_to.to_vec();
        let mut holders: Vec<(Tid, usize)> = Vec::new();
        let n: usize = members.len();
        let mut i: usize = 0;
        while i < n
            invariant
                n == members@.len(),
                i <= n,
                holders@ == one_unit_each(members@.subrange(0, i as int)),
            decreases n - i,
        {
            holders.push((members[i], 1));
            i += 1;
            assert(holders@ =~= one_unit_each(members@.subrange(0, i as int)));
        }
        assert(members@.subrange(0, n as int) =~= members@);
        holders
    }

    fn get_need(&self) -> (waiters: Vec<(Tid, usize)>) {
        demand_of(&self.inner.wait_queue)
    }
}

/// One call on a semaphore.
pub enum SemaphoreOp {
    /// The given running thread calls `down`.
    Down(TaskControlBlock),
    /// The thread with the given identifier calls `up`.
    Up(Tid),
}

/// The state after one call.
pub open spec fn semaphore_step(pre: SemaphoreState, op: SemaphoreOp) -> SemaphoreState {
    match op {
        SemaphoreOp::Down(task) => after_down(pre, task),
        SemaphoreOp::Up(tid) => after_up(pre, tid),
    }
}

/// The state after a sequence of calls.
pub open spec fn semaphore_run(pre: SemaphoreState, ops: Seq<SemaphoreOp>) -> SemaphoreState
    decreases ops.len(),
{
    if ops.len() == 0 {
        pre
    } else {
        semaphore_step(semaphore_run(pre, ops.drop_last()), ops.last())
    }
}

/// How one call changes the number of completed downs that no up has
/// matched yet: a down that gets its unit at once completes, an up matches
/// one, and the down of a thread that the up wakes completes with it.
pub open spec fn unmatched_change(pre: SemaphoreState, op: SemaphoreOp) -> int {
    match op {
        SemaphoreOp::Down(_) => if down_acquires(pre) {
            1
        } else {
            0
        },
        SemaphoreOp::Up(_) => if up_wakes(pre) is Some {
            0
        } else {
            -1
        },
    }
}

/// Completed downs that no up has matched, counted over a sequence of calls.
pub open spec fn unmatched_downs(pre: SemaphoreState, ops: Seq<SemaphoreOp>) -> int
    decreases ops.len(),
{
    if ops.len() == 0 {
        0
    } else {
        unmatched_downs(pre, ops.drop_last()) + unmatched_change(
            semaphore_run(pre, ops.drop_last()),
            ops.last(),
        )
    }
}

/// Conservation: after any sequence of calls, the count plus the number of
/// waiters is what it was at the start less the completed downs that no up
/// has matched.
pub proof fn lemma_conservation(pre: SemaphoreState, ops: Seq<SemaphoreOp>)
    ensures
        semaphore_run(pre, ops).count + semaphore_run(pre, ops).waiters.len() == pre.count
            + pre.waiters.len() - unmatched_downs(pre, ops),
    decreases ops.len(),
{
    if ops.len() > 0 {
        lemma_conservation(pre, ops.drop_last());
    }
}

/// A semaphore whose negative count is its number of waiters stays so under
/// every call, and an up then never meets an empty queue when it has
/// somebody to wake.
pub proof fn lemma_calls_keep_balance(pre: SemaphoreState, ops: Seq<SemaphoreOp>)
    requires
        balanced(pre),
    ensures
        balanced(semaphore_run(pre, ops)),
        semaphore_run(pre, ops).count + 1 <= 0 ==> up_wakes(semaphore_run(pre, ops)) is Some,
    decreases ops.len(),
{
    if ops.len() > 0 {
        lemma_calls_keep_balance(pre, ops.drop_last());
    }
}

} // verus!

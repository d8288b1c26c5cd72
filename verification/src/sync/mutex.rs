//! Mutual exclusion: a polling lock and a lock that parks its waiters.

use std::collections::VecDeque;
use vstd::prelude::*;
use crate::manager::{all_wf, TaskManager};
use crate::processor::{
    block_current_and_run_next, current_task_id, queue_after_wakeup,
    suspend_current_and_run_next, wakeup_task, Processor,
};
use crate::sync::{demand_of, one_unit_each, tids_of, Resource};
use crate::task::{TaskControlBlock, TaskStatus, Tid};

verus! {

/// A lock that one thread at a time can hold.
pub trait Mutex: Resource {
    /// Whether some thread holds the lock.
    spec fn is_locked(&self) -> bool;

    /// Whether `unlock` may be called in this state.
    spec fn unlock_allowed(&self) -> bool;

    /// The running thread asks for the lock. The result is `true` exactly
    /// when the lock was free: the thread then holds it and runs on. With
    /// `false` the thread has left the processor and the caller switches to
    /// the idle flow.
    fn lock(&mut self, processor: &mut Processor, manager: &mut TaskManager) -> (acquired: bool)
        requires
            old(self).wf(),
            old(processor).wf(),
            old(processor)@ is Some,
            old(manager).wf(),
        ensures
            final(self).wf(),
            final(processor).wf(),
            final(manager).wf(),
            acquired == !old(self).is_locked(),
            final(self).is_locked(),
            final(self).available() == 0,
            acquired ==> final(processor)@ == old(processor)@ && final(manager)@ == old(manager)@,
            acquired ==> final(self).allocation() == seq![(old(processor)@->0.tid, 1usize)],
            !acquired ==> final(processor)@ is None,
            !acquired ==> final(self).allocation() == old(self).allocation(),
    ;

    /// The holder gives the lock up.
    fn unlock(&mut self, manager: &mut TaskManager)
        requires
            old(self).wf(),
            old(self).unlock_allowed(),
            old(manager).wf(),
        ensures
            final(self).wf(),
            final(manager).wf(),
    ;
}

/// State of a polling lock.
#[derive(Clone, Copy, Debug, PartialEq, Eq)]
pub struct MutexSpinInner {
    /// Whether the lock is held.
    pub locked: bool,
    /// The holder; meaningful only while the lock is held.
    pub allocated_to: Tid,
}

/// The state of a polling lock after thread `tid` has asked for it.
pub open spec fn spin_after_lock(pre: MutexSpinInner, tid: Tid) -> MutexSpinInner {
    if pre.locked {
        pre
    } else {
        MutexSpinInner { locked: true, allocated_to: tid }
    }
}

/// The state of a polling lock after an unlock.
pub open spec fn spin_after_unlock(pre: MutexSpinInner) -> MutexSpinInner {
    MutexSpinInner { locked: false, ..pre }
}

/// A lock whose waiters yield the processor and ask again when they run next.
pub struct MutexSpin {
    /// The lock's state.
    pub inner: MutexSpinInner,
}

impl View for MutexSpin {
    type V = MutexSpinInner;

    open spec fn view(&self) -> MutexSpinInner {
        self.inner
    }
}

impl MutexSpin {
    /// A free lock.
    pub fn new() -> (mutex: MutexSpin)
        ensures
            mutex@ == (MutexSpinInner { locked: false, allocated_to: 0 }),
    {
        MutexSpin { inner: MutexSpinInner { locked: false, allocated_to: 0 } }
    }
}

impl Resource for MutexSpin {
    open spec fn wf(&self) -> bool {
        true
    }

    open spec fn available(&self) -> nat {
        if self@.locked {
            0
        } else {
            1
        }
    }

    open spec fn allocation(&self) -> Seq<(Tid, usize)> {
        if self@.locked {
            seq![(self@.allocated_to, 1usize)]
        } else {
            Seq::empty()
        }
    }

    open spec fn need(&self) -> Seq<(Tid, usize)> {
        Seq::empty()
    }

    fn get_available(&self) -> (units: usize) {
        if self.inner.locked {
            0
        } else {
            1
        }
    }

    fn get_allocation(&self) -> (holders: Vec<(Tid, usize)>) {
        let mut holders: Vec<(Tid, usize)> = Vec::new();
        if self.inner.locked {
            holders.push((self.inner.allocated_to, 1));
            assert(holders@ =~= seq![(self@.allocated_to, 1usize)]);
        }
        holders
    }

    fn get_need(&self) -> (waiters: Vec<(Tid, usize)>) {
        Vec::new()
    }
}

impl Mutex for MutexSpin {
    open spec fn is_locked(&self) -> bool {
        self@.locked
    }

    open spec fn unlock_allowed(&self) -> bool {
        true
    }

    /// One poll of the lock. A thread that finds it held goes back to the
    /// ready queue and polls again when it is dispatched next.
    fn lock(&mut self, processor: &mut Processor, manager: &mut TaskManager) -> (acquired: bool)
        ensures
            final(self)@ == spin_after_lock(old(self)@, old(processor)@->0.tid),
            !acquired ==> final(manager)@ == queue_after_wakeup(
                old(manager)@,
                old(processor)@->0,
            ),
    {
        if self.inner.locked {
            suspend_current_and_run_next(processor, manager);
            false
        } else {
            let tid: Tid = current_task_id(processor).unwrap();
            self.inner.locked = true;
            self.inner.allocated_to = tid;
            true
        }
    }

    /// Frees the lock and wakes nobody. Unlocking a free lock is accepted
    /// and leaves it free.
    fn unlock(&mut self, manager: &mut TaskManager)
        ensures
            final(self)@ == spin_after_unlock(old(self)@),
            final(manager)@ == old(manager)@,
    {
        self.inner.locked = false;
    }
}

/// Unlocking a polling lock twice leaves it as unlocking it once does: free.
pub proof fn lemma_spin_unlock_idempotent(pre: MutexSpinInner)
    ensures
        !spin_after_unlock(pre).locked,
        spin_after_unlock(spin_after_unlock(pre)) == spin_after_unlock(pre),
{
}

/// The state of a polling lock after the given threads have asked for it
/// one after another, with no unlock in between.
pub open spec fn spin_after_locks(pre: MutexSpinInner, tids: Seq<Tid>) -> MutexSpinInner
    decreases tids.len(),
{
    if tids.len() == 0 {
        pre
    } else {
        spin_after_lock(spin_after_locks(pre, tids.drop_last()), tids.last())
    }
}

/// Mutual exclusion for the polling lock: however many threads ask between
/// two unlocks, a held lock stays with its holder, and a free lock goes to
/// the first thread that asks and to no other.
pub proof fn lemma_spin_mutual_exclusion(pre: MutexSpinInner, tids: Seq<Tid>)
    ensures
        pre.locked ==> spin_after_locks(pre, tids) == pre,
        !pre.locked && tids.len() > 0 ==> spin_after_locks(pre, tids) == (MutexSpinInner {
            locked: true,
            allocated_to: tids[0],
        }),
    decreases tids.len(),
{
    if tids.len() > 0 {
        lemma_spin_mutual_exclusion(pre, tids.drop_last());
        if tids.len() > 1 {
            assert(tids.drop_last()[0] == tids[0]);
        } else {
            assert(spin_after_locks(pre, tids.drop_last()) == pre);
        }
    }
}

/// State of a parking lock.
pub struct MutexBlockingInner {
    /// Whether the lock is held.
    pub locked: bool,
    /// The thread that took the free lock last.
    pub allocated_to: Tid,
    /// The parked threads, the longest waiting in front.
    pub wait_queue: VecDeque<TaskControlBlock>,
}

/// Mathematical state of a parking lock.
pub struct MutexBlockingState {
    /// Whether the lock is held.
    pub locked: bool,
    /// The thread that took the free lock last.
    pub allocated_to: Tid,
    /// The parked threads, the longest waiting in front.
    pub waiters: Seq<TaskControlBlock>,
}

/// The state of a parking lock after the running thread `task` has asked
/// for it: the thread holds the free lock, or joins the back of the wait
/// queue as blocked.
pub open spec fn blocking_after_lock(
    pre: MutexBlockingState,
    task: TaskControlBlock,
) -> MutexBlockingState {
    if pre.locked {
        MutexBlockingState {
            waiters: pre.waiters.push(task.with_status(TaskStatus::Blocked)),
            ..pre
        }
    } else {
        MutexBlockingState { locked: true, allocated_to: task.tid, ..pre }
    }
}

/// The thread that an unlock wakes: the one at the front of the wait queue.
pub open spec fn blocking_woken(pre: MutexBlockingState) -> Option<TaskControlBlock> {
    if pre.waiters.len() > 0 {
        Some(pre.waiters[0])
    } else {
        None
    }
}

/// The state of a held parking lock after an unlock: the lock passes to the
/// front waiter and stays held, or becomes free when nobody waits.
pub open spec fn blocking_after_unlock(pre: MutexBlockingState) -> MutexBlockingState {
    if pre.waiters.len() > 0 {
        MutexBlockingState { waiters: pre.waiters.subrange(1, pre.waiters.len() as int), ..pre }
    } else {
        MutexBlockingState { locked: false, ..pre }
    }
}

/// A lock whose waiters sleep until an unlock hands the lock to them.
pub struct MutexBlocking {
    /// The lock's state.
    pub inner: MutexBlockingInner,
}

impl View for MutexBlocking {
    type V = MutexBlockingState;

    open spec fn view(&self) -> MutexBlockingState {
        MutexBlockingState {
            locked: self.inner.locked,
            allocated_to: self.inner.allocated_to,
            waiters: self.inner.wait_queue@,
        }
    }
}

impl MutexBlocking {
    /// A free lock that nobody waits for.
    pub fn new() -> (mutex: MutexBlocking)
        ensures
            mutex@ == (MutexBlockingState {
                locked: false,
                allocated_to: 0,
                waiters: Seq::empty(),
            }),
            mutex.wf(),
    {
        MutexBlocking {
            inner: MutexBlockingInner {
                locked: false,
                allocated_to: 0,
                wait_queue: VecDeque::new(),
            },
        }
    }
}

impl Resource for MutexBlocking {
    open spec fn wf(&self) -> bool {
        all_wf(self@.waiters)
    }

    open spec fn available(&self) -> nat {
        if self@.locked {
            0
        } else {
            1
        }
    }

    open spec fn allocation(&self) -> Seq<(Tid, usize)> {
        if self@.locked {
            seq![(self@.allocated_to, 1usize)]
        } else {
            Seq::empty()
        }
    }

    open spec fn need(&self) -> Seq<(Tid, usize)> {
        one_unit_each(tids_of(self@.waiters))
    }

    fn get_available(&self) -> (units: usize) {
        if self.inner.locked {
            0
        } else {
            1
        }
    }

    fn get_allocation(&self) -> (holders: Vec<(Tid, usize)>) {
        let mut holders: Vec<(Tid, usize)> = Vec::new();
        if self.inner.locked {
            holders.push((self.inner.allocated_to, 1));
            assert(holders@ =~= seq![(self@.allocated_to, 1usize)]);
        }
        holders
    }

    fn get_need(&self) -> (waiters: Vec<(Tid, usize)>) {
        demand_of(&self.inner.wait_queue)
    }
}

impl Mutex for MutexBlocking {
    open spec fn is_locked(&self) -> bool {
        self@.locked
    }

    open spec fn unlock_allowed(&self) -> bool {
        self@.locked
    }

    /// The running thread takes the free lock, or leaves the processor and
    /// joins the back of the wait queue. The ready queue is not touched.
    fn lock(&mut self, processor: &mut Processor, manager: &mut TaskManager) -> (acquired: bool)
        ensures
            final(self)@ == blocking_after_lock(old(self)@, old(processor)@->0),
            final(manager)@ == old(manager)@,
    {
        if self.inner.locked {
            let task = block_current_and_run_next(processor);
            self.inner.wait_queue.push_back(task);
            false
        } else {
            let tid: Tid = current_task_id(processor).unwrap();
            self.inner.locked = true;
            self.inner.allocated_to = tid;
            true
        }
    }

    /// Hands the held lock to the thread at the front of the wait queue,
    /// which becomes ready, or frees the lock when nobody waits. The lock
    /// never shows as available while it passes to a waiter, and the
    /// recorded holder is not rewritten on the way.
    fn unlock(&mut self, manager: &mut TaskManager)
        ensures
            final(self)@ == blocking_after_unlock(old(self)@),
            final(manager)@ == match blocking_woken(old(self)@) {
                Some(task) => queue_after_wakeup(old(manager)@, task),
                None => old(manager)@,
            },
    {
        match self.inner.wait_queue.pop_front() {
            Some(task) => {
                wakeup_task(manager, task);
            },
            None => {
                self.inner.locked = false;
            },
        }
    }
}

/// One call on a parking lock.
pub enum MutexOp {
    /// The given running thread calls `lock`.
    Lock(TaskControlBlock),
    /// The holder calls `unlock`.
    Unlock,
}

/// The state after one call.
pub open spec fn blocking_step(pre: MutexBlockingState, op: MutexOp) -> MutexBlockingState {
    match op {
        MutexOp::Lock(task) => blocking_after_lock(pre, task),
        MutexOp::Unlock => blocking_after_unlock(pre),
    }
}

/// The state after a sequence of calls.
pub open spec fn blocking_run(pre: MutexBlockingState, ops: Seq<MutexOp>) -> MutexBlockingState
    decreases ops.len(),
{
    if ops.len() == 0 {
        pre
    } else {
        blocking_step(blocking_run(pre, ops.drop_last()), ops.last())
    }
}

/// Whether every unlock of the sequence finds the lock held.
pub open spec fn unlocks_matched(pre: MutexBlockingState, ops: Seq<MutexOp>) -> bool
    decreases ops.len(),
{
    ops.len() == 0 || (unlocks_matched(pre, ops.drop_last()) && (ops.last() is Unlock
        ==> blocking_run(pre, ops.drop_last()).locked))
}

/// How the number of threads that regard themselves as holder changes with
/// one call: a thread that takes the free lock or is handed the lock comes
/// in, the thread that unlocks goes out.
pub open spec fn holder_change(pre: MutexBlockingState, op: MutexOp) -> int {
    match op {
        MutexOp::Lock(_) => if pre.locked {
            0
        } else {
            1
        },
        MutexOp::Unlock => if pre.waiters.len() > 0 {
            0
        } else {
            -1
        },
    }
}

/// Number of threads that regard themselves as holder after the calls,
/// counted call by call from the lock's state before them.
pub open spec fn holders_after(pre: MutexBlockingState, ops: Seq<MutexOp>) -> int
    decreases ops.len(),
{
    if ops.len() == 0 {
        if pre.locked {
            1
        } else {
            0
        }
    } else {
        holders_after(pre, ops.drop_last()) + holder_change(
            blocking_run(pre, ops.drop_last()),
            ops.last(),
        )
    }
}

/// Mutual exclusion: whatever calls are made, as long as each unlock comes
/// from a holder, at most one thread regards itself as holder, and exactly
/// one does while the lock is held.
pub proof fn lemma_mutual_exclusion(pre: MutexBlockingState, ops: Seq<MutexOp>)
    requires
        unlocks_matched(pre, ops),
    ensures
        holders_after(pre, ops) <= 1,
        holders_after(pre, ops) == if blocking_run(pre, ops).locked {
            1int
        } else {
            0int
        },
    decreases ops.len(),
{
    if ops.len() > 0 {
        lemma_mutual_exclusion(pre, ops.drop_last());
    }
}

/// A free lock has no waiters.
pub open spec fn settled(state: MutexBlockingState) -> bool {
    !state.locked ==> state.waiters.len() == 0
}

/// Threads wait only while the lock is held: a lock that starts out settled
/// stays settled under every sequence of calls whose unlocks come from a
/// holder.
pub proof fn lemma_calls_keep_settled(pre: MutexBlockingState, ops: Seq<MutexOp>)
    requires
        settled(pre),
        unlocks_matched(pre, ops),
    ensures
        settled(blocking_run(pre, ops)),
    decreases ops.len(),
{
    if ops.len() > 0 {
        lemma_calls_keep_settled(pre, ops.drop_last());
    }
}

/// The state after `count` unlocks in a row.
pub open spec fn after_unlocks(pre: MutexBlockingState, count: nat) -> MutexBlockingState
    decreases count,
{
    if count == 0 {
        pre
    } else {
        blocking_after_unlock(after_unlocks(pre, (count - 1) as nat))
    }
}

/// The threads that `count` unlocks in a row wake, in the order of waking.
pub open spec fn woken_by_unlocks(pre: MutexBlockingState, count: nat) -> Seq<TaskControlBlock>
    decreases count,
{
    if count == 0 {
        Seq::empty()
    } else {
        let earlier = woken_by_unlocks(pre, (count - 1) as nat);
        match blocking_woken(after_unlocks(pre, (count - 1) as nat)) {
            Some(task) => earlier.push(task),
            None => earlier,
        }
    }
}

/// The state after the given threads have called `lock` one after another.
pub open spec fn after_locks(
    pre: MutexBlockingState,
    tasks: Seq<TaskControlBlock>,
) -> MutexBlockingState
    decreases tasks.len(),
{
    if tasks.len() == 0 {
        pre
    } else {
        blocking_after_lock(after_locks(pre, tasks.drop_last()), tasks.last())
    }
}

/// Threads that call `lock` on a held lock queue up behind the waiters that
/// are there, in the order of their calls.
pub proof fn lemma_locks_queue_in_order(pre: MutexBlockingState, tasks: Seq<TaskControlBlock>)
    requires
        pre.locked,
    ensures
        after_locks(pre, tasks).locked,
        after_locks(pre, tasks).allocated_to == pre.allocated_to,
        after_locks(pre, tasks).waiters == pre.waiters + tasks.map_values(
            |task: TaskControlBlock| task.with_status(TaskStatus::Blocked),
        ),
    decreases tasks.len(),
{
    let blocked = |task: TaskControlBlock| task.with_status(TaskStatus::Blocked);
    if tasks.len() == 0 {
        assert(pre.waiters + tasks.map_values(blocked) =~= pre.waiters);
    } else {
        lemma_locks_queue_in_order(pre, tasks.drop_last());
        assert(pre.waiters + tasks.map_values(blocked) =~= (pre.waiters
            + tasks.drop_last().map_values(blocked)).push(blocked(tasks.last())));
    }
}

/// Wakeups are first in, first out: as many unlocks as there are waiters, or
/// fewer, wake the waiters from the front of the queue in their order, and
/// the lock stays held throughout.
pub proof fn lemma_wakeups_are_fifo(pre: MutexBlockingState, count: nat)
    requires
        count <= pre.waiters.len(),
    ensures
        woken_by_unlocks(pre, count) == pre.waiters.subrange(0, count as int),
        after_unlocks(pre, count).waiters == pre.waiters.subrange(
            count as int,
            pre.waiters.len() as int,
        ),
        after_unlocks(pre, count).locked == pre.locked,
        after_unlocks(pre, count).allocated_to == pre.allocated_to,
    decreases count,
{
    if count == 0 {
        assert(pre.waiters.subrange(0, 0) =~= Seq::<TaskControlBlock>::empty());
        assert(pre.waiters.subrange(0, pre.waiters.len() as int) =~= pre.waiters);
    } else {
        let earlier = (count - 1) as nat;
        lemma_wakeups_are_fifo(pre, earlier);
        let before = after_unlocks(pre, earlier);
        assert(before.waiters.len() > 0);
        assert(before.waiters[0] == pre.waiters[earlier as int]);
        assert(pre.waiters.subrange(0, count as int) =~= pre.waiters.subrange(
            0,
            earlier as int,
        ).push(pre.waiters[earlier as int]));
        assert(before.waiters.subrange(1, before.waiters.len() as int) =~= pre.waiters.subrange(
            count as int,
            pre.waiters.len() as int,
        ));
    }
}

} // verus!

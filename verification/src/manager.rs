//! The ready queue: runnable threads in ascending order of stride.

use std::collections::VecDeque;
use vstd::prelude::*;
use crate::config::{BIG_STRIDE, MIN_PRIORITY};
use crate::task::TaskControlBlock;

verus! {

/// Stride distance a thread of the given priority advances per enqueue.
pub open spec fn pass_of(priority: usize) -> int
    recommends
        priority > 0,
{
    BIG_STRIDE as int / priority as int
}

/// Stride of a thread after its next enqueue. The accumulator saturates at
/// the largest representable value instead of wrapping around, so a stride
/// never decreases.
pub open spec fn next_stride(task: TaskControlBlock) -> int {
    if task.stride + pass_of(task.priority) > usize::MAX {
        usize::MAX as int
    } else {
        task.stride + pass_of(task.priority)
    }
}

/// The record that enters the ready queue when `task` is enqueued: the same
/// thread, its stride advanced by one pass.
pub open spec fn enqueued(task: TaskControlBlock) -> TaskControlBlock {
    TaskControlBlock { stride: next_stride(task) as usize, ..task }
}

/// Whether strides never decrease from the front of `queue` to its back.
pub open spec fn sorted_by_stride(queue: Seq<TaskControlBlock>) -> bool {
    forall|i: int, j: int| 0 <= i <= j < queue.len() ==> queue[i].stride <= queue[j].stride
}

/// Index of the first entry at or after `from` whose stride is strictly
/// greater than `stride`, or the queue's length if there is none.
pub open spec fn first_greater_from(queue: Seq<TaskControlBlock>, stride: usize, from: int) -> int
    decreases queue.len() - from,
{
    if from < 0 || from >= queue.len() {
        queue.len() as int
    } else if queue[from].stride > stride {
        from
    } else {
        first_greater_from(queue, stride, from + 1)
    }
}

/// Position at which a thread with the given stride enters `queue`: behind
/// every entry with an equal or smaller stride that precedes the first
/// greater one.
pub open spec fn insert_position(queue: Seq<TaskControlBlock>, stride: usize) -> int {
    first_greater_from(queue, stride, 0)
}

/// Whether every queued record has a legal priority.
pub open spec fn all_wf(queue: Seq<TaskControlBlock>) -> bool {
    forall|i: int| 0 <= i < queue.len() ==> (#[trigger] queue[i]).wf()
}

/// The insert position lies within the queue, everything before it has a
/// stride no greater than `stride`, and the entry at it, if any, a greater one.
pub proof fn lemma_insert_position(queue: Seq<TaskControlBlock>, stride: usize, from: int)
    requires
        0 <= from <= queue.len(),
    ensures
        from <= first_greater_from(queue, stride, from) <= queue.len(),
        forall|j: int|
            from <= j < first_greater_from(queue, stride, from) ==> (#[trigger] queue[j]).stride
                <= stride,
        first_greater_from(queue, stride, from) < queue.len() ==> queue[first_greater_from(
            queue,
            stride,
            from,
        )].stride > stride,
    decreases queue.len() - from,
{
    if from < queue.len() && queue[from].stride <= stride {
        lemma_insert_position(queue, stride, from + 1);
    }
}

/// A higher priority never means a longer pass, and every legal priority
/// has a pass of at most half the stride range.
pub proof fn lemma_pass_antimonotone(lower: usize, higher: usize)
    requires
        MIN_PRIORITY <= lower <= higher,
    ensures
        pass_of(higher) <= pass_of(lower),
        pass_of(lower) <= BIG_STRIDE / 2,
        0 <= pass_of(higher),
{
    let big = BIG_STRIDE as int;
    let a = lower as int;
    let b = higher as int;
    assert(big / b <= big / a && big / a <= big / 2 && 0 <= big / b) by (nonlinear_arith)
        requires
            2 <= a <= b,
            big >= 0,
    ;
}

/// Enqueuing into a sorted queue leaves it sorted.
pub proof fn lemma_add_keeps_sorted(queue: Seq<TaskControlBlock>, task: TaskControlBlock)
    requires
        sorted_by_stride(queue),
    ensures
        sorted_by_stride(
            queue.insert(insert_position(queue, enqueued(task).stride), enqueued(task)),
        ),
{
    let entry = enqueued(task);
    let pos = insert_position(queue, entry.stride);
    lemma_insert_position(queue, entry.stride, 0);
    let after = queue.insert(pos, entry);
    assert forall|i: int, j: int| 0 <= i <= j < after.len() implies after[i].stride
        <= after[j].stride by {
        if i < pos {
            assert(after[i] == queue[i]);
        } else if i > pos {
            assert(after[i] == queue[i - 1]);
        }
        if j < pos {
            assert(after[j] == queue[j]);
        } else if j > pos {
            assert(after[j] == queue[j - 1]);
            assert(queue[pos].stride <= queue[j - 1].stride);
        }
    }
}

/// The queue after the given threads have been enqueued one after another.
pub open spec fn queue_after_adds(
    queue: Seq<TaskControlBlock>,
    tasks: Seq<TaskControlBlock>,
) -> Seq<TaskControlBlock>
    decreases tasks.len(),
{
    if tasks.len() == 0 {
        queue
    } else {
        let before = queue_after_adds(queue, tasks.drop_last());
        before.insert(insert_position(before, enqueued(tasks.last()).stride), enqueued(tasks.last()))
    }
}

/// Whatever threads are enqueued, in whatever order, a sorted queue stays
/// sorted and grows by one entry per enqueue.
pub proof fn lemma_adds_keep_sorted(queue: Seq<TaskControlBlock>, tasks: Seq<TaskControlBlock>)
    requires
        sorted_by_stride(queue),
    ensures
        sorted_by_stride(queue_after_adds(queue, tasks)),
        queue_after_adds(queue, tasks).len() == queue.len() + tasks.len(),
    decreases tasks.len(),
{
    if tasks.len() > 0 {
        lemma_adds_keep_sorted(queue, tasks.drop_last());
        let before = queue_after_adds(queue, tasks.drop_last());
        lemma_add_keeps_sorted(before, tasks.last());
        lemma_insert_position(before, enqueued(tasks.last()).stride, 0);
    }
}

/// An enqueue never moves a thread's stride backwards, and moves it forward
/// by exactly one pass unless the accumulator saturates.
pub proof fn lemma_stride_never_decreases(task: TaskControlBlock)
    requires
        task.wf(),
    ensures
        task.stride <= enqueued(task).stride,
        enqueued(task).stride == next_stride(task),
        task.stride + pass_of(task.priority) <= usize::MAX ==> enqueued(task).stride == task.stride
            + BIG_STRIDE / task.priority,
{
    lemma_pass_antimonotone(task.priority, task.priority);
}

/// The record of a thread after it has been enqueued `rounds` times.
pub open spec fn after_enqueues(task: TaskControlBlock, rounds: nat) -> TaskControlBlock
    decreases rounds,
{
    if rounds == 0 {
        task
    } else {
        enqueued(after_enqueues(task, (rounds - 1) as nat))
    }
}

/// Proportional share: below the saturation point, a thread that has been
/// enqueued `rounds` times has moved by exactly `rounds` passes, so among
/// threads that compete for the front of the queue the distance covered per
/// dispatch is inversely proportional to priority.
pub proof fn lemma_stride_after_enqueues(task: TaskControlBlock, rounds: nat)
    requires
        task.wf(),
        task.stride + rounds * pass_of(task.priority) <= usize::MAX,
    ensures
        after_enqueues(task, rounds).stride == task.stride + rounds * pass_of(task.priority),
        after_enqueues(task, rounds).priority == task.priority,
        after_enqueues(task, rounds).tid == task.tid,
    decreases rounds,
{
    let pass = pass_of(task.priority);
    lemma_pass_antimonotone(task.priority, task.priority);
    if rounds > 0 {
        let earlier = (rounds - 1) as nat;
        assert(earlier * pass + pass == rounds * pass && earlier * pass <= rounds * pass)
            by (nonlinear_arith)
            requires
                earlier + 1 == rounds,
                pass >= 0,
        ;
        lemma_stride_after_enqueues(task, earlier);
    } else {
        assert(rounds * pass == 0) by (nonlinear_arith)
            requires
                rounds == 0,
        ;
    }
}

/// The scheduler's queue of runnable threads.
pub struct TaskManager {
    ready_queue: VecDeque<TaskControlBlock>,
}

impl View for TaskManager {
    type V = Seq<TaskControlBlock>;

    /// The queued records, front first.
    closed spec fn view(&self) -> Seq<TaskControlBlock> {
        self.ready_queue@
    }
}

impl TaskManager {
    /// The queue is sorted ascending by stride and holds legal records only.
    pub open spec fn wf(&self) -> bool {
        &&& sorted_by_stride(self@)
        &&& all_wf(self@)
    }

    /// An empty ready queue.
    pub fn new() -> (manager: TaskManager)
        ensures
            manager@ == Seq::<TaskControlBlock>::empty(),
            manager.wf(),
    {
        TaskManager { ready_queue: VecDeque::new() }
    }

    /// Number of runnable threads.
    pub fn len(&self) -> (n: usize)
        ensures
            n == self@.len(),
    {
        self.ready_queue.len()
    }

    /// Advances the thread's stride by its pass and puts it into the queue in
    /// front of the first entry with a strictly greater stride, so that
    /// threads of equal stride leave in the order in which they came.
    pub fn add(&mut self, task: TaskControlBlock)
        requires
            task.wf(),
        ensures
            final(self)@ == old(self)@.insert(
                insert_position(old(self)@, enqueued(task).stride),
                enqueued(task),
            ),
            0 <= insert_position(old(self)@, enqueued(task).stride) <= old(self)@.len(),
            final(self)@.len() == old(self)@.len() + 1,
            old(self).wf() ==> final(self).wf(),
    {
        let pass: usize = BIG_STRIDE / task.priority;
        let new_stride: usize = if task.stride > usize::MAX - pass {
            usize::MAX
        } else {
            task.stride + pass
        };
        let mut entry = task;
        entry.stride = new_stride;
        assert(entry == enqueued(task));
        let n: usize = self.ready_queue.len();
        let mut index: usize = 0;
        while index < n && self.ready_queue[index].stride <= new_stride
            invariant
                n == self.ready_queue@.len(),
                index <= n,
                self.ready_queue@ == old(self).ready_queue@,
                first_greater_from(self.ready_queue@, new_stride, 0) == first_greater_from(
                    self.ready_queue@,
                    new_stride,
                    index as int,
                ),
            decreases n - index,
        {
            index += 1;
        }
        proof {
            lemma_insert_position(old(self)@, new_stride, 0);
            if sorted_by_stride(old(self)@) {
                lemma_add_keeps_sorted(old(self)@, task);
            }
        }
        self.ready_queue.insert(index, entry);
    }

    /// Removes and returns the thread at the front, the one of lowest stride,
    /// or `None` when no thread is runnable.
    pub fn fetch(&mut self) -> (next: Option<TaskControlBlock>)
        ensures
            match next {
                Some(task) => {
                    &&& old(self)@.len() > 0
                    &&& task == old(self)@[0]
                    &&& final(self)@ == old(self)@.subrange(1, old(self)@.len() as int)
                    &&& old(self).wf() ==> forall|i: int|
                        0 <= i < old(self)@.len() ==> task.stride <= (#[trigger] old(
                            self,
                        )@[i]).stride
                },
                None => old(self)@.len() == 0 && final(self)@ == old(self)@,
            },
            old(self).wf() ==> final(self).wf(),
    {
        self.ready_queue.pop_front()
    }
}

/// Adds a thread to the ready queue.
pub fn add_task(manager: &mut TaskManager, task: TaskControlBlock)
    requires
        task.wf(),
    ensures
        final(manager)@ == old(manager)@.insert(
            insert_position(old(manager)@, enqueued(task).stride),
            enqueued(task),
        ),
        0 <= insert_position(old(manager)@, enqueued(task).stride) <= old(manager)@.len(),
        final(manager)@.len() == old(manager)@.len() + 1,
        old(manager).wf() ==> final(manager).wf(),
{
    manager.add(task);
}

/// Takes the thread of lowest stride out of the ready queue.
pub fn fetch_task(manager: &mut TaskManager) -> (next: Option<TaskControlBlock>)
    ensures
        match next {
            Some(task) => {
                &&& old(manager)@.len() > 0
                &&& task == old(manager)@[0]
                &&& final(manager)@ == old(manager)@.subrange(1, old(manager)@.len() as int)
                &&& old(manager).wf() ==> forall|i: int|
                    0 <= i < old(manager)@.len() ==> task.stride <= (#[trigger] old(
                        manager,
                    )@[i]).stride
            },
            None => old(manager)@.len() == 0 && final(manager)@ == old(manager)@,
        },
        old(manager).wf() ==> final(manager).wf(),
{
    manager.fetch()
}

} // verus!

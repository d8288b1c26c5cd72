//! Lock primitives and the accounting view they offer to a deadlock detector.

pub mod mutex;
pub mod semaphore;

use std::collections::VecDeque;
use vstd::prelude::*;
pub use crate::sync::mutex::{Mutex, MutexBlocking, MutexSpin};
pub use crate::sync::semaphore::Semaphore;
use crate::task::{TaskControlBlock, Tid};

verus! {

/// The identifiers of the queued threads, front first.
pub open spec fn tids_of(queue: Seq<TaskControlBlock>) -> Seq<Tid> {
    queue.map_values(|task: TaskControlBlock| task.tid)
}

/// One unit for each of the given threads, in the same order.
pub open spec fn one_unit_each(tids: Seq<Tid>) -> Seq<(Tid, usize)> {
    tids.map_values(|tid: Tid| (tid, 1usize))
}

/// A resource that the threads of a process share. The three readings are
/// independent snapshots: the state may change between two of them.
pub trait Resource {
    /// The primitive's own invariant.
    spec fn wf(&self) -> bool;

    /// Units that are free to be handed out.
    spec fn available(&self) -> nat;

    /// The holders, each with the units it holds.
    spec fn allocation(&self) -> Seq<(Tid, usize)>;

    /// The waiting threads, front first, each with the units it still asks for.
    spec fn need(&self) -> Seq<(Tid, usize)>;

    /// Units that are free to be handed out.
    fn get_available(&self) -> (units: usize)
        requires
            self.wf(),
        ensures
            units == self.available(),
    ;

    /// The holders, each with the units it holds.
    fn get_allocation(&self) -> (holders: Vec<(Tid, usize)>)
        requires
            self.wf(),
        ensures
            holders@ == self.allocation(),
    ;

    /// The waiting threads, front first, each asking for one more unit.
    fn get_need(&self) -> (waiters: Vec<(Tid, usize)>)
        requires
            self.wf(),
        ensures
            waiters@ == self.need(),
    ;
}

/// Lists one unit of demand for each thread of a wait queue, front first.
pub fn demand_of(queue: &VecDeque<TaskControlBlock>) -> (demand: Vec<(Tid, usize)>)
    ensures
        demand@ == one_unit_each(tids_of(queue@)),
{
    let mut demand: Vec<(Tid, usize)> = Vec::new();
    let n: usize = queue.len();
    let mut i: usize = 0;
    while i < n
        invariant
            n == queue@.len(),
            i <= n,
            demand@ == one_unit_each(tids_of(queue@.subrange(0, i as int))),
        decreases n - i,
    {
        demand.push((queue[i].tid, 1));
        i += 1;
        assert(demand@ =~= one_unit_each(tids_of(queue@.subrange(0, i as int))));
    }
    assert(queue@.subrange(0, n as int) =~= queue@);
    demand
}

} // verus!

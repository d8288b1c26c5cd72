//! A set of thread identifiers that hands its members out in ascending order.

use vstd::prelude::*;
use crate::task::Tid;

verus! {

/// Whether each element of `s` is strictly smaller than the next.
pub open spec fn strictly_ascending(s: Seq<Tid>) -> bool {
    forall|i: int, j: int| 0 <= i < j < s.len() ==> s[i] < s[j]
}

/// An ordered set of thread identifiers.
pub struct TidSet {
    tids: Vec<Tid>,
}

impl View for TidSet {
    type V = Set<Tid>;

    /// The members as a mathematical set.
    open spec fn view(&self) -> Set<Tid> {
        Set::new(|t: Tid| self.ascending().contains(t))
    }
}

impl TidSet {
    /// The members from the smallest to the largest.
    pub closed spec fn ascending(&self) -> Seq<Tid> {
        self.tids@
    }

    /// No member occurs twice and the members are kept in order.
    pub open spec fn wf(&self) -> bool {
        strictly_ascending(self.ascending())
    }

    /// The empty set.
    pub fn new() -> (set: TidSet)
        ensures
            set.wf(),
            set.ascending() == Seq::<Tid>::empty(),
            set@ == Set::<Tid>::empty(),
    {
        let set = TidSet { tids: Vec::new() };
        assert(set@ =~= Set::<Tid>::empty());
        set
    }

    /// Number of members.
    pub fn len(&self) -> (n: usize)
        ensures
            n == self.ascending().len(),
    {
        self.tids.len()
    }

    /// Index of the first member that is not smaller than `tid`.
    fn lower_bound(&self, tid: Tid) -> (index: usize)
        requires
            self.wf(),
        ensures
            index <= self.ascending().len(),
            forall|j: int| 0 <= j < index ==> self.ascending()[j] < tid,
            forall|j: int| index <= j < self.ascending().len() ==> self.ascending()[j] >= tid,
    {
        let n: usize = self.tids.len();
        let mut index: usize = 0;
        while index < n && self.tids[index] < tid
            invariant
                n == self.tids@.len(),
                index <= n,
                forall|j: int| 0 <= j < index ==> self.tids@[j] < tid,
            decreases n - index,
        {
            index += 1;
        }
        index
    }

    /// Whether `tid` is a member.
    pub fn contains(&self, tid: Tid) -> (found: bool)
        requires
            self.wf(),
        ensures
            found == self@.contains(tid),
    {
        let index: usize = self.lower_bound(tid);
        let found = index < self.tids.len() && self.tids[index] == tid;
        proof {
            if found {
                assert(self.ascending()[index as int] == tid);
            }
        }
        found
    }

    /// Adds `tid`; the result tells whether it was new.
    pub fn insert(&mut self, tid: Tid) -> (added: bool)
        requires
            old(self).wf(),
        ensures
            final(self).wf(),
            final(self)@ == old(self)@.insert(tid),
            added == !old(self)@.contains(tid),
    {
        let index: usize = self.lower_bound(tid);
        if index < self.tids.len() && self.tids[index] == tid {
            proof {
                assert(self.ascending()[index as int] == tid);
                assert(self@ =~= old(self)@.insert(tid));
            }
            return false;
        }
        self.tids.insert(index, tid);
        proof {
            let before = old(self).ascending();
            let after = self.ascending();
            assert(after == before.insert(index as int, tid));
            assert forall|i: int, j: int| 0 <= i < j < after.len() implies after[i] < after[j] by {
                if i < index {
                    assert(after[i] == before[i]);
                } else if i > index {
                    assert(after[i] == before[i - 1]);
                }
                if j < index {
                    assert(after[j] == before[j]);
                } else if j > index {
                    assert(after[j] == before[j - 1]);
                }
            }
            assert forall|t: Tid| self@.contains(t) == old(self)@.insert(tid).contains(t) by {
                if after.contains(t) {
                    let k = choose|k: int| 0 <= k < after.len() && after[k] == t;
                    if k < index {
                        assert(before[k] == t);
                    } else if k > index {
                        assert(before[k - 1] == t);
                    }
                }
                if before.contains(t) {
                    let k = choose|k: int| 0 <= k < before.len() && before[k] == t;
                    if k < index {
                        assert(after[k] == t);
                    } else {
                        assert(after[k + 1] == t);
                    }
                }
                if t == tid {
                    assert(after[index as int] == t);
                }
            }
            assert(self@ =~= old(self)@.insert(tid));
        }
        true
    }

    /// Removes `tid`; the result tells whether it was a member.
    pub fn remove(&mut self, tid: Tid) -> (removed: bool)
        requires
            old(self).wf(),
        ensures
            final(self).wf(),
            final(self)@ == old(self)@.remove(tid),
            removed == old(self)@.contains(tid),
    {
        let index: usize = self.lower_bound(tid);
        if index >= self.tids.len() || self.tids[index] != tid {
            proof {
                assert(self@ =~= old(self)@.remove(tid));
            }
            return false;
        }
        self.tids.remove(index);
        proof {
            let before = old(self).ascending();
            let after = self.ascending();
            assert(after == before.remove(index as int));
            assert(before[index as int] == tid);
            assert forall|i: int, j: int| 0 <= i < j < after.len() implies after[i] < after[j] by {
                if i < index {
                    assert(after[i] == before[i]);
                } else {
                    assert(after[i] == before[i + 1]);
                }
                if j < index {
                    assert(after[j] == before[j]);
                } else {
                    assert(after[j] == before[j + 1]);
                }
            }
            assert forall|t: Tid| self@.contains(t) == old(self)@.remove(tid).contains(t) by {
                if after.contains(t) {
                    let k = choose|k: int| 0 <= k < after.len() && after[k] == t;
                    if k < index {
                        assert(before[k] == t);
                    } else {
                        assert(before[k + 1] == t);
                    }
                }
                if before.contains(t) && t != tid {
                    let k = choose|k: int| 0 <= k < before.len() && before[k] == t;
                    if k < index {
                        assert(after[k] == t);
                    } else {
                        assert(after[k - 1] == t);
                    }
                }
            }
            assert(self@ =~= old(self)@.remove(tid));
        }
        true
    }

    /// The members from the smallest to the largest.
    pub fn to_vec(&self) -> (members: Vec<Tid>)
        ensures
            members@ == self.ascending(),
    {
        let mut members: Vec<Tid> = Vec::new();
        let n: usize = self.tids.len();
        let mut i: usize = 0;
        while i < n
            invariant
                n == self.tids@.len(),
                i <= n,
                members@ == self.tids@.subrange(0, i as int),
            decreases n - i,
        {
            members.push(self.tids[i]);
            i += 1;
            assert(members@ =~= self.tids@.subrange(0, i as int));
        }
        assert(members@ =~= self.tids@);
        members
    }
}

} // verus!

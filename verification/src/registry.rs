//! The listener registry: an ordered, growable collection of listener
//! handles, one per subscription. A handle is an opaque slot identifier
//! assigned by the caller; identity is by registry slot, not by value, so
//! duplicate handles are legal and form independent entries.

use vstd::prelude::*;

verus! {

/// An ordered registry of listener handles.
///
/// `register` appends at the end (unbounded growth, no deduplication);
/// `remove_indices_desc` removes a strictly descending list of indices, so
/// that each removal leaves the remaining indices of the list valid.
pub struct ListenerRegistry {
    handles: Vec<u64>,
}

impl View for ListenerRegistry {
    type V = Seq<u64>;

    closed spec fn view(&self) -> Seq<u64> {
        self.handles@
    }
}

/// The registry after removing the slots named by `idx`, front to back.
/// Meaningful when `idx` is strictly descending and in bounds: each removal
/// then leaves every later (smaller) index pointing at the slot it named.
pub open spec fn remove_indices_spec(s: Seq<u64>, idx: Seq<usize>) -> Seq<u64>
    decreases idx.len(),
{
    if idx.len() == 0 {
        s
    } else {
        remove_indices_spec(s.remove(idx[0] as int), idx.subrange(1, idx.len() as int))
    }
}

/// `idx` is strictly descending and every entry indexes into a sequence of
/// length `len`.
pub open spec fn strictly_descending_below(idx: Seq<usize>, len: nat) -> bool {
    &&& forall|i: int, j: int| 0 <= i < j < idx.len() ==> idx[i] > idx[j]
    &&& forall|i: int| 0 <= i < idx.len() ==> idx[i] < len
}

impl ListenerRegistry {
    /// A fresh registry with no listeners.
    pub fn new() -> (r: ListenerRegistry)
        ensures
            r@ == Seq::<u64>::empty(),
    {
        ListenerRegistry { handles: Vec::new() }
    }

    /// The number of registered listeners.
    pub fn len(&self) -> (n: usize)
        ensures
            n == self@.len(),
    {
        self.handles.len()
    }

    /// The handle at slot `i`.
    pub fn get(&self, i: usize) -> (h: u64)
        requires
            i < self@.len(),
        ensures
            h == self@[i as int],
    {
        self.handles[i]
    }

    /// Appends `handle` at the end of the registry.
    pub fn register(&mut self, handle: u64)
        ensures
            final(self)@ == old(self)@.push(handle),
    {
        self.handles.push(handle);
    }

    /// A copy of the current contents, in registry order: the snapshot a
    /// broadcast pass iterates while delivery happens outside the lock.
    pub fn snapshot(&self) -> (s: Vec<u64>)
        ensures
            s@ == self@,
    {
        let mut s: Vec<u64> = Vec::new();
        let mut i: usize = 0;
        while i < self.handles.len()
            invariant
                i <= self.handles.len(),
                s@ == self.handles@.subrange(0, i as int),
            decreases self.handles.len() - i,
        {
            s.push(self.handles[i]);
            i = i + 1;
        }
        proof {
            assert(s@ =~= self.handles@);
        }
        s
    }

    /// Removes exactly the slots named by `idx`, which must be strictly
    /// descending and in bounds; surviving entries keep their relative order.
    pub fn remove_indices_desc(&mut self, idx: &Vec<usize>)
        requires
            strictly_descending_below(idx@, old(self)@.len()),
        ensures
            final(self)@ == remove_indices_spec(old(self)@, idx@),
    {
        proof {
            assert(idx@.subrange(0, idx@.len() as int) =~= idx@);
        }
        let mut k: usize = 0;
        while k < idx.len()
            invariant
                k <= idx.len(),
                strictly_descending_below(idx@.subrange(k as int, idx@.len() as int), self@.len()),
                remove_indices_spec(self@, idx@.subrange(k as int, idx@.len() as int))
                    == remove_indices_spec(old(self)@, idx@),
            decreases idx.len() - k,
        {
            let j = idx[k];
            proof {
                assert(idx@.subrange(k as int, idx@.len() as int)[0] == idx@[k as int]);
            }
            self.handles.remove(j);
            proof {
                let tail = idx@.subrange(k as int, idx@.len() as int);
                let tail2 = idx@.subrange(k + 1, idx@.len() as int);
                assert(tail.subrange(1, tail.len() as int) =~= tail2);
            }
            k = k + 1;
        }
        proof {
            assert(idx@.subrange(k as int, idx@.len() as int) =~= Seq::<usize>::empty());
        }
    }
}

} // verus!

//! The in-memory queue of results waiting for upload: bounded by a
//! capacity, oldest first, and when full it drops the oldest result to take
//! a new one.
use std::collections::VecDeque;
use vstd::prelude::*;

verus! {

/// Results waiting for upload, oldest first, at most `capacity` of them.
pub struct ResultQueue<T> {
    capacity: usize,
    items: VecDeque<T>,
}

impl<T> View for ResultQueue<T> {
    type V = Seq<T>;

    closed spec fn view(&self) -> Seq<T> {
        self.items@
    }
}

impl<T> ResultQueue<T> {
    /// The number of results the queue holds at most.
    pub closed spec fn spec_capacity(&self) -> nat {
        self.capacity as nat
    }

    /// The queue's invariant: room for at least one result, and never more
    /// results than the capacity.
    pub closed spec fn wf(&self) -> bool {
        0 < self.capacity && self.items@.len() <= self.capacity
    }

    /// An empty queue with room for `capacity` results (at least one).
    pub fn new(capacity: usize) -> (q: Self)
        requires
            capacity > 0,
        ensures
            q.wf(),
            q@ == Seq::<T>::empty(),
            q.spec_capacity() == capacity,
    {
        ResultQueue { capacity, items: VecDeque::new() }
    }

    /// The capacity.
    pub fn capacity(&self) -> (r: usize)
        requires
            self.wf(),
        ensures
            r == self.spec_capacity(),
            r > 0,
    {
        self.capacity
    }

    /// How many results are waiting.
    pub fn len(&self) -> (r: usize)
        requires
            self.wf(),
        ensures
            r == self@.len(),
            r <= self.spec_capacity(),
    {
        self.items.len()
    }

    /// Adds a result at the back. When the queue is full, the oldest
    /// result is dropped first and handed back.
    pub fn push(&mut self, item: T) -> (dropped: Option<T>)
        requires
            old(self).wf(),
        ensures
            final(self).wf(),
            final(self).spec_capacity() == old(self).spec_capacity(),
            old(self)@.len() < old(self).spec_capacity() ==> dropped is None && final(self)@
                == old(self)@.push(item),
            old(self)@.len() >= old(self).spec_capacity() ==> dropped == Some(old(self)@[0])
                && final(self)@ == old(self)@.drop_first().push(item),
    {
        let dropped = if self.items.len() >= self.capacity {
            self.items.pop_front()
        } else {
            None
        };
        self.items.push_back(item);
        dropped
    }

    /// Takes the oldest result; `None` when the queue is empty.
    pub fn pop(&mut self) -> (r: Option<T>)
        requires
            old(self).wf(),
        ensures
            final(self).wf(),
            final(self).spec_capacity() == old(self).spec_capacity(),
            old(self)@.len() == 0 ==> r is None && final(self)@ == old(self)@,
            old(self)@.len() > 0 ==> r == Some(old(self)@[0]) && final(self)@ == old(
                self,
            )@.drop_first(),
    {
        let r = self.items.pop_front();
        proof {
            if old(self)@.len() > 0 {
                assert(old(self)@.subrange(1, old(self)@.len() as int) =~= old(self)@.drop_first());
            }
        }
        r
    }
}

/// Whatever is pushed, a queue never holds more than its capacity, and the
/// results it holds are the newest ones in the order they came: after
/// pushing `items` one by one into an empty queue of capacity `c`, it holds
/// the last `c` of them.
pub open spec fn after_pushes<T>(c: nat, items: Seq<T>) -> Seq<T> {
    if items.len() <= c {
        items
    } else {
        items.subrange(items.len() - c, items.len() as int)
    }
}

/// One push keeps the queue at the newest results: pushing `x` onto the
/// newest `c` of `items` gives the newest `c` of `items` followed by `x`.
pub proof fn lemma_push_keeps_newest<T>(c: nat, items: Seq<T>, x: T)
    requires
        c > 0,
    ensures
        ({
            let q = after_pushes(c, items);
            let next = if q.len() < c {
                q.push(x)
            } else {
                q.drop_first().push(x)
            };
            next == after_pushes(c, items.push(x))
        }),
{
    let q = after_pushes(c, items);
    let all = items.push(x);
    if items.len() < c {
        assert(q.push(x) =~= after_pushes(c, all));
    } else if items.len() == c {
        assert(q.drop_first().push(x) =~= all.subrange(all.len() - c, all.len() as int));
    } else {
        assert(q.len() == c);
        assert(q.drop_first().push(x) =~= all.subrange(all.len() - c, all.len() as int));
    }
}

} // verus!

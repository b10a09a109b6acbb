//! The ready queue: the ordered sequence of runnable coroutine handles.
//!
//! Producers push at the back and workers pop from the front, so readiness
//! is served in first-in, first-out order across all producers.

use vstd::prelude::*;

verus! {

/// A first-in, first-out queue of coroutine identifiers.
pub struct ReadyQueue {
    items: Vec<usize>,
}

impl ReadyQueue {
    /// The queue as the sequence of queued identifiers, front first.
    pub closed spec fn view(&self) -> Seq<usize> {
        self.items@
    }

    /// Creates an empty queue.
    pub fn new() -> (q: ReadyQueue)
        ensures
            q@ == Seq::<usize>::empty(),
    {
        ReadyQueue { items: Vec::new() }
    }

    /// The number of queued identifiers.
    pub fn len(&self) -> (n: usize)
        ensures
            n == self@.len(),
    {
        self.items.len()
    }

    /// Enqueues a runnable coroutine at the back.
    pub fn push(&mut self, co: usize)
        ensures
            final(self)@ == old(self)@.push(co),
    {
        self.items.push(co);
    }

    /// Dequeues the coroutine that has waited longest: the front of the
    /// queue, or nothing when the queue is empty.
    pub fn pop(&mut self) -> (r: Option<usize>)
        ensures
            old(self)@.len() == 0 ==> r is None && final(self)@ == old(self)@,
            old(self)@.len() > 0 ==> r == Some(old(self)@[0]) && final(self)@ == old(self)@.drop_first(),
    {
        if self.items.len() == 0 {
            None
        } else {
            let co = self.items.remove(0);
            assert(self.items@ =~= old(self).items@.drop_first());
            Some(co)
        }
    }
}

/// First-in, first-out fairness: whatever stands in the queue already is
/// popped before anything pushed later, and a push disturbs no earlier
/// entry's position.
pub proof fn lemma_fifo_order(q: Seq<usize>, co: usize)
    ensures
        forall|i: int| 0 <= i < q.len() ==> q.push(co)[i] == q[i],
        q.push(co)[q.len() as int] == co,
{
}

} // verus!

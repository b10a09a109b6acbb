//! The timer subsystem: an expiry-ordered structure associating a deadline
//! with a pending event descriptor.
//!
//! Entries are held sorted by deadline, ties broken by insertion order (a
//! new entry is placed after every entry whose deadline is not later), so
//! the front entry always carries the minimum deadline.  The selector folds
//! this minimum into its blocking wait, and a single wait call thus serves
//! both I/O readiness and timeouts.

use vstd::prelude::*;

verus! {

/// A sequence of timer entries stands in expiry order when deadlines
/// never decrease along it.
pub open spec fn sorted_by_deadline(s: Seq<TimerEntry>) -> bool {
    forall|i: int, j: int|
        0 <= i <= j < s.len() ==> (#[trigger] s[i]).deadline <= (#[trigger] s[j]).deadline
}

/// One pending timeout: an absolute deadline tied to the event descriptor
/// (by its handle) that must be woken with `TimedOut` when it passes.
#[derive(Clone, Copy, Debug, PartialEq, Eq, Structural)]
pub struct TimerEntry {
    /// The absolute deadline, in the same ticks as the wait call's clock.
    pub deadline: u64,
    /// The handle of the event descriptor this timeout belongs to.
    pub fd: u64,
}

/// The expiry-ordered queue of pending timeouts.
pub struct TimerQueue {
    entries: Vec<TimerEntry>,
}

impl TimerQueue {
    /// The queue as the sequence of its entries, earliest expiry first;
    /// entries with equal deadlines stand in insertion order.
    pub closed spec fn view(&self) -> Seq<TimerEntry> {
        self.entries@
    }

    /// Entries are sorted by deadline.
    pub open spec fn wf(&self) -> bool {
        sorted_by_deadline(self@)
    }

    /// Whether some entry belongs to the descriptor with the given handle.
    pub open spec fn spec_contains_fd(&self, fd: u64) -> bool {
        exists|i: int| 0 <= i < self@.len() && (#[trigger] self@[i]).fd == fd
    }

    /// Creates an empty timer queue.
    pub fn new() -> (t: TimerQueue)
        ensures
            t.wf(),
            t@ == Seq::<TimerEntry>::empty(),
    {
        TimerQueue { entries: Vec::new() }
    }

    /// Inserts a timeout for the descriptor with handle `fd`, keeping the
    /// expiry order; every already-queued entry with an equal deadline
    /// stays in front of the new one.
    pub fn insert(&mut self, deadline: u64, fd: u64)
        requires
            old(self).wf(),
        ensures
            final(self).wf(),
            exists|i: int|
                0 <= i <= old(self)@.len() && final(self)@ == #[trigger] old(self)@.insert(
                    i,
                    TimerEntry { deadline, fd },
                ) && (forall|j: int| 0 <= j < i ==> old(self)@[j].deadline <= deadline) && (forall|
                    j: int,
                |
                    i <= j < old(self)@.len() ==> old(self)@[j].deadline > deadline),
    {
        let entry = TimerEntry { deadline, fd };
        let mut i: usize = 0;
        while i < self.entries.len() && self.entries[i].deadline <= deadline
            invariant
                0 <= i <= self.entries@.len(),
                self == old(self),
                self.wf(),
                forall|j: int| 0 <= j < i ==> (#[trigger] self.entries@[j]).deadline <= deadline,
            decreases self.entries@.len() - i,
        {
            i = i + 1;
        }
        proof {
            assert forall|j: int| i <= j < self@.len() implies (#[trigger] self@[j]).deadline
                > deadline by {
                assert(self@[i as int].deadline > deadline);
                assert(self@[i as int].deadline <= self@[j].deadline);
            }
        }
        let ghost s0 = self.entries@;
        self.entries.insert(i, entry);
        proof {
            s0.insert_ensures(i as int, entry);
            assert(self.entries@ == s0.insert(i as int, entry));
            assert forall|p: int, q: int| 0 <= p <= q < self@.len() implies (
            #[trigger] self@[p]).deadline <= (#[trigger] self@[q]).deadline by {
                if q < i {
                    assert(self@[p] == s0[p] && self@[q] == s0[q]);
                } else if p < i && q == i {
                    assert(self@[p] == s0[p] && self@[q] == entry);
                } else if p < i && q > i {
                    assert(self@[p] == s0[p] && self@[q] == s0[q - 1]);
                } else if p == i && q > i {
                    assert(self@[p] == entry && self@[q] == s0[q - 1]);
                } else if p == i && q == i {
                } else {
                    assert(self@[p] == s0[p - 1] && self@[q] == s0[q - 1]);
                }
            }
        }
    }

    /// The earliest deadline among all queued timeouts, if any: the value a
    /// selector folds into its blocking wait.
    pub fn next_deadline(&self) -> (r: Option<u64>)
        requires
            self.wf(),
        ensures
            match r {
                Option::None => self@.len() == 0,
                Option::Some(d) => self@.len() > 0 && d == self@[0].deadline && forall|i: int|
                    0 <= i < self@.len() ==> d <= (#[trigger] self@[i]).deadline,
            },
    {
        if self.entries.len() == 0 {
            None
        } else {
            Some(self.entries[0].deadline)
        }
    }

    /// Pops the front entry if its deadline has passed.  Returns the fired
    /// entry — the earliest deadline, insertion order among equals — or
    /// nothing when no queued timeout has expired.
    pub fn pop_expired(&mut self, now: u64) -> (r: Option<TimerEntry>)
        requires
            old(self).wf(),
        ensures
            final(self).wf(),
            match r {
                Option::None => final(self)@ == old(self)@ && (forall|i: int|
                    0 <= i < old(self)@.len() ==> (#[trigger] old(self)@[i]).deadline > now),
                Option::Some(e) => old(self)@.len() > 0 && e == old(self)@[0] && e.deadline <= now
                    && final(self)@ == old(self)@.drop_first(),
            },
    {
        if self.entries.len() == 0 {
            None
        } else if self.entries[0].deadline <= now {
            let e = self.entries.remove(0);
            assert(self.entries@ =~= old(self).entries@.drop_first());
            Some(e)
        } else {
            None
        }
    }

    /// Removes the timeout belonging to the descriptor with handle `fd`, if
    /// one is queued (the first such, when several share the handle); every
    /// other entry keeps its position.
    pub fn remove_fd(&mut self, fd: u64)
        requires
            old(self).wf(),
        ensures
            final(self).wf(),
            old(self).spec_contains_fd(fd) ==> exists|i: int|
                0 <= i < old(self)@.len() && old(self)@[i].fd == fd && final(self)@
                    == #[trigger] old(self)@.remove(i),
            !old(self).spec_contains_fd(fd) ==> final(self)@ == old(self)@,
    {
        let mut i: usize = 0;
        while i < self.entries.len()
            invariant
                0 <= i <= self.entries@.len(),
                self == old(self),
                self.wf(),
                forall|j: int| 0 <= j < i ==> (#[trigger] self.entries@[j]).fd != fd,
            decreases self.entries@.len() - i,
        {
            if self.entries[i].fd == fd {
                let ghost s0 = self.entries@;
                self.entries.remove(i);
                proof {
                    s0.remove_ensures(i as int);
                    assert(self.entries@ == s0.remove(i as int));
                    assert forall|p: int, q: int| 0 <= p <= q < self@.len() implies (
                    #[trigger] self@[p]).deadline <= (#[trigger] self@[q]).deadline by {
                        if q < i {
                            assert(self@[p] == s0[p] && self@[q] == s0[q]);
                        } else if p < i {
                            assert(self@[p] == s0[p] && self@[q] == s0[q + 1]);
                        } else {
                            assert(self@[p] == s0[p + 1] && self@[q] == s0[q + 1]);
                        }
                    }
                }
                return ;
            }
            i = i + 1;
        }
    }
}

} // verus!

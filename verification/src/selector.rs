//! The readiness selector backend.
//!
//! It owns a registry of event descriptors keyed by OS handle, plus the
//! timer subsystem.  The OS multiplexing call itself happens outside; the
//! verified logic receives the handles the OS reported ready and decides,
//! one firing at a time, which descriptor is woken, with one-shot
//! semantics: a descriptor and its timer entry are removed together on
//! every fire, so a subscription can never wake twice.

use vstd::prelude::*;

use crate::timer::{sorted_by_deadline, TimerEntry, TimerQueue};

verus! {

/// The readiness interest a descriptor registers with the OS poller.
#[derive(Clone, Copy, Debug, PartialEq, Eq, Structural)]
pub enum Interest {
    /// Wake when the handle becomes readable.
    Read,
    /// Wake when the handle becomes writable.
    Write,
    /// Wake on either direction.
    Both,
}

/// An event descriptor: the record tying an OS handle, an interest and the
/// waiting coroutine together.  The optional deadline lives in the timer
/// subsystem, keyed by the same handle.
#[derive(Clone, Copy, Debug, PartialEq, Eq, Structural)]
pub struct EventData {
    /// The platform handle (file descriptor or socket).
    pub fd: u64,
    /// The coroutine suspended on this descriptor; set exactly once per
    /// subscription and cleared — by removing the descriptor — on
    /// completion or cancellation.
    pub co: usize,
    /// The registered readiness interest.
    pub interest: Interest,
}

/// No two descriptors share a handle.
pub open spec fn distinct_fds(s: Seq<EventData>) -> bool {
    forall|i: int, j: int|
        0 <= i < j < s.len() ==> (#[trigger] s[i]).fd != (#[trigger] s[j]).fd
}

/// No two descriptors reference the same coroutine: a coroutine cannot be
/// doubly subscribed.
pub open spec fn distinct_cos(s: Seq<EventData>) -> bool {
    forall|i: int, j: int|
        0 <= i < j < s.len() ==> (#[trigger] s[i]).co != (#[trigger] s[j]).co
}

/// No two timer entries belong to the same handle.
pub open spec fn distinct_timer_fds(s: Seq<TimerEntry>) -> bool {
    forall|i: int, j: int|
        0 <= i < j < s.len() ==> (#[trigger] s[i]).fd != (#[trigger] s[j]).fd
}

/// The readiness selector: the descriptor registry and the timer queue.
pub struct Selector {
    registry: Vec<EventData>,
    timers: TimerQueue,
}

impl Selector {
    /// The registered descriptors, in registration order.
    pub closed spec fn regs(&self) -> Seq<EventData> {
        self.registry@
    }

    /// The pending timeouts, earliest expiry first.
    pub closed spec fn timer_view(&self) -> Seq<TimerEntry> {
        self.timers@
    }

    /// Whether a descriptor with the given handle is registered.
    pub open spec fn fd_registered(&self, fd: u64) -> bool {
        exists|k: int| 0 <= k < self.regs().len() && (#[trigger] self.regs()[k]).fd == fd
    }

    /// Whether some registered descriptor references the given coroutine.
    pub open spec fn co_registered(&self, co: usize) -> bool {
        exists|k: int| 0 <= k < self.regs().len() && (#[trigger] self.regs()[k]).co == co
    }

    /// Whether the handle has a pending timeout with the given deadline.
    pub open spec fn timer_has(&self, fd: u64, deadline: u64) -> bool {
        exists|j: int|
            0 <= j < self.timer_view().len() && #[trigger] self.timer_view()[j] == (TimerEntry {
                deadline,
                fd,
            })
    }

    /// Whether the handle has a pending timeout at all.
    pub open spec fn timer_has_fd(&self, fd: u64) -> bool {
        exists|j: int|
            0 <= j < self.timer_view().len() && (#[trigger] self.timer_view()[j]).fd == fd
    }

    /// Well-formedness: handles and coroutines are unique across the
    /// registry, the timer queue is expiry-ordered, each handle has at most
    /// one timeout, and every timeout belongs to a registered descriptor —
    /// a descriptor and its timer entry are only ever added and removed
    /// together.
    pub open spec fn wf(&self) -> bool {
        &&& distinct_fds(self.regs())
        &&& distinct_cos(self.regs())
        &&& sorted_by_deadline(self.timer_view())
        &&& distinct_timer_fds(self.timer_view())
        &&& forall|j: int|
            0 <= j < self.timer_view().len() ==> self.fd_registered(
                (#[trigger] self.timer_view()[j]).fd,
            )
    }

    /// Creates an empty selector.
    pub fn new() -> (s: Selector)
        ensures
            s.wf(),
            s.regs() == Seq::<EventData>::empty(),
            s.timer_view() == Seq::<TimerEntry>::empty(),
    {
        Selector { registry: Vec::new(), timers: TimerQueue::new() }
    }

    /// Registers interest for a handle on behalf of a suspended coroutine,
    /// together with its timeout, if one was requested.
    pub fn add_io(&mut self, co: usize, fd: u64, interest: Interest, deadline: Option<u64>)
        requires
            old(self).wf(),
            !old(self).fd_registered(fd),
            !old(self).co_registered(co),
        ensures
            final(self).wf(),
            final(self).regs() == old(self).regs().push(EventData { fd, co, interest }),
            match deadline {
                Option::None => final(self).timer_view() == old(self).timer_view(),
                Option::Some(d) => final(self).timer_has(fd, d) && exists|i: int|
                    0 <= i <= old(self).timer_view().len() && final(self).timer_view()
                        == #[trigger] old(self).timer_view().insert(i, TimerEntry { deadline: d, fd }),
            },
    {
        let ghost regs0 = self.registry@;
        let ghost tv0 = self.timers@;
        self.registry.push(EventData { fd, co, interest });
        proof {
            assert forall|j: int| 0 <= j < regs0.len() implies self.registry@[j] == regs0[j] by {}
        }
        match deadline {
            Option::None => {
                proof {
                    assert forall|j: int|
                        0 <= j < self.timer_view().len() implies self.fd_registered(
                            (#[trigger] self.timer_view()[j]).fd,
                        ) by {
                        let k = choose|k: int|
                            0 <= k < regs0.len() && (#[trigger] regs0[k]).fd == tv0[j].fd;
                        assert(self.regs()[k].fd == tv0[j].fd);
                    }
                }
            }
            Option::Some(d) => {
                self.timers.insert(d, fd);
                proof {
                    let i = choose|i: int|
                        0 <= i <= tv0.len() && self.timers@ == #[trigger] tv0.insert(
                            i,
                            TimerEntry { deadline: d, fd },
                        );
                    tv0.insert_ensures(i, TimerEntry { deadline: d, fd });
                    assert(self.timer_view()[i] == (TimerEntry { deadline: d, fd }));
                    assert(self.timer_has(fd, d));
                    // the new handle had no timeout: its descriptor was not
                    // registered, and every timeout's handle is
                    assert forall|j: int| 0 <= j < tv0.len() implies (#[trigger] tv0[j]).fd
                        != fd by {
                        if tv0[j].fd == fd {
                            assert(old(self).fd_registered(fd));
                        }
                    }
                    assert forall|j1: int, j2: int|
                        0 <= j1 < j2 < self.timer_view().len() implies (
                        #[trigger] self.timer_view()[j1]).fd != (
                        #[trigger] self.timer_view()[j2]).fd by {
                        let a = if j1 < i { tv0[j1] } else if j1 == i { TimerEntry { deadline: d, fd } } else { tv0[j1 - 1] };
                        let b = if j2 < i { tv0[j2] } else if j2 == i { TimerEntry { deadline: d, fd } } else { tv0[j2 - 1] };
                        assert(self.timer_view()[j1] == a);
                        assert(self.timer_view()[j2] == b);
                    }
                    assert forall|j: int|
                        0 <= j < self.timer_view().len() implies self.fd_registered(
                            (#[trigger] self.timer_view()[j]).fd,
                        ) by {
                        let e = self.timer_view()[j];
                        if j == i {
                            assert(self.regs()[regs0.len() as int].fd == fd);
                        } else {
                            let j0 = if j < i { j } else { j - 1 };
                            assert(e == tv0[j0]);
                            let k = choose|k: int|
                                0 <= k < regs0.len() && (#[trigger] regs0[k]).fd == e.fd;
                            assert(self.regs()[k].fd == e.fd);
                        }
                    }
                }
            }
        }
    }
    /// Removes the descriptor at registry index `k`, leaving the timer
    /// queue untouched.
    fn take_desc(&mut self, k: usize) -> (e: EventData)
        requires
            distinct_fds(old(self).regs()),
            distinct_cos(old(self).regs()),
            k < old(self).regs().len(),
        ensures
            e == old(self).regs()[k as int],
            final(self).regs() == old(self).regs().remove(k as int),
            final(self).timer_view() == old(self).timer_view(),
            distinct_fds(final(self).regs()),
            distinct_cos(final(self).regs()),
            !final(self).fd_registered(e.fd),
            !final(self).co_registered(e.co),
    {
        let ghost regs0 = self.registry@;
        let e = self.registry.remove(k);
        proof {
            regs0.remove_ensures(k as int);
            assert forall|p: int, q: int| 0 <= p < q < self.regs().len() implies (
            #[trigger] self.regs()[p]).fd != (#[trigger] self.regs()[q]).fd && (
            #[trigger] self.regs()[p]).co != (#[trigger] self.regs()[q]).co by {
                let p0 = if p < k { p } else { p + 1 };
                let q0 = if q < k { q } else { q + 1 };
                assert(self.regs()[p] == regs0[p0] && self.regs()[q] == regs0[q0]);
            }
            assert forall|p: int| 0 <= p < self.regs().len() implies (#[trigger] self.regs()[p]).fd
                != e.fd && (#[trigger] self.regs()[p]).co != e.co by {
                let p0 = if p < k { p } else { p + 1 };
                assert(self.regs()[p] == regs0[p0] && p0 != k);
            }
        }
        e
    }

    /// Finds the registry index of the descriptor with the given handle.
    fn find_fd(&self, fd: u64) -> (r: Option<usize>)
        ensures
            match r {
                Option::None => !self.fd_registered(fd),
                Option::Some(k) => k < self.regs().len() && self.regs()[k as int].fd == fd,
            },
    {
        let mut k: usize = 0;
        while k < self.registry.len()
            invariant
                0 <= k <= self.regs().len(),
                forall|j: int| 0 <= j < k ==> (#[trigger] self.regs()[j]).fd != fd,
            decreases self.regs().len() - k,
        {
            if self.registry[k].fd == fd {
                return Some(k);
            }
            k = k + 1;
        }
        None
    }

    /// Finds the registry index of the descriptor referencing the given
    /// coroutine.
    fn find_co(&self, co: usize) -> (r: Option<usize>)
        ensures
            match r {
                Option::None => !self.co_registered(co),
                Option::Some(k) => k < self.regs().len() && self.regs()[k as int].co == co,
            },
    {
        let mut k: usize = 0;
        while k < self.registry.len()
            invariant
                0 <= k <= self.regs().len(),
                forall|j: int| 0 <= j < k ==> (#[trigger] self.regs()[j]).co != co,
            decreases self.regs().len() - k,
        {
            if self.registry[k].co == co {
                return Some(k);
            }
            k = k + 1;
        }
        None
    }

    /// Re-establishes the timer/registry coupling after a descriptor for
    /// `fd` and its timer entry (if any) were removed together.
    proof fn lemma_coupling_after_removal(&self, regs0: Seq<EventData>, fd: u64, k: int)
        requires
            distinct_fds(regs0),
            0 <= k < regs0.len(),
            regs0[k].fd == fd,
            self.regs() == regs0.remove(k),
            forall|j: int| 0 <= j < self.timer_view().len() ==> (#[trigger] self.timer_view()[j]).fd != fd,
            forall|j: int|
                0 <= j < self.timer_view().len() ==> exists|p: int|
                    0 <= p < regs0.len() && (#[trigger] regs0[p]).fd == (
                    #[trigger] self.timer_view()[j]).fd,
        ensures
            forall|j: int|
                0 <= j < self.timer_view().len() ==> self.fd_registered(
                    (#[trigger] self.timer_view()[j]).fd,
                ),
    {
        regs0.remove_ensures(k);
        assert forall|j: int| 0 <= j < self.timer_view().len() implies self.fd_registered(
            (#[trigger] self.timer_view()[j]).fd,
        ) by {
            let f = self.timer_view()[j].fd;
            let p = choose|p: int| 0 <= p < regs0.len() && (#[trigger] regs0[p]).fd == f;
            assert(p != k);
            let p1 = if p < k { p } else { p - 1 };
            assert(self.regs()[p1] == regs0[p]);
        }
    }

    /// Deregisters the descriptor with the given handle, together with its
    /// timer entry, and hands it back so its coroutine can be woken.
    /// One-shot semantics rest on this: once removed, the handle cannot
    /// fire again.
    pub fn deregister_fd(&mut self, fd: u64) -> (r: Option<EventData>)
        requires
            old(self).wf(),
        ensures
            final(self).wf(),
            match r {
                Option::None => *final(self) == *old(self) && !old(self).fd_registered(fd),
                Option::Some(e) => e.fd == fd && !final(self).fd_registered(fd)
                    && !final(self).co_registered(e.co) && !final(self).timer_has_fd(fd) && (exists|
                    k: int,
                |
                    0 <= k < old(self).regs().len() && e == old(self).regs()[k]
                        && final(self).regs() == #[trigger] old(self).regs().remove(k)) && ((exists|
                    i: int,
                |
                    0 <= i < old(self).timer_view().len() && old(self).timer_view()[i].fd == fd
                        && final(self).timer_view() == #[trigger] old(self).timer_view().remove(i))
                    || final(self).timer_view() == old(self).timer_view()),
            },
    {
        match self.find_fd(fd) {
            Option::None => None,
            Option::Some(k) => {
                let ghost regs0 = self.regs();
                let ghost tv0 = self.timer_view();
                let e = self.take_desc(k);
                self.timers.remove_fd(fd);
                proof {
                    self.timer_removal_facts(tv0, fd, old(self).timer_has_fd(fd));
                    self.lemma_coupling_after_removal(regs0, fd, k as int);
                }
                Some(e)
            }
        }
    }

    /// Deregisters the descriptor referencing the given coroutine, together
    /// with its timer entry: the cancellation path, which must force a
    /// wakeup without leaving a stale registration behind.
    pub fn deregister_co(&mut self, co: usize) -> (r: Option<EventData>)
        requires
            old(self).wf(),
        ensures
            final(self).wf(),
            match r {
                Option::None => *final(self) == *old(self) && !old(self).co_registered(co),
                Option::Some(e) => e.co == co && !final(self).fd_registered(e.fd)
                    && !final(self).co_registered(co) && !final(self).timer_has_fd(e.fd) && (exists|
                    k: int,
                |
                    0 <= k < old(self).regs().len() && e == old(self).regs()[k]
                        && final(self).regs() == #[trigger] old(self).regs().remove(k)) && ((exists|
                    i: int,
                |
                    0 <= i < old(self).timer_view().len() && old(self).timer_view()[i].fd == e.fd
                        && final(self).timer_view() == #[trigger] old(self).timer_view().remove(i))
                    || final(self).timer_view() == old(self).timer_view()),
            },
    {
        match self.find_co(co) {
            Option::None => None,
            Option::Some(k) => {
                let ghost regs0 = self.regs();
                let ghost tv0 = self.timer_view();
                let e = self.take_desc(k);
                self.timers.remove_fd(e.fd);
                proof {
                    self.timer_removal_facts(tv0, e.fd, old(self).timer_has_fd(e.fd));
                    self.lemma_coupling_after_removal(regs0, e.fd, k as int);
                }
                Some(e)
            }
        }
    }

    /// After `remove_fd`, no entry for `fd` remains and the others keep
    /// their order and distinctness.
    proof fn timer_removal_facts(&self, tv0: Seq<TimerEntry>, fd: u64, had: bool)
        requires
            sorted_by_deadline(tv0),
            distinct_timer_fds(tv0),
            had == exists|i: int| 0 <= i < tv0.len() && (#[trigger] tv0[i]).fd == fd,
            had ==> exists|i: int|
                0 <= i < tv0.len() && tv0[i].fd == fd && self.timer_view() == #[trigger] tv0.remove(
                    i,
                ),
            !had ==> self.timer_view() == tv0,
        ensures
            distinct_timer_fds(self.timer_view()),
            forall|j: int| 0 <= j < self.timer_view().len() ==> (#[trigger] self.timer_view()[j]).fd != fd,
            forall|j: int|
                0 <= j < self.timer_view().len() ==> tv0.contains(#[trigger] self.timer_view()[j]),
    {
        let ghost i0: int = if had {
            choose|i: int|
                0 <= i < tv0.len() && tv0[i].fd == fd && self.timer_view() == #[trigger] tv0.remove(
                    i,
                )
        } else {
            0
        };
        if had {
            tv0.remove_ensures(i0);
        }
        assert forall|p: int, q: int| 0 <= p < q < self.timer_view().len() implies (
        #[trigger] self.timer_view()[p]).fd != (#[trigger] self.timer_view()[q]).fd by {
            if had {
                let p0 = if p < i0 { p } else { p + 1 };
                let q0 = if q < i0 { q } else { q + 1 };
                assert(self.timer_view()[p] == tv0[p0] && self.timer_view()[q] == tv0[q0]);
            } else {
                assert(self.timer_view()[p] == tv0[p] && self.timer_view()[q] == tv0[q]);
            }
        }
        assert forall|j: int|
            0 <= j < self.timer_view().len() implies (#[trigger] self.timer_view()[j]).fd != fd by {
            if had {
                let j0 = if j < i0 { j } else { j + 1 };
                assert(self.timer_view()[j] == tv0[j0] && j0 != i0);
            } else {
                assert(self.timer_view()[j] == tv0[j]);
            }
        }
        assert forall|j: int|
            0 <= j < self.timer_view().len() implies tv0.contains(
            #[trigger] self.timer_view()[j]) by {
            let j0: int = if had && j >= i0 { j + 1 } else { j };
            assert(0 <= j0 < tv0.len() && self.timer_view()[j] == tv0[j0]);
        }
    }

    /// The earliest pending deadline, folded into the backend's blocking
    /// wait so one wait serves both I/O and timeouts.
    pub fn next_deadline(&self) -> (r: Option<u64>)
        requires
            self.wf(),
        ensures
            match r {
                Option::None => self.timer_view().len() == 0,
                Option::Some(d) => self.timer_view().len() > 0 && d == self.timer_view()[0].deadline
                    && forall|i: int|
                    0 <= i < self.timer_view().len() ==> d <= (
                    #[trigger] self.timer_view()[i]).deadline,
            },
    {
        self.timers.next_deadline()
    }

    /// Fires the timeout with the earliest expired deadline, if any: its
    /// descriptor and timer entry are removed together and the descriptor
    /// is handed back, with its deadline, so the coroutine can be woken
    /// with `TimedOut`.  A timeout never fires before its deadline, and
    /// fires at the first wait whose clock has reached it.
    pub fn pop_expired(&mut self, now: u64) -> (r: Option<(EventData, u64)>)
        requires
            old(self).wf(),
        ensures
            final(self).wf(),
            match r {
                Option::None => final(self).regs() == old(self).regs() && final(self).timer_view()
                    == old(self).timer_view() && forall|j: int|
                    0 <= j < old(self).timer_view().len() ==> (
                    #[trigger] old(self).timer_view()[j]).deadline > now,
                Option::Some((e, d)) => {
                    &&& old(self).timer_view().len() > 0
                    &&& old(self).timer_view()[0] == (TimerEntry { deadline: d, fd: e.fd })
                    &&& d <= now
                    &&& final(self).timer_view() == old(self).timer_view().drop_first()
                    &&& !final(self).fd_registered(e.fd)
                    &&& !final(self).co_registered(e.co)
                    &&& exists|k: int|
                        0 <= k < old(self).regs().len() && e == old(self).regs()[k]
                            && final(self).regs() == #[trigger] old(self).regs().remove(k)
                },
            },
    {
        let ghost tv0 = self.timer_view();
        let ghost regs0 = self.regs();
        let expired = self.timers.pop_expired(now);
        match expired {
            Option::None => None,
            Option::Some(entry) => {
                proof {
                    assert(tv0[0] == entry);
                    assert(old(self).fd_registered(entry.fd));
                }
                let found = self.find_fd(entry.fd);
                let k = match found {
                    Option::Some(k) => k,
                    Option::None => {
                        proof {
                            assert(false);
                        }
                        0
                    }
                };
                let e = self.take_desc(k);
                proof {
                    assert(self.timer_view() == tv0.drop_first());
                    assert forall|p: int, q: int|
                        0 <= p < q < self.timer_view().len() implies (
                    #[trigger] self.timer_view()[p]).fd != (#[trigger] self.timer_view()[q]).fd by {
                        assert(self.timer_view()[p] == tv0[p + 1]);
                        assert(self.timer_view()[q] == tv0[q + 1]);
                    }
                    assert forall|j: int|
                        0 <= j < self.timer_view().len() implies (#[trigger] self.timer_view()[j]).fd
                        != entry.fd by {
                        assert(self.timer_view()[j] == tv0[j + 1]);
                    }
                    assert forall|j: int|
                        0 <= j < self.timer_view().len() implies exists|p: int|
                        0 <= p < regs0.len() && (#[trigger] regs0[p]).fd == (
                        #[trigger] self.timer_view()[j]).fd by {
                        let f = self.timer_view()[j].fd;
                        assert(self.timer_view()[j] == tv0[j + 1]);
                        assert(old(self).fd_registered(f));
                        let p = choose|p: int|
                            0 <= p < regs0.len() && (#[trigger] regs0[p]).fd == f;
                        assert(regs0[p].fd == f);
                    }
                    self.lemma_coupling_after_removal(regs0, entry.fd, k as int);
                }
                Some((e, entry.deadline))
            }
        }
    }

    /// The number of registered descriptors.
    pub fn len(&self) -> (n: usize)
        ensures
            n == self.regs().len(),
    {
        self.registry.len()
    }
}

} // verus!

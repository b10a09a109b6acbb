//! The scheduler: coroutine lifecycle, the cross-thread ready queue, the
//! selector backend and the cancellation protocol, tied together.
//!
//! A worker loop pops a ready coroutine, runs it until it finishes or
//! suspends, lets the suspension's event source register with the backend,
//! and re-enqueues the coroutines whose descriptors fired.  The context
//! switching and the OS wait happen outside; every decision — who runs
//! next, who is registered, who is woken with which result — is made here.

use vstd::prelude::*;

use crate::errors::ErrorKind;
use crate::queue::ReadyQueue;
use crate::selector::{EventData, Interest, Selector};
use crate::timer::TimerEntry;

verus! {

/// The lifecycle of a coroutine.
#[derive(Clone, Copy, Debug, PartialEq, Eq, Structural)]
pub enum CoState {
    /// Queued, eligible for a worker.
    Ready,
    /// Executing on a worker.
    Running,
    /// Registered with a backend, awaiting an event or cancellation.
    Suspended,
    /// The body returned or failed terminally; the handle is dead.
    Finished,
}

/// The allowed lifecycle transitions: `Ready → Running → Suspended →
/// Ready` around each blocking call, `Running → Ready` when a subscribe
/// attempt is refused and turns into an immediate wakeup, `Running →
/// Finished` on return, and `Ready → Finished` when resuming fails
/// terminally before the body can run.
pub open spec fn transition_ok(a: CoState, b: CoState) -> bool {
    ||| a == b
    ||| (a is Ready && b is Running)
    ||| (a is Running && b is Suspended)
    ||| (a is Running && b is Ready)
    ||| (a is Suspended && b is Ready)
    ||| (a is Running && b is Finished)
    ||| (a is Ready && b is Finished)
}

/// A coroutine as the scheduler tracks it.
#[derive(Clone, Copy, Debug)]
pub struct Coroutine {
    /// Where in the lifecycle the coroutine stands.
    pub state: CoState,
    /// The cancellation token's flag: set once, monotonically true.
    pub canceled: bool,
    /// The result the next `co_io_result` check will observe — `None` for
    /// a natural wakeup, an error for timeout, cancellation or a refused
    /// registration; for a `Finished` coroutine, its terminal error.
    pub wake: Option<ErrorKind>,
}

/// The scheduler's whole state: the coroutine table (a coroutine's
/// identifier is its index), the ready queue, the selector backend and the
/// shutdown flag.
pub struct Scheduler {
    /// Every coroutine ever spawned, indexed by identifier.
    pub cos: Vec<Coroutine>,
    /// Runnable coroutines, first-in first-out.
    pub ready: ReadyQueue,
    /// The readiness backend: descriptor registry plus timer subsystem.
    pub selector: Selector,
    /// Set at teardown: spawning afterwards is refused.
    pub shutdown: bool,
    /// The worker pool size, configured before any coroutine runs.
    pub workers: usize,
}

impl Scheduler {
    /// Well-formedness: the selector is sound, every queued identifier
    /// names a `Ready` coroutine and is queued only once, and every
    /// registered descriptor names a `Suspended` coroutine — so a
    /// coroutine is never both queued and registered, and at most one live
    /// descriptor references it.
    pub open spec fn wf(&self) -> bool {
        &&& self.selector.wf()
        &&& forall|i: int|
            0 <= i < self.ready@.len() ==> (#[trigger] self.ready@[i]) < self.cos@.len()
                && self.cos@[self.ready@[i] as int].state is Ready
        &&& forall|i: int, j: int|
            0 <= i < j < self.ready@.len() ==> self.ready@[i] != self.ready@[j]
        &&& forall|k: int|
            0 <= k < self.selector.regs().len() ==> (#[trigger] self.selector.regs()[k]).co
                < self.cos@.len() && self.cos@[self.selector.regs()[k].co as int].state
                is Suspended
    }

    /// Creates a scheduler with the given worker pool size, no coroutines,
    /// an empty ready queue and an empty backend.
    pub fn new(workers: usize) -> (s: Scheduler)
        ensures
            s.wf(),
            s.cos@.len() == 0,
            s.ready@.len() == 0,
            s.selector.regs().len() == 0,
            s.selector.timer_view().len() == 0,
            !s.shutdown,
            s.workers == workers,
    {
        Scheduler {
            cos: Vec::new(),
            ready: ReadyQueue::new(),
            selector: Selector::new(),
            shutdown: false,
            workers,
        }
    }

    /// Configures the worker pool size.  Must happen before any coroutine
    /// is spawned; changing it afterwards is undefined, so the contract
    /// refuses it.
    pub fn set_worker_count(&mut self, n: usize)
        requires
            old(self).cos@.len() == 0,
        ensures
            final(self).workers == n,
            final(self).cos@ == old(self).cos@,
            final(self).ready@ == old(self).ready@,
            final(self).selector == old(self).selector,
            final(self).shutdown == old(self).shutdown,
    {
        self.workers = n;
    }

    /// Marks the scheduler as torn down: every later spawn is refused.
    pub fn begin_shutdown(&mut self)
        ensures
            final(self).shutdown,
            final(self).cos@ == old(self).cos@,
            final(self).ready@ == old(self).ready@,
            final(self).selector == old(self).selector,
            final(self).workers == old(self).workers,
    {
        self.shutdown = true;
    }

    /// Creates a new coroutine in `Ready` state and enqueues it, returning
    /// its handle.  After shutdown this fails with `ShutdownError` and
    /// changes nothing: no entry is leaked into the queue or the table.
    pub fn spawn(&mut self) -> (r: Result<usize, ErrorKind>)
        requires
            old(self).wf(),
            old(self).cos@.len() < usize::MAX,
        ensures
            final(self).wf(),
            old(self).shutdown ==> r == Err::<usize, ErrorKind>(ErrorKind::ShutdownError)
                && *final(self) == *old(self),
            !old(self).shutdown ==> {
                &&& r == Ok::<usize, ErrorKind>(old(self).cos@.len() as usize)
                &&& final(self).cos@ == old(self).cos@.push(
                    Coroutine { state: CoState::Ready, canceled: false, wake: None },
                )
                &&& final(self).ready@ == old(self).ready@.push(old(self).cos@.len() as usize)
                &&& final(self).selector == old(self).selector
                &&& final(self).shutdown == old(self).shutdown
                &&& final(self).workers == old(self).workers
            },
    {
        if self.shutdown {
            return Err(ErrorKind::ShutdownError);
        }
        let id: usize = self.cos.len();
        self.cos.push(Coroutine { state: CoState::Ready, canceled: false, wake: None });
        self.ready.push(id);
        proof {
            assert forall|i: int|
                0 <= i < self.ready@.len() implies (#[trigger] self.ready@[i]) < self.cos@.len()
                && self.cos@[self.ready@[i] as int].state is Ready by {
                if i < old(self).ready@.len() {
                    assert(self.ready@[i] == old(self).ready@[i]);
                    assert(self.cos@[self.ready@[i] as int] == old(self).cos@[self.ready@[i] as int]);
                }
            }
            assert forall|i: int, j: int|
                0 <= i < j < self.ready@.len() implies self.ready@[i] != self.ready@[j] by {
                if j < old(self).ready@.len() {
                } else {
                    assert(self.ready@[j] == id);
                    assert(old(self).cos@[self.ready@[i] as int].state is Ready);
                }
            }
            assert forall|k: int|
                0 <= k < self.selector.regs().len() implies (
            #[trigger] self.selector.regs()[k]).co < self.cos@.len()
                && self.cos@[self.selector.regs()[k].co as int].state is Suspended by {
                assert(self.cos@[self.selector.regs()[k].co as int] == old(self).cos@[self.selector.regs()[k].co as int]);
            }
        }
        Ok(id)
    }

    /// Marks the running coroutine as terminated; its handle is dead from
    /// here on.  The terminal error, if any, is recorded in its slot.
    pub fn finish(&mut self, co: usize, fail: Option<ErrorKind>)
        requires
            old(self).wf(),
            co < old(self).cos@.len(),
            old(self).cos@[co as int].state is Running,
        ensures
            final(self).wf(),
            final(self).cos@ == old(self).cos@.update(
                co as int,
                Coroutine {
                    state: CoState::Finished,
                    canceled: old(self).cos@[co as int].canceled,
                    wake: fail,
                },
            ),
            final(self).ready@ == old(self).ready@,
            final(self).selector == old(self).selector,
            final(self).shutdown == old(self).shutdown,
            final(self).workers == old(self).workers,
            transition_ok(old(self).cos@[co as int].state, final(self).cos@[co as int].state),
    {
        let c = self.cos[co];
        self.cos[co] = Coroutine { state: CoState::Finished, canceled: c.canceled, wake: fail };
        proof {
            self.lemma_wf_after_state_change(*old(self), co);
        }
    }

    /// A coroutine whose slot alone changed, away from `Ready` and
    /// `Suspended` or towards `Running` or `Finished`, disturbs no queue
    /// or registry invariant, because neither structure may reference it
    /// afterwards unless it referenced it before with the same state
    /// class.
    proof fn lemma_wf_after_state_change(&self, s0: Scheduler, co: usize)
        requires
            s0.wf(),
            co < s0.cos@.len(),
            self.cos@.len() == s0.cos@.len(),
            forall|c: int| 0 <= c < s0.cos@.len() && c != co ==> self.cos@[c] == s0.cos@[c],
            self.ready@ == s0.ready@,
            self.selector == s0.selector,
            s0.cos@[co as int].state is Ready ==> self.cos@[co as int].state is Ready || (forall|
                i: int,
            | 0 <= i < s0.ready@.len() ==> (#[trigger] s0.ready@[i]) != co),
            s0.cos@[co as int].state is Suspended ==> self.cos@[co as int].state is Suspended || (
            forall|k: int| 0 <= k < s0.selector.regs().len() ==> (#[trigger] s0.selector.regs()[k]).co != co),
        ensures
            self.wf(),
    {
        assert forall|i: int|
            0 <= i < self.ready@.len() implies (#[trigger] self.ready@[i]) < self.cos@.len()
            && self.cos@[self.ready@[i] as int].state is Ready by {
            if self.ready@[i] != co {
                assert(self.cos@[self.ready@[i] as int] == s0.cos@[self.ready@[i] as int]);
            } else {
                assert(s0.cos@[co as int].state is Ready);
                assert(self.cos@[co as int].state is Ready);
            }
        }
        assert forall|k: int|
            0 <= k < self.selector.regs().len() implies (#[trigger] self.selector.regs()[k]).co
            < self.cos@.len() && self.cos@[self.selector.regs()[k].co as int].state
            is Suspended by {
            if self.selector.regs()[k].co != co {
                assert(self.cos@[self.selector.regs()[k].co as int]
                    == s0.cos@[self.selector.regs()[k].co as int]);
            } else {
                assert(s0.cos@[co as int].state is Suspended);
                assert(self.cos@[co as int].state is Suspended);
            }
        }
    }

    /// Reads and clears the wake result of the coroutine that just
    /// resumed: the check every event source's completion step makes
    /// first.  `Ok` means the backend reported the operation may proceed;
    /// an error is the timeout, cancellation or registration failure that
    /// forced the wakeup.
    pub fn co_io_result(&mut self, co: usize) -> (r: Result<(), ErrorKind>)
        requires
            old(self).wf(),
            co < old(self).cos@.len(),
            old(self).cos@[co as int].state is Running,
        ensures
            final(self).wf(),
            r == match old(self).cos@[co as int].wake {
                Option::Some(e) => Err::<(), ErrorKind>(e),
                Option::None => Ok::<(), ErrorKind>(()),
            },
            final(self).cos@ == old(self).cos@.update(
                co as int,
                Coroutine {
                    state: old(self).cos@[co as int].state,
                    canceled: old(self).cos@[co as int].canceled,
                    wake: None,
                },
            ),
            final(self).ready@ == old(self).ready@,
            final(self).selector == old(self).selector,
            final(self).shutdown == old(self).shutdown,
            final(self).workers == old(self).workers,
            transition_ok(old(self).cos@[co as int].state, final(self).cos@[co as int].state),
    {
        let c = self.cos[co];
        self.cos[co] = Coroutine { state: c.state, canceled: c.canceled, wake: None };
        proof {
            self.lemma_wf_after_state_change(*old(self), co);
        }
        match c.wake {
            Option::Some(e) => Err(e),
            Option::None => Ok(()),
        }
    }

    /// Pops the coroutine that has waited longest and hands it to the
    /// worker as `Running` — unless its stack cannot be set up, in which
    /// case it transitions directly to `Finished` carrying
    /// `AllocationError`.  Returns nothing when no coroutine is runnable.
    pub fn resume_next(&mut self, alloc_ok: bool) -> (r: Option<(usize, Result<(), ErrorKind>)>)
        requires
            old(self).wf(),
        ensures
            final(self).wf(),
            match r {
                Option::None => old(self).ready@.len() == 0 && final(self).ready@ == old(self).ready@ && final(self).cos@ == old(self).cos@ && final(self).selector == old(self).selector && final(self).shutdown == old(self).shutdown && final(self).workers
                    == old(self).workers,
                Option::Some((co, st)) => {
                    &&& old(self).ready@.len() > 0
                    &&& co == old(self).ready@[0]
                    &&& co < old(self).cos@.len()
                    &&& final(self).ready@ == old(self).ready@.drop_first()
                    &&& alloc_ok ==> st == Ok::<(), ErrorKind>(()) && final(self).cos@ == old(self).cos@.update(
                        co as int,
                        Coroutine {
                            state: CoState::Running,
                            canceled: old(self).cos@[co as int].canceled,
                            wake: old(self).cos@[co as int].wake,
                        },
                    )
                    &&& !alloc_ok ==> st == Err::<(), ErrorKind>(ErrorKind::AllocationError)
                        && final(self).cos@ == old(self).cos@.update(
                        co as int,
                        Coroutine {
                            state: CoState::Finished,
                            canceled: old(self).cos@[co as int].canceled,
                            wake: Some(ErrorKind::AllocationError),
                        },
                    )
                    &&& final(self).selector == old(self).selector
                    &&& final(self).shutdown == old(self).shutdown
                    &&& final(self).workers == old(self).workers
                    &&& transition_ok(
                        old(self).cos@[co as int].state,
                        final(self).cos@[co as int].state,
                    )
                },
            },
    {
        let popped = self.ready.pop();
        match popped {
            Option::None => None,
            Option::Some(co) => {
                proof {
                    assert(old(self).ready@[0] == co);
                    assert(old(self).cos@[co as int].state is Ready);
                }
                let c = self.cos[co];
                let st = if alloc_ok {
                    self.cos[co] = Coroutine {
                        state: CoState::Running,
                        canceled: c.canceled,
                        wake: c.wake,
                    };
                    Ok(())
                } else {
                    self.cos[co] = Coroutine {
                        state: CoState::Finished,
                        canceled: c.canceled,
                        wake: Some(ErrorKind::AllocationError),
                    };
                    Err(ErrorKind::AllocationError)
                };
                proof {
                    let mid = Scheduler {
                        cos: old(self).cos,
                        ready: self.ready,
                        selector: self.selector,
                        shutdown: self.shutdown,
                        workers: self.workers,
                    };
                    assert forall|i: int|
                        0 <= i < mid.ready@.len() implies (#[trigger] mid.ready@[i])
                        < mid.cos@.len() && mid.cos@[mid.ready@[i] as int].state is Ready by {
                        assert(mid.ready@[i] == old(self).ready@[i + 1]);
                    }
                    assert forall|i: int, j: int|
                        0 <= i < j < mid.ready@.len() implies mid.ready@[i] != mid.ready@[j] by {
                        assert(mid.ready@[i] == old(self).ready@[i + 1]);
                        assert(mid.ready@[j] == old(self).ready@[j + 1]);
                    }
                    assert(mid.wf());
                    // the popped coroutine is no longer queued, so its slot
                    // may change state class freely
                    assert forall|i: int| 0 <= i < self.ready@.len() implies self.ready@[i]
                        != co by {
                        assert(self.ready@[i] == old(self).ready@[i + 1]);
                    }
                    self.lemma_wf_after_state_change(mid, co);
                }
                Some((co, st))
            }
        }
    }

    /// Tears down after a fatal, non-recoverable condition in the owning
    /// worker — a stack pool exhausted, the OS notification primitive
    /// failing: every coroutine not already finished transitions to
    /// `Finished` carrying the error, the queue and both backend
    /// registries are emptied, and later spawns are refused, so the
    /// failure cannot corrupt a later pass.
    pub fn abort_all(&mut self, fail: ErrorKind)
        requires
            old(self).wf(),
        ensures
            final(self).wf(),
            final(self).cos@.len() == old(self).cos@.len(),
            forall|c: int|
                0 <= c < old(self).cos@.len() ==> (#[trigger] final(self).cos@[c]).state
                    is Finished,
            forall|c: int|
                0 <= c < old(self).cos@.len() && old(self).cos@[c].state is Finished ==> final(self).cos@[c] == old(self).cos@[c],
            forall|c: int|
                0 <= c < old(self).cos@.len() && !(old(self).cos@[c].state is Finished) ==> (
                #[trigger] final(self).cos@[c]).wake == Some(fail) && final(self).cos@[c].canceled
                    == old(self).cos@[c].canceled,
            final(self).ready@.len() == 0,
            final(self).selector.regs().len() == 0,
            final(self).selector.timer_view().len() == 0,
            final(self).shutdown,
            final(self).workers == old(self).workers,
    {
        let n = self.cos.len();
        let mut c: usize = 0;
        while c < n
            invariant
                0 <= c <= n,
                n == self.cos@.len(),
                n == old(self).cos@.len(),
                forall|j: int|
                    0 <= j < c ==> (#[trigger] self.cos@[j]).state is Finished,
                forall|j: int|
                    0 <= j < c && old(self).cos@[j].state is Finished ==> self.cos@[j] == old(self).cos@[j],
                forall|j: int|
                    0 <= j < c && !(old(self).cos@[j].state is Finished) ==> (
                    #[trigger] self.cos@[j]).wake == Some(fail) && self.cos@[j].canceled == old(self).cos@[j].canceled,
                forall|j: int| c <= j < n ==> self.cos@[j] == old(self).cos@[j],
                self.workers == old(self).workers,
            decreases n - c,
        {
            let cur = self.cos[c];
            match cur.state {
                CoState::Finished => {}
                _ => {
                    self.cos[c] = Coroutine {
                        state: CoState::Finished,
                        canceled: cur.canceled,
                        wake: Some(fail),
                    };
                }
            }
            c = c + 1;
        }
        self.ready = ReadyQueue::new();
        self.selector = Selector::new();
        self.shutdown = true;
    }

    /// Re-establishes well-formedness after a wakeup: the descriptor at
    /// registry index `k` was removed, its coroutine turned `Ready` and
    /// enqueued.
    proof fn lemma_wf_after_wake(&self, s0: Scheduler, co: usize, k: int)
        requires
            s0.wf(),
            0 <= k < s0.selector.regs().len(),
            s0.selector.regs()[k].co == co,
            self.selector.wf(),
            self.selector.regs() == s0.selector.regs().remove(k),
            self.cos@.len() == s0.cos@.len(),
            forall|c: int| 0 <= c < s0.cos@.len() && c != co ==> self.cos@[c] == s0.cos@[c],
            co < self.cos@.len() && self.cos@[co as int].state is Ready,
            self.ready@ == s0.ready@.push(co),
        ensures
            self.wf(),
    {
        assert(s0.cos@[co as int].state is Suspended);
        assert forall|i: int| 0 <= i < s0.ready@.len() implies (#[trigger] s0.ready@[i]) != co by {
            if s0.ready@[i] == co {
                assert(s0.cos@[co as int].state is Ready);
            }
        }
        assert forall|i: int|
            0 <= i < self.ready@.len() implies (#[trigger] self.ready@[i]) < self.cos@.len()
            && self.cos@[self.ready@[i] as int].state is Ready by {
            if i < s0.ready@.len() {
                assert(self.ready@[i] == s0.ready@[i]);
                assert(self.ready@[i] != co);
                assert(self.cos@[self.ready@[i] as int] == s0.cos@[self.ready@[i] as int]);
            } else {
                assert(self.ready@[i] == co);
            }
        }
        assert forall|i: int, j: int|
            0 <= i < j < self.ready@.len() implies self.ready@[i] != self.ready@[j] by {
            if j < s0.ready@.len() {
                assert(self.ready@[i] == s0.ready@[i] && self.ready@[j] == s0.ready@[j]);
            } else {
                assert(self.ready@[j] == co && self.ready@[i] == s0.ready@[i]);
            }
        }
        s0.selector.regs().remove_ensures(k);
        assert forall|p: int|
            0 <= p < self.selector.regs().len() implies (#[trigger] self.selector.regs()[p]).co
            < self.cos@.len() && self.cos@[self.selector.regs()[p].co as int].state
            is Suspended by {
            let p0 = if p < k { p } else { p + 1 };
            assert(self.selector.regs()[p] == s0.selector.regs()[p0]);
            let c2 = s0.selector.regs()[p0].co;
            assert(c2 != co);
            assert(self.cos@[c2 as int] == s0.cos@[c2 as int]);
        }
    }

    /// Registers the just-suspended coroutine's event descriptor with the
    /// backend, inserting a timer entry when a timeout was requested, and
    /// moves the coroutine to `Suspended` — unless its cancellation token
    /// was already set: then nothing is registered with the backend and
    /// the coroutine is re-enqueued at once carrying `Cancelled`, so the
    /// failure is an immediate wakeup, never a silent drop.
    pub fn subscribe_io(
        &mut self,
        co: usize,
        fd: u64,
        interest: Interest,
        timeout: Option<u64>,
        now: u64,
    ) -> (r: Result<(), ErrorKind>)
        requires
            old(self).wf(),
            co < old(self).cos@.len(),
            old(self).cos@[co as int].state is Running,
            !old(self).selector.fd_registered(fd),
        ensures
            final(self).wf(),
            final(self).shutdown == old(self).shutdown,
            final(self).workers == old(self).workers,
            old(self).shutdown ==> {
                &&& r == Err::<(), ErrorKind>(ErrorKind::ShutdownError)
                &&& final(self).selector == old(self).selector
                &&& final(self).cos@ == old(self).cos@.update(
                    co as int,
                    Coroutine {
                        state: CoState::Ready,
                        canceled: old(self).cos@[co as int].canceled,
                        wake: Some(ErrorKind::ShutdownError),
                    },
                )
                &&& final(self).ready@ == old(self).ready@.push(co)
            },
            !old(self).shutdown && old(self).cos@[co as int].canceled ==> {
                &&& r == Err::<(), ErrorKind>(ErrorKind::Cancelled)
                &&& final(self).selector == old(self).selector
                &&& final(self).cos@ == old(self).cos@.update(
                    co as int,
                    Coroutine {
                        state: CoState::Ready,
                        canceled: true,
                        wake: Some(ErrorKind::Cancelled),
                    },
                )
                &&& final(self).ready@ == old(self).ready@.push(co)
            },
            !old(self).shutdown && !old(self).cos@[co as int].canceled ==> {
                &&& r == Ok::<(), ErrorKind>(())
                &&& final(self).cos@ == old(self).cos@.update(
                    co as int,
                    Coroutine {
                        state: CoState::Suspended,
                        canceled: false,
                        wake: old(self).cos@[co as int].wake,
                    },
                )
                &&& final(self).ready@ == old(self).ready@
                &&& final(self).selector.regs() == old(self).selector.regs().push(
                    EventData { fd, co, interest },
                )
                &&& match timeout {
                    Option::None => final(self).selector.timer_view() == old(self).selector.timer_view(),
                    Option::Some(t) => final(self).selector.timer_has(fd, deadline_after(now, t))
                        && exists|i: int|
                        0 <= i <= old(self).selector.timer_view().len() && final(self).selector.timer_view() == #[trigger] old(self).selector.timer_view().insert(
                            i,
                            TimerEntry { deadline: deadline_after(now, t), fd },
                        ),
                }
            },
            transition_ok(old(self).cos@[co as int].state, final(self).cos@[co as int].state),
    {
        let c = self.cos[co];
        if self.shutdown || c.canceled {
            // teardown and cancellation both refuse the registration and
            // turn it into an immediate wakeup carrying the error
            let e = if self.shutdown {
                ErrorKind::ShutdownError
            } else {
                ErrorKind::Cancelled
            };
            self.cos[co] = Coroutine { state: CoState::Ready, canceled: c.canceled, wake: Some(e) };
            self.ready.push(co);
            proof {
                assert forall|i: int| 0 <= i < old(self).ready@.len() implies (
                #[trigger] old(self).ready@[i]) != co by {
                    if old(self).ready@[i] == co {
                        assert(old(self).cos@[co as int].state is Ready);
                    }
                }
                assert forall|i: int|
                    0 <= i < self.ready@.len() implies (#[trigger] self.ready@[i])
                    < self.cos@.len() && self.cos@[self.ready@[i] as int].state is Ready by {
                    if i < old(self).ready@.len() {
                        assert(self.ready@[i] == old(self).ready@[i]);
                        assert(self.cos@[self.ready@[i] as int] == old(self).cos@[self.ready@[i] as int]);
                    } else {
                        assert(self.ready@[i] == co);
                    }
                }
                assert forall|i: int, j: int|
                    0 <= i < j < self.ready@.len() implies self.ready@[i] != self.ready@[j] by {
                    if j < old(self).ready@.len() {
                    } else {
                        assert(self.ready@[j] == co && self.ready@[i] == old(self).ready@[i]);
                    }
                }
                assert forall|k: int|
                    0 <= k < self.selector.regs().len() implies (
                #[trigger] self.selector.regs()[k]).co < self.cos@.len()
                    && self.cos@[self.selector.regs()[k].co as int].state is Suspended by {
                    let c2 = self.selector.regs()[k].co;
                    if c2 == co {
                        assert(old(self).cos@[co as int].state is Suspended);
                    }
                    assert(self.cos@[c2 as int] == old(self).cos@[c2 as int]);
                }
            }
            Err(e)
        } else {
            proof {
                if old(self).selector.co_registered(co) {
                    let k = choose|k: int|
                        0 <= k < old(self).selector.regs().len() && (
                        #[trigger] old(self).selector.regs()[k]).co == co;
                    assert(old(self).cos@[co as int].state is Suspended);
                }
            }
            let deadline = match timeout {
                Option::None => None,
                Option::Some(t) => {
                    if t <= u64::MAX - now {
                        Some(now + t)
                    } else {
                        Some(u64::MAX)
                    }
                }
            };
            self.selector.add_io(co, fd, interest, deadline);
            self.cos[co] = Coroutine {
                state: CoState::Suspended,
                canceled: false,
                wake: c.wake,
            };
            proof {
                assert forall|i: int|
                    0 <= i < self.ready@.len() implies (#[trigger] self.ready@[i])
                    < self.cos@.len() && self.cos@[self.ready@[i] as int].state is Ready by {
                    if self.ready@[i] == co {
                        assert(old(self).cos@[co as int].state is Ready);
                    }
                    assert(self.cos@[self.ready@[i] as int] == old(self).cos@[self.ready@[i] as int]);
                }
                assert forall|k: int|
                    0 <= k < self.selector.regs().len() implies (
                #[trigger] self.selector.regs()[k]).co < self.cos@.len()
                    && self.cos@[self.selector.regs()[k].co as int].state is Suspended by {
                    if k < old(self).selector.regs().len() {
                        assert(self.selector.regs()[k] == old(self).selector.regs()[k]);
                        let c2 = self.selector.regs()[k].co;
                        if c2 == co {
                            assert(old(self).cos@[co as int].state is Suspended);
                        }
                        assert(self.cos@[c2 as int] == old(self).cos@[c2 as int]);
                    } else {
                        assert(self.selector.regs()[k].co == co);
                    }
                }
            }
            Ok(())
        }
    }

    /// The cancellation token's `cancel()`: sets the flag — once set it
    /// stays set — and, if the coroutine is suspended with a live
    /// descriptor, deregisters descriptor and timer entry together and
    /// forces a wakeup carrying `Cancelled`.  Natural completion can no
    /// longer fire for it: the registry holds nothing for the coroutine
    /// afterwards.  With no live descriptor only the flag changes, so the
    /// next subscribe attempt fails fast instead.
    pub fn cancel(&mut self, co: usize)
        requires
            old(self).wf(),
            co < old(self).cos@.len(),
        ensures
            final(self).wf(),
            final(self).cos@.len() == old(self).cos@.len(),
            final(self).cos@[co as int].canceled,
            forall|c: int|
                0 <= c < old(self).cos@.len() && c != co ==> final(self).cos@[c] == old(self).cos@[c],
            final(self).shutdown == old(self).shutdown,
            final(self).workers == old(self).workers,
            old(self).selector.co_registered(co) ==> {
                &&& final(self).cos@[co as int].state is Ready
                &&& final(self).cos@[co as int].wake == Some(ErrorKind::Cancelled)
                &&& final(self).ready@ == old(self).ready@.push(co)
                &&& !final(self).selector.co_registered(co)
                &&& exists|k: int|
                    0 <= k < old(self).selector.regs().len() && (
                    #[trigger] old(self).selector.regs()[k]).co == co && final(self).selector.regs()
                        == old(self).selector.regs().remove(k) && !final(self).selector.fd_registered(
                        old(self).selector.regs()[k].fd,
                    ) && !final(self).selector.timer_has_fd(old(self).selector.regs()[k].fd)
            },
            !old(self).selector.co_registered(co) ==> {
                &&& final(self).cos@ == old(self).cos@.update(
                    co as int,
                    Coroutine {
                        state: old(self).cos@[co as int].state,
                        canceled: true,
                        wake: old(self).cos@[co as int].wake,
                    },
                )
                &&& final(self).ready@ == old(self).ready@
                &&& final(self).selector == old(self).selector
            },
            transition_ok(old(self).cos@[co as int].state, final(self).cos@[co as int].state),
    {
        let c = self.cos[co];
        self.cos[co] = Coroutine { state: c.state, canceled: true, wake: c.wake };
        let ghost mid = *self;
        proof {
            self.lemma_wf_after_state_change(*old(self), co);
        }
        let dereg = self.selector.deregister_co(co);
        match dereg {
            Option::None => {
                proof {
                    assert(!old(self).selector.co_registered(co));
                }
            }
            Option::Some(e) => {
                proof {
                    let k = choose|k: int|
                        0 <= k < mid.selector.regs().len() && e == mid.selector.regs()[k]
                            && self.selector.regs() == #[trigger] mid.selector.regs().remove(k);
                    assert(old(self).selector.regs()[k].co == co);
                    assert(old(self).selector.co_registered(co));
                }
                self.cos[co] = Coroutine {
                    state: CoState::Ready,
                    canceled: true,
                    wake: Some(ErrorKind::Cancelled),
                };
                self.ready.push(co);
                proof {
                    let k = choose|k: int|
                        0 <= k < mid.selector.regs().len() && e == mid.selector.regs()[k]
                            && self.selector.regs() == #[trigger] mid.selector.regs().remove(k);
                    self.lemma_wf_after_wake(*old(self), co, k);
                    assert(old(self).selector.regs()[k].co == co);
                    assert(!self.selector.fd_registered(old(self).selector.regs()[k].fd));
                    assert(!self.selector.timer_has_fd(old(self).selector.regs()[k].fd));
                }
            }
        }
        proof {
            assert(self.cos@[co as int].canceled);
        }
    }

    /// Wakes the coroutine whose descriptor fired for the given handle:
    /// the natural-completion path, one-shot.  The descriptor and its
    /// timer entry are removed together, the coroutine turns `Ready` with
    /// a clear wake result and is re-enqueued.  A handle the registry does
    /// not know — already completed, cancelled, timed out, or never
    /// subscribed — wakes nobody: a subscription fires at most once.
    pub fn wake_fd(&mut self, fd: u64) -> (r: Option<usize>)
        requires
            old(self).wf(),
        ensures
            final(self).wf(),
            final(self).shutdown == old(self).shutdown,
            final(self).workers == old(self).workers,
            match r {
                Option::None => *final(self) == *old(self) && !old(self).selector.fd_registered(fd),
                Option::Some(co) => {
                    &&& old(self).selector.fd_registered(fd)
                    &&& co < old(self).cos@.len()
                    &&& old(self).cos@[co as int].state is Suspended
                    &&& final(self).cos@ == old(self).cos@.update(
                        co as int,
                        Coroutine {
                            state: CoState::Ready,
                            canceled: old(self).cos@[co as int].canceled,
                            wake: None,
                        },
                    )
                    &&& final(self).ready@ == old(self).ready@.push(co)
                    &&& !final(self).selector.fd_registered(fd)
                    &&& !final(self).selector.co_registered(co)
                    &&& !final(self).selector.timer_has_fd(fd)
                    &&& ((exists|i: int|
                        0 <= i < old(self).selector.timer_view().len() && old(self).selector.timer_view()[i].fd == fd && final(self).selector.timer_view()
                            == #[trigger] old(self).selector.timer_view().remove(i)) || final(self).selector.timer_view() == old(self).selector.timer_view())
                    &&& transition_ok(
                        old(self).cos@[co as int].state,
                        final(self).cos@[co as int].state,
                    )
                    &&& exists|k: int|
                        0 <= k < old(self).selector.regs().len() && (
                        #[trigger] old(self).selector.regs()[k]) == (EventData {
                            fd,
                            co,
                            interest: old(self).selector.regs()[k].interest,
                        }) && final(self).selector.regs() == old(self).selector.regs().remove(k)
                },
            },
    {
        let dereg = self.selector.deregister_fd(fd);
        match dereg {
            Option::None => None,
            Option::Some(e) => {
                proof {
                    let k = choose|k: int|
                        0 <= k < old(self).selector.regs().len() && e == old(self).selector.regs()[k] && self.selector.regs()
                            == #[trigger] old(self).selector.regs().remove(k);
                    assert(old(self).selector.regs()[k].co == e.co);
                    assert(e.co < old(self).cos@.len());
                    assert(old(self).cos@[e.co as int].state is Suspended);
                    assert(old(self).selector.fd_registered(fd));
                }
                let c = self.cos[e.co];
                self.cos[e.co] = Coroutine { state: CoState::Ready, canceled: c.canceled, wake: None };
                self.ready.push(e.co);
                proof {
                    let k = choose|k: int|
                        0 <= k < old(self).selector.regs().len() && e == old(self).selector.regs()[k] && self.selector.regs()
                            == #[trigger] old(self).selector.regs().remove(k);
                    self.lemma_wf_after_wake(*old(self), e.co, k);
                }
                Some(e.co)
            }
        }
    }

    /// Wakes the coroutine whose timeout expired first, if any has: its
    /// descriptor and timer entry are removed together and it is
    /// re-enqueued carrying `TimedOut`.  Nothing fires before its
    /// deadline; once the clock reaches a pending deadline, the wait that
    /// observes it fires the subscription.
    pub fn wake_next_expired(&mut self, now: u64) -> (r: Option<usize>)
        requires
            old(self).wf(),
        ensures
            final(self).wf(),
            final(self).shutdown == old(self).shutdown,
            final(self).workers == old(self).workers,
            match r {
                Option::None => {
                    &&& final(self).cos@ == old(self).cos@
                    &&& final(self).ready@ == old(self).ready@
                    &&& final(self).selector.regs() == old(self).selector.regs()
                    &&& final(self).selector.timer_view() == old(self).selector.timer_view()
                    &&& forall|j: int|
                        0 <= j < old(self).selector.timer_view().len() ==> (
                        #[trigger] old(self).selector.timer_view()[j]).deadline > now
                },
                Option::Some(co) => {
                    &&& old(self).selector.timer_view().len() > 0
                    &&& old(self).selector.timer_view()[0].deadline <= now
                    &&& co < old(self).cos@.len()
                    &&& old(self).cos@[co as int].state is Suspended
                    &&& final(self).cos@ == old(self).cos@.update(
                        co as int,
                        Coroutine {
                            state: CoState::Ready,
                            canceled: old(self).cos@[co as int].canceled,
                            wake: Some(ErrorKind::TimedOut),
                        },
                    )
                    &&& final(self).ready@ == old(self).ready@.push(co)
                    &&& transition_ok(
                        old(self).cos@[co as int].state,
                        final(self).cos@[co as int].state,
                    )
                    &&& final(self).selector.timer_view() == old(self).selector.timer_view().drop_first()
                    &&& !final(self).selector.fd_registered(
                        old(self).selector.timer_view()[0].fd,
                    )
                    &&& exists|k: int|
                        0 <= k < old(self).selector.regs().len() && (
                        #[trigger] old(self).selector.regs()[k]).co == co && old(self).selector.regs()[k].fd == old(self).selector.timer_view()[0].fd && final(self).selector.regs() == old(self).selector.regs().remove(k)
                },
            },
    {
        let fired = self.selector.pop_expired(now);
        match fired {
            Option::None => None,
            Option::Some((e, d)) => {
                proof {
                    let k = choose|k: int|
                        0 <= k < old(self).selector.regs().len() && e == old(self).selector.regs()[k] && self.selector.regs()
                            == #[trigger] old(self).selector.regs().remove(k);
                    assert(old(self).selector.regs()[k].co == e.co);
                    assert(e.co < old(self).cos@.len());
                    assert(old(self).cos@[e.co as int].state is Suspended);
                }
                let c = self.cos[e.co];
                self.cos[e.co] = Coroutine {
                    state: CoState::Ready,
                    canceled: c.canceled,
                    wake: Some(ErrorKind::TimedOut),
                };
                self.ready.push(e.co);
                proof {
                    let k = choose|k: int|
                        0 <= k < old(self).selector.regs().len() && e == old(self).selector.regs()[k] && self.selector.regs()
                            == #[trigger] old(self).selector.regs().remove(k);
                    self.lemma_wf_after_wake(*old(self), e.co, k);
                }
                Some(e.co)
            }
        }
    }
}

/// The absolute deadline a relative timeout turns into at subscribe time,
/// saturating at the largest representable tick so a huge timeout never
/// wraps into the past and fires early.
pub open spec fn deadline_after(now: u64, timeout: u64) -> u64 {
    if now + timeout <= u64::MAX {
        (now + timeout) as u64
    } else {
        u64::MAX
    }
}

/// A timeout never fires early: the absolute deadline a subscription
/// computes lies at least the requested duration past the subscribe-time
/// clock (up to saturation), so a wakeup gated on the clock reaching the
/// deadline resumes the coroutine no sooner than the timeout demands.
pub proof fn lemma_deadline_not_early(now: u64, timeout: u64)
    ensures
        deadline_after(now, timeout) >= now,
        now + timeout <= u64::MAX ==> deadline_after(now, timeout) == now + timeout,
{
}

/// Once cancellation has deregistered a coroutine's descriptor, the
/// registry holds nothing that references the coroutine, so no later
/// firing — readiness or timeout — can wake it with a natural completion:
/// exactly one of cancellation and completion wins, never both.
pub proof fn lemma_cancel_excludes_completion(s: Scheduler, co: usize)
    requires
        s.wf(),
        !s.selector.co_registered(co),
    ensures
        forall|k: int| 0 <= k < s.selector.regs().len() ==> (#[trigger] s.selector.regs()[k]).co != co,
{
    assert forall|k: int|
        0 <= k < s.selector.regs().len() implies (#[trigger] s.selector.regs()[k]).co != co by {
        if s.selector.regs()[k].co == co {
            assert(s.selector.co_registered(co));
        }
    }
}

/// Cancellation and timeout are mutually exclusive outcomes for one
/// subscription: whichever deregisters the handle first wins, and
/// afterwards the registry and the timer queue hold nothing for it, so
/// the other path observes "already deregistered" and does nothing.
pub proof fn lemma_deregistered_is_settled(s: Scheduler, fd: u64)
    requires
        s.wf(),
        !s.selector.fd_registered(fd),
    ensures
        forall|k: int| 0 <= k < s.selector.regs().len() ==> (#[trigger] s.selector.regs()[k]).fd != fd,
        forall|j: int|
            0 <= j < s.selector.timer_view().len() ==> (#[trigger] s.selector.timer_view()[j]).fd
                != fd,
{
    assert forall|k: int|
        0 <= k < s.selector.regs().len() implies (#[trigger] s.selector.regs()[k]).fd != fd by {
        if s.selector.regs()[k].fd == fd {
            assert(s.selector.fd_registered(fd));
        }
    }
    assert forall|j: int|
        0 <= j < s.selector.timer_view().len() implies (#[trigger] s.selector.timer_view()[j]).fd
        != fd by {
        if s.selector.timer_view()[j].fd == fd {
            assert(s.selector.fd_registered(fd));
        }
    }
}


} // verus!

//! The event sources: one per asynchronous operation.
//!
//! Each source exposes the `subscribe`/`complete` pair: `subscribe`
//! registers the suspended coroutine's descriptor with a backend, and the
//! completion step (`done`) validates the result once the coroutine has
//! resumed.  The OS calls themselves — the retried read or send under the
//! readiness model, the overlapped accept under the completion model —
//! happen outside; their outcomes are handed in as plain values, and the
//! decisions here are verified: which wakeup result wins, when a spurious
//! readiness report turns into a re-subscription, and what the coroutine
//! finally sees.

use vstd::prelude::*;

use crate::errors::{surfaceable, ErrorKind};
use crate::proactor::{PendingOp, Proactor};
use crate::scheduler::{deadline_after, Scheduler};
use crate::selector::Interest;
use crate::timer::TimerEntry;

verus! {

/// What a retried OS call returned, as the unverified edge reports it.
#[derive(Clone, Copy, Debug, PartialEq, Eq, Structural)]
pub enum SysOutcome {
    /// The call transferred this many bytes.
    Done(usize),
    /// The call would block: the handle was not actually ready.
    Blocked,
    /// The call failed with this OS error code.
    Failed(i32),
}

/// What a completion step decides once the coroutine has resumed.
#[derive(Clone, Copy, Debug, PartialEq, Eq, Structural)]
pub enum Completion {
    /// The operation finished, transferring this many bytes.
    Done(usize),
    /// The operation failed; this error is surfaced to the coroutine.
    Failed(ErrorKind),
    /// The handle was not actually ready: re-subscribe and suspend again
    /// rather than surfacing an error.
    Retry,
}

/// The readiness completion rule: a wakeup that carries an error —
/// timeout, cancellation, a refused registration — surfaces it; a clean
/// wakeup retries the call, and `Blocked` turns into a re-subscription,
/// never into an error; any other failure propagates at once.
pub open spec fn completion_of(wake: Option<ErrorKind>, os: SysOutcome) -> Completion {
    match wake {
        Option::Some(e) => Completion::Failed(e),
        Option::None => match os {
            SysOutcome::Done(n) => Completion::Done(n),
            SysOutcome::Blocked => Completion::Retry,
            SysOutcome::Failed(code) => Completion::Failed(ErrorKind::OsError(code)),
        },
    }
}

/// A retry round is decisive when it ends the loop: the wakeup carried an
/// error, or the retried call did anything but block.
pub open spec fn decisive(wake: Option<ErrorKind>, os: SysOutcome) -> bool {
    wake is Some || !(os is Blocked)
}

/// The result a decisive round surfaces to the coroutine.
pub open spec fn round_result(wake: Option<ErrorKind>, os: SysOutcome) -> Result<usize, ErrorKind> {
    match completion_of(wake, os) {
        Completion::Done(n) => Ok(n),
        Completion::Failed(e) => Err(e),
        Completion::Retry => Err(ErrorKind::WouldBlock),
    }
}

/// A blocking-style read on a socket: registers read interest, then
/// performs the actual call once readiness is known.
pub struct SocketRead {
    /// The socket handle the read runs on.
    pub fd: u64,
    /// The length of the caller's buffer: an upper bound on what one call
    /// can transfer.
    pub buf_cap: usize,
    /// The relative timeout requested for the operation, if any.
    pub timeout: Option<u64>,
}

impl SocketRead {
    /// Builds the read operation over the caller's socket and buffer.
    pub fn new(socket: u64, buf_cap: usize, timeout: Option<u64>) -> (r: SocketRead)
        ensures
            r == (SocketRead { fd: socket, buf_cap, timeout }),
    {
        SocketRead { fd: socket, buf_cap, timeout }
    }

    /// Registers read interest for the suspended coroutine, with the
    /// requested timeout; a coroutine whose token is already canceled is
    /// instead woken at once with `Cancelled`, touching no backend state.
    pub fn subscribe(&self, s: &mut Scheduler, co: usize, now: u64) -> (r: Result<(), ErrorKind>)
        requires
            old(s).wf(),
            co < old(s).cos@.len(),
            old(s).cos@[co as int].state is Running,
            !old(s).selector.fd_registered(self.fd),
        ensures
            final(s).wf(),
            old(s).shutdown ==> r == Err::<(), ErrorKind>(ErrorKind::ShutdownError)
                && final(s).selector == old(s).selector && final(s).ready@ == old(s).ready@.push(
                co,
            ) && final(s).cos@[co as int].state is Ready && final(s).cos@[co as int].wake == Some(
                ErrorKind::ShutdownError,
            ),
            !old(s).shutdown && old(s).cos@[co as int].canceled ==> r == Err::<(), ErrorKind>(
                ErrorKind::Cancelled,
            ) && final(s).selector == old(s).selector && final(s).ready@ == old(s).ready@.push(
                co,
            ) && final(s).cos@[co as int].state is Ready && final(s).cos@[co as int].wake == Some(
                ErrorKind::Cancelled,
            ),
            !old(s).shutdown && !old(s).cos@[co as int].canceled ==> r == Ok::<(), ErrorKind>(())
                && final(s).cos@[co as int].state is Suspended && final(s).selector.regs() == old(s).selector.regs().push(
                crate::selector::EventData { fd: self.fd, co, interest: Interest::Read },
            ) && (match self.timeout {
                Option::None => final(s).selector.timer_view() == old(s).selector.timer_view(),
                Option::Some(t) => final(s).selector.timer_has(self.fd, deadline_after(now, t))
                    && exists|i: int|
                    0 <= i <= old(s).selector.timer_view().len() && final(s).selector.timer_view()
                        == #[trigger] old(s).selector.timer_view().insert(
                        i,
                        TimerEntry { deadline: deadline_after(now, t), fd: self.fd },
                    ),
            }),
    {
        s.subscribe_io(co, self.fd, Interest::Read, self.timeout, now)
    }

    /// Finishes the read after the coroutine resumed: the wakeup check
    /// first — a timeout or cancellation wins outright — then the actual
    /// call's outcome.  A call that would still block demands a
    /// re-subscription; it never surfaces as an error.
    pub fn done(self, wake: Option<ErrorKind>, os: SysOutcome) -> (r: Completion)
        requires
            wake != Some(ErrorKind::WouldBlock),
        ensures
            r == completion_of(wake, os),
            r matches Completion::Failed(e) ==> surfaceable(e),
    {
        match wake {
            Option::Some(e) => Completion::Failed(e),
            Option::None => match os {
                SysOutcome::Done(n) => Completion::Done(n),
                SysOutcome::Blocked => Completion::Retry,
                SysOutcome::Failed(code) => Completion::Failed(ErrorKind::OsError(code)),
            },
        }
    }
}

/// A blocking-style datagram send: registers write interest, then retries
/// the actual send for as long as the OS reports the socket not actually
/// writable.
pub struct UdpSendTo {
    /// The socket handle the send runs on.
    pub fd: u64,
    /// The length of the message to send.
    pub msg_len: usize,
    /// The socket's write timeout at construction time, if any.
    pub timeout: Option<u64>,
}

impl UdpSendTo {
    /// Builds the send operation over the caller's socket and message,
    /// carrying the write timeout the socket was configured with.
    pub fn new(socket: u64, msg_len: usize, write_timeout: Option<u64>) -> (r: Result<
        UdpSendTo,
        ErrorKind,
    >)
        ensures
            r == Ok::<UdpSendTo, ErrorKind>(
                UdpSendTo { fd: socket, msg_len, timeout: write_timeout },
            ),
    {
        Ok(UdpSendTo { fd: socket, msg_len, timeout: write_timeout })
    }

    /// Registers write interest for the suspended coroutine, with the
    /// socket's write timeout; a coroutine already canceled is woken at
    /// once with `Cancelled` instead, touching no backend state.
    pub fn subscribe(&self, s: &mut Scheduler, co: usize, now: u64) -> (r: Result<(), ErrorKind>)
        requires
            old(s).wf(),
            co < old(s).cos@.len(),
            old(s).cos@[co as int].state is Running,
            !old(s).selector.fd_registered(self.fd),
        ensures
            final(s).wf(),
            old(s).shutdown ==> r == Err::<(), ErrorKind>(ErrorKind::ShutdownError)
                && final(s).selector == old(s).selector && final(s).ready@ == old(s).ready@.push(
                co,
            ) && final(s).cos@[co as int].state is Ready && final(s).cos@[co as int].wake == Some(
                ErrorKind::ShutdownError,
            ),
            !old(s).shutdown && old(s).cos@[co as int].canceled ==> r == Err::<(), ErrorKind>(
                ErrorKind::Cancelled,
            ) && final(s).selector == old(s).selector && final(s).ready@ == old(s).ready@.push(
                co,
            ) && final(s).cos@[co as int].state is Ready,
            !old(s).shutdown && !old(s).cos@[co as int].canceled ==> r == Ok::<(), ErrorKind>(())
                && final(s).cos@[co as int].state is Suspended && final(s).selector.regs() == old(s).selector.regs().push(
                crate::selector::EventData { fd: self.fd, co, interest: Interest::Write },
            ) && (match self.timeout {
                Option::None => final(s).selector.timer_view() == old(s).selector.timer_view(),
                Option::Some(t) => final(s).selector.timer_has(self.fd, deadline_after(now, t))
                    && exists|i: int|
                    0 <= i <= old(s).selector.timer_view().len() && final(s).selector.timer_view()
                        == #[trigger] old(s).selector.timer_view().insert(
                        i,
                        TimerEntry { deadline: deadline_after(now, t), fd: self.fd },
                    ),
            }),
    {
        s.subscribe_io(co, self.fd, Interest::Write, self.timeout, now)
    }

    /// Finishes the send: one round per wakeup of the coroutine, each
    /// handing in the wakeup result and the retried call's outcome.  The
    /// loop ends at the first decisive round — a wakeup error, a transfer,
    /// or an OS failure — and its result is surfaced unchanged; a round
    /// whose call would still block only re-subscribes, so `WouldBlock` is
    /// fully absorbed and every other error propagates at once.
    pub fn done(self, wakes: &Vec<Option<ErrorKind>>, outcomes: &Vec<SysOutcome>) -> (r: Result<
        usize,
        ErrorKind,
    >)
        requires
            wakes@.len() == outcomes@.len(),
            forall|i: int| 0 <= i < wakes@.len() ==> #[trigger] wakes@[i] != Some(
                ErrorKind::WouldBlock,
            ),
            exists|i: int|
                0 <= i < wakes@.len() && #[trigger] decisive(wakes@[i], outcomes@[i]),
        ensures
            exists|i: int|
                0 <= i < wakes@.len() && #[trigger] decisive(wakes@[i], outcomes@[i]) && (forall|
                    j: int,
                | 0 <= j < i ==> !decisive(wakes@[j], outcomes@[j])) && r == round_result(
                    wakes@[i],
                    outcomes@[i],
                ),
            r matches Err(e) ==> surfaceable(e),
    {
        let n = wakes.len();
        let mut i: usize = 0;
        while i < n
            invariant
                0 <= i <= n,
                n == wakes@.len() && n == outcomes@.len(),
                forall|j: int| 0 <= j < i ==> !#[trigger] decisive(wakes@[j], outcomes@[j]),
                forall|j: int| 0 <= j < wakes@.len() ==> #[trigger] wakes@[j] != Some(
                    ErrorKind::WouldBlock,
                ),
                exists|j: int|
                    0 <= j < wakes@.len() && #[trigger] decisive(wakes@[j], outcomes@[j]),
            decreases n - i,
        {
            let wake = wakes[i];
            let os = outcomes[i];
            match wake {
                Option::Some(e) => {
                    proof {
                        assert(decisive(wakes@[i as int], outcomes@[i as int]));
                        assert(round_result(wakes@[i as int], outcomes@[i as int])
                            == Err::<usize, ErrorKind>(e));
                        assert(wakes@[i as int] != Some(ErrorKind::WouldBlock));
                    }
                    return Err(e);
                }
                Option::None => {
                    match os {
                        SysOutcome::Done(m) => {
                            proof {
                                assert(decisive(wakes@[i as int], outcomes@[i as int]));
                                assert(round_result(wakes@[i as int], outcomes@[i as int])
                                    == Ok::<usize, ErrorKind>(m));
                            }
                            return Ok(m);
                        }
                        SysOutcome::Failed(code) => {
                            proof {
                                assert(decisive(wakes@[i as int], outcomes@[i as int]));
                                assert(round_result(wakes@[i as int], outcomes@[i as int])
                                    == Err::<usize, ErrorKind>(ErrorKind::OsError(code)));
                            }
                            return Err(ErrorKind::OsError(code));
                        }
                        SysOutcome::Blocked => {
                            // not actually writable: deregistered, then
                            // re-subscribed for the next round
                            proof {
                                assert(!decisive(wakes@[i as int], outcomes@[i as int]));
                            }
                        }
                    }
                }
            }
            i = i + 1;
        }
        proof {
            let j = choose|j: int|
                0 <= j < wakes@.len() && #[trigger] decisive(wakes@[j], outcomes@[j]);
            assert(false);
        }
        Err(ErrorKind::OsError(0))
    }
}

/// The address family of a listening socket, deciding which kind of
/// socket the overlapped accept pre-creates.
#[derive(Clone, Copy, Debug, PartialEq, Eq, Structural)]
pub enum AddrKind {
    /// An IPv4 address.
    V4,
    /// An IPv6 address.
    V6,
}

/// The error code surfaced when a completion packet arrives although no
/// accepted socket was stored at issue time.
pub const MISSING_ACCEPT_RESULT: i32 = -1;

/// The error code surfaced when the accepted socket carries no readable
/// remote address.
pub const MISSING_PEER_ADDRESS: i32 = -2;

/// The completion rule of the overlapped accept: the wakeup check first,
/// then the stored socket, then the remote address — each missing piece
/// is an error of its own, and only a complete result is returned.
pub open spec fn accept_result(
    wake: Option<ErrorKind>,
    ret: Option<u64>,
    remote: Option<u64>,
) -> Result<(u64, u64), ErrorKind> {
    match wake {
        Option::Some(e) => Err(e),
        Option::None => match ret {
            Option::None => Err(ErrorKind::OsError(MISSING_ACCEPT_RESULT)),
            Option::Some(h) => match remote {
                Option::None => Err(ErrorKind::OsError(MISSING_PEER_ADDRESS)),
                Option::Some(a) => Ok((h, a)),
            },
        },
    }
}

/// An accept under the completion model: the OS performs the accept onto
/// a pre-created socket and delivers the result with the completion
/// packet; cancellation must use the OS's explicit cancel-in-flight
/// primitive, decided through the proactor.
pub struct TcpListenerAccept {
    /// The listening socket's handle.
    pub listener: u64,
    /// Whether the pre-created socket is of the IPv6 family — it must
    /// match the listener's local address.
    pub builder_v6: bool,
    /// The accepted socket the OS stored when the call was issued.
    pub ret: Option<u64>,
    /// The completion token, shared with the cancellation registration.
    pub token: u64,
}

impl TcpListenerAccept {
    /// Builds the accept operation: the pre-created socket's family
    /// follows the listener's local address.
    pub fn new(listener: u64, local_addr: AddrKind, token: u64) -> (r: Result<
        TcpListenerAccept,
        ErrorKind,
    >)
        ensures
            r == Ok::<TcpListenerAccept, ErrorKind>(
                TcpListenerAccept {
                    listener,
                    builder_v6: local_addr is V6,
                    ret: None,
                    token,
                },
            ),
    {
        let builder_v6 = match local_addr {
            AddrKind::V4 => false,
            AddrKind::V6 => true,
        };
        Ok(TcpListenerAccept { listener, builder_v6, ret: None, token })
    }

    /// The cancellation registration this operation wakes through: its
    /// completion token.
    pub fn get_cancel_data(&self) -> (r: Option<u64>)
        ensures
            r == Some(self.token),
    {
        Some(self.token)
    }

    /// Re-validates the cancellation token before anything reaches the
    /// OS: a token already set fails the subscription at once with
    /// `Cancelled` — the overlapped call is never issued, nothing is
    /// registered with the backend, and no completion will ever arrive.
    /// Only an `Ok` here allows the caller to issue the overlapped accept
    /// and record it with `subscribe`.
    pub fn begin_subscribe(&self, canceled: bool) -> (r: Result<(), ErrorKind>)
        ensures
            canceled ==> r == Err::<(), ErrorKind>(ErrorKind::Cancelled),
            !canceled ==> r == Ok::<(), ErrorKind>(()),
    {
        if canceled {
            Err(ErrorKind::Cancelled)
        } else {
            Ok(())
        }
    }

    /// Records the overlapped accept that `begin_subscribe` allowed:
    /// `issue` is what the OS call returned — the accepted socket it will
    /// fill, or an error, which turns into an immediate wakeup rather
    /// than a silent drop.  On success the operation is recorded with the
    /// proactor; `canceled_after_issue` reports a cancellation that
    /// arrived once the call was already in flight — the OS then still
    /// owns the operation, so the second result says whether its explicit
    /// cancel-in-flight primitive is now owed for this handle.
    pub fn subscribe(
        &mut self,
        p: &mut Proactor,
        co: usize,
        issue: Result<u64, i32>,
        canceled_after_issue: bool,
    ) -> (r: (Result<(), ErrorKind>, bool))
        requires
            old(p).wf(),
            !old(p).token_pending(old(self).token),
        ensures
            final(p).wf(),
            final(self).listener == old(self).listener,
            final(self).builder_v6 == old(self).builder_v6,
            final(self).token == old(self).token,
            match issue {
                Result::Err(code) => r == (
                    Err::<(), ErrorKind>(ErrorKind::OsError(code)),
                    false,
                ) && *final(p) == *old(p) && final(self).ret == old(self).ret,
                Result::Ok(h) => r == (Ok::<(), ErrorKind>(()), canceled_after_issue) && final(self).ret == Some(h) && final(p).ops_view() == old(p).ops_view().push(
                    PendingOp {
                        token: old(self).token,
                        co,
                        handle: old(self).listener,
                        cancel_issued: canceled_after_issue,
                    },
                ),
            },
    {
        match issue {
            Result::Err(code) => (Err(ErrorKind::OsError(code)), false),
            Result::Ok(h) => {
                p.issue(self.token, co, self.listener);
                self.ret = Some(h);
                let ghost mid = *p;
                let mut must_cancel = false;
                if canceled_after_issue {
                    must_cancel = p.cancel_in_flight(self.token);
                    proof {
                        let n = old(p).ops_view().len() as int;
                        assert(mid.ops_view()[n].token == self.token);
                        assert(must_cancel);
                        let k = choose|k: int|
                            0 <= k < mid.ops_view().len() && (#[trigger] mid.ops_view()[k]).token
                                == self.token && p.ops_view() == mid.ops_view().update(
                                k,
                                PendingOp { cancel_issued: true, ..mid.ops_view()[k] },
                            );
                        if k != n {
                            assert(mid.ops_view()[k] == old(p).ops_view()[k]);
                            assert(old(p).token_pending(self.token));
                        }
                        assert(p.ops_view() =~= old(p).ops_view().push(
                            PendingOp {
                                token: self.token,
                                co,
                                handle: self.listener,
                                cancel_issued: true,
                            },
                        ));
                    }
                }
                (Ok(()), must_cancel)
            }
        }
    }

    /// Finishes the accept after the completion packet woke the
    /// coroutine: the wakeup check first, then the bookkeeping — the
    /// stored socket is unwrapped and the remote address extracted, each
    /// failing with its own error when missing.
    pub fn done(self, wake: Option<ErrorKind>, remote: Option<u64>) -> (r: Result<
        (u64, u64),
        ErrorKind,
    >)
        requires
            wake != Some(ErrorKind::WouldBlock),
        ensures
            r == accept_result(wake, self.ret, remote),
            r matches Err(e) ==> surfaceable(e),
    {
        match wake {
            Option::Some(e) => Err(e),
            Option::None => match self.ret {
                Option::None => Err(ErrorKind::OsError(MISSING_ACCEPT_RESULT)),
                Option::Some(h) => match remote {
                    Option::None => Err(ErrorKind::OsError(MISSING_PEER_ADDRESS)),
                    Option::Some(a) => Ok((h, a)),
                },
            },
        }
    }
}

} // verus!

use coroutine::errors::ErrorKind;
use coroutine::loopback::{EchoStats, LoopbackChan};
use coroutine::proactor::Proactor;
use coroutine::race::{try_cancel, try_complete, RaceState};
use coroutine::queue::ReadyQueue;
use coroutine::scheduler::{CoState, Scheduler};
use coroutine::source::{
    AddrKind, Completion, SocketRead, SysOutcome, TcpListenerAccept, UdpSendTo,
    MISSING_ACCEPT_RESULT, MISSING_PEER_ADDRESS,
};
use coroutine::timer::TimerQueue;

/// Spawns one coroutine and moves it to Running.
fn spawn_running(s: &mut Scheduler) -> usize {
    let co = s.spawn().expect("spawn");
    let (popped, st) = s.resume_next(true).expect("a coroutine is queued");
    assert_eq!(popped, co);
    assert!(st.is_ok());
    co
}

#[test]
fn spawn_after_shutdown_returns_shutdown_error() {
    let mut s = Scheduler::new(1);
    let first = s.spawn().expect("spawn before shutdown succeeds");
    assert_eq!(first, 0);
    let queued_before = s.ready.len();
    s.begin_shutdown();
    match s.spawn() {
        Err(ErrorKind::ShutdownError) => {}
        other => panic!("expected ShutdownError, got {:?}", other),
    }
    // no entry leaked into the queue or the table
    assert_eq!(s.ready.len(), queued_before);
    assert_eq!(s.cos.len(), 1);
    // and the runtime is not wedged: the earlier coroutine still runs
    let (co, st) = s.resume_next(true).expect("still runnable");
    assert_eq!(co, first);
    assert!(st.is_ok());
}

#[test]
fn set_worker_count_before_spawn() {
    let mut s = Scheduler::new(1);
    s.set_worker_count(4);
    assert_eq!(s.workers, 4);
}

#[test]
fn resume_with_failed_allocation_finishes_with_allocation_error() {
    let mut s = Scheduler::new(1);
    let co = s.spawn().expect("spawn");
    let (popped, st) = s.resume_next(false).expect("queued");
    assert_eq!(popped, co);
    assert_eq!(st, Err(ErrorKind::AllocationError));
    assert_eq!(s.cos[co].state, CoState::Finished);
    assert_eq!(s.cos[co].wake, Some(ErrorKind::AllocationError));
}

#[test]
fn cancel_before_subscribe_fails_fast_without_registering() {
    let mut s = Scheduler::new(1);
    let co = spawn_running(&mut s);
    // not suspended: only the flag is set
    s.cancel(co);
    assert!(s.cos[co].canceled);
    assert_eq!(s.cos[co].state, CoState::Running);
    assert_eq!(s.selector.len(), 0);
    // the next subscribe attempt fails immediately with Cancelled and
    // registers nothing with the backend
    let op = SocketRead::new(7, 80, None);
    let r = op.subscribe(&mut s, co, 0);
    assert_eq!(r, Err(ErrorKind::Cancelled));
    assert_eq!(s.selector.len(), 0);
    // the coroutine was re-enqueued carrying the error
    let (popped, st) = s.resume_next(true).expect("woken at once");
    assert_eq!(popped, co);
    assert!(st.is_ok());
    assert_eq!(s.co_io_result(co), Err(ErrorKind::Cancelled));
}

#[test]
fn cancel_while_suspended_wakes_with_cancelled_only() {
    let mut s = Scheduler::new(1);
    let co = spawn_running(&mut s);
    let op = SocketRead::new(9, 80, None);
    op.subscribe(&mut s, co, 0).expect("subscribed");
    assert_eq!(s.cos[co].state, CoState::Suspended);
    assert_eq!(s.selector.len(), 1);
    s.cancel(co);
    // descriptor deregistered, coroutine woken with Cancelled
    assert_eq!(s.selector.len(), 0);
    assert_eq!(s.cos[co].state, CoState::Ready);
    // natural completion can no longer fire
    assert_eq!(s.wake_fd(9), None);
    let (popped, _) = s.resume_next(true).expect("woken");
    assert_eq!(popped, co);
    assert_eq!(s.co_io_result(co), Err(ErrorKind::Cancelled));
}

#[test]
fn cancel_completion_race_exactly_one_winner() {
    // randomized order trials: whichever of cancellation and natural
    // completion deregisters first wins; the other observes "already
    // deregistered" and does nothing
    let mut seed: u64 = 0x2545F4914F6CDD1D;
    let trials: u64 = 10_000;
    let mut cancelled = 0u64;
    let mut completed = 0u64;
    for _ in 0..trials {
        seed = seed.wrapping_mul(6364136223846793005).wrapping_add(1442695040888963407);
        let cancel_first = (seed >> 33) & 1 == 1;
        let mut s = Scheduler::new(1);
        let co = spawn_running(&mut s);
        let op = SocketRead::new(3, 16, None);
        op.subscribe(&mut s, co, 0).expect("subscribed");
        let naturally_woken;
        if cancel_first {
            s.cancel(co);
            naturally_woken = s.wake_fd(3).is_some();
        } else {
            naturally_woken = s.wake_fd(3).is_some();
            s.cancel(co);
        }
        let (popped, _) = s.resume_next(true).expect("exactly one wakeup is queued");
        assert_eq!(popped, co);
        let outcome = s.co_io_result(co);
        if cancel_first {
            assert!(!naturally_woken);
            assert_eq!(outcome, Err(ErrorKind::Cancelled));
            cancelled += 1;
        } else {
            assert!(naturally_woken);
            assert_eq!(outcome, Ok(()));
            completed += 1;
        }
        // never both, never neither: no second wakeup is pending
        assert!(s.resume_next(true).is_none());
    }
    assert_eq!(cancelled + completed, trials);
    assert!(cancelled > 0 && completed > 0);
}

#[test]
fn timeout_fires_within_bounds() {
    // a subscription with timeout T that never becomes ready fires
    // TimedOut at the first wait whose clock reaches now + T, never
    // before
    for &t in &[0u64, 1, 1000] {
        let mut s = Scheduler::new(1);
        let co = spawn_running(&mut s);
        let op = SocketRead::new(11, 80, Some(t));
        op.subscribe(&mut s, co, 5).expect("subscribed");
        // the wait call folds the earliest pending deadline in
        assert_eq!(s.selector.next_deadline(), Some(5 + t));
        if t > 0 {
            assert_eq!(s.wake_next_expired(5), None, "must not fire at subscribe time");
            assert_eq!(s.wake_next_expired(5 + t - 1), None, "must not fire early");
        }
        assert_eq!(s.wake_next_expired(5 + t), Some(co), "fires once the deadline passed");
        let (popped, _) = s.resume_next(true).expect("woken");
        assert_eq!(popped, co);
        assert_eq!(s.co_io_result(co), Err(ErrorKind::TimedOut));
        // one-shot: the descriptor and its timer entry are gone
        assert_eq!(s.selector.len(), 0);
        assert_eq!(s.wake_next_expired(u64::MAX), None);
    }
}

#[test]
fn timeout_and_readiness_are_exclusive() {
    let mut s = Scheduler::new(1);
    let co = spawn_running(&mut s);
    let op = SocketRead::new(13, 80, Some(10));
    op.subscribe(&mut s, co, 0).expect("subscribed");
    // readiness wins: the timer entry is removed with the descriptor
    assert_eq!(s.wake_fd(13), Some(co));
    assert_eq!(s.wake_next_expired(u64::MAX), None);
    let (popped, _) = s.resume_next(true).expect("woken");
    assert_eq!(popped, co);
    assert_eq!(s.co_io_result(co), Ok(()));
}

#[test]
fn socket_read_done_absorbs_would_block() {
    let op = SocketRead::new(1, 80, None);
    assert_eq!(op.done(None, SysOutcome::Blocked), Completion::Retry);
    let op = SocketRead::new(1, 80, None);
    assert_eq!(op.done(None, SysOutcome::Done(80)), Completion::Done(80));
    let op = SocketRead::new(1, 80, None);
    assert_eq!(op.done(None, SysOutcome::Failed(104)), Completion::Failed(ErrorKind::OsError(104)));
    let op = SocketRead::new(1, 80, None);
    assert_eq!(op.done(Some(ErrorKind::TimedOut), SysOutcome::Blocked), Completion::Failed(ErrorKind::TimedOut));
}

#[test]
fn udp_send_to_retries_until_genuinely_ready() {
    // a descriptor reported ready whose retried call returns WouldBlock
    // re-subscribes and completes once genuinely ready
    let op = UdpSendTo::new(2, 80, Some(5)).expect("constructed");
    assert_eq!(op.fd, 2);
    assert_eq!(op.msg_len, 80);
    let wakes = vec![None, None, None];
    let outcomes = vec![SysOutcome::Blocked, SysOutcome::Blocked, SysOutcome::Done(80)];
    let op = UdpSendTo::new(2, 80, Some(5)).expect("constructed");
    assert_eq!(op.done(&wakes, &outcomes), Ok(80));
}

#[test]
fn udp_send_to_propagates_real_errors_at_once() {
    let wakes = vec![None, None];
    let outcomes = vec![SysOutcome::Blocked, SysOutcome::Failed(111)];
    let op = UdpSendTo::new(2, 80, None).expect("constructed");
    assert_eq!(op.done(&wakes, &outcomes), Err(ErrorKind::OsError(111)));
    // a wakeup error on a later round wins that round
    let wakes = vec![None, Some(ErrorKind::TimedOut)];
    let outcomes = vec![SysOutcome::Blocked, SysOutcome::Blocked];
    let op = UdpSendTo::new(2, 80, None).expect("constructed");
    assert_eq!(op.done(&wakes, &outcomes), Err(ErrorKind::TimedOut));
}

#[test]
fn loopback_delivers_every_byte_in_order() {
    // N producers of one fixed-length message each; the consumer drains
    // the channel: total received equals total sent, byte for byte
    for n in 1usize..=8 {
        let mut chan = LoopbackChan::new();
        let mut expected: Vec<u8> = Vec::new();
        for writer in 0..n {
            let msg: Vec<u8> = (0..80usize).map(|i| (writer * 80 + i) as u8).collect();
            expected.extend_from_slice(&msg);
            chan.write(&msg);
        }
        let mut got: Vec<u8> = Vec::new();
        loop {
            let part = chan.read(13);
            if part.is_empty() {
                break;
            }
            got.extend_from_slice(&part);
        }
        assert_eq!(chan.buffered_len(), 0);
        assert_eq!(got.len(), n * 80);
        assert_eq!(got, expected);
    }
}

#[test]
fn echo_session_invariant_holds_throughout() {
    // 8 clients in a request/response loop against an echo responder:
    // at every stop point responses <= requests <= responses + 1, and
    // both counts only grow
    let mut sessions: Vec<EchoStats> = (0..8).map(|_| EchoStats::new()).collect();
    for round in 0..100 {
        for s in sessions.iter_mut() {
            let (req0, resp0) = (s.requests_sent, s.responses_received);
            s.record_request();
            assert!(s.responses_received <= s.requests_sent);
            assert!(s.requests_sent <= s.responses_received + 1);
            assert!(s.requests_sent >= req0 && s.responses_received >= resp0);
            // the last round stops before the response is read back
            if round < 99 {
                s.record_response();
                assert!(s.responses_received <= s.requests_sent);
                assert!(s.requests_sent <= s.responses_received + 1);
            }
        }
    }
    for s in sessions.iter() {
        assert_eq!(s.requests_sent, 100);
        assert_eq!(s.responses_received, 99);
    }
}

#[test]
fn ready_queue_is_fifo_across_producers() {
    let mut q = ReadyQueue::new();
    q.push(3);
    q.push(1);
    q.push(2);
    assert_eq!(q.len(), 3);
    assert_eq!(q.pop(), Some(3));
    q.push(4);
    assert_eq!(q.pop(), Some(1));
    assert_eq!(q.pop(), Some(2));
    assert_eq!(q.pop(), Some(4));
    assert_eq!(q.pop(), None);
}

#[test]
fn timer_queue_orders_by_deadline_then_insertion() {
    let mut t = TimerQueue::new();
    t.insert(50, 1);
    t.insert(10, 2);
    t.insert(50, 3);
    t.insert(30, 4);
    assert_eq!(t.next_deadline(), Some(10));
    // nothing expires before its deadline
    assert!(t.pop_expired(9).is_none());
    let e = t.pop_expired(10).expect("expired");
    assert_eq!((e.deadline, e.fd), (10, 2));
    assert_eq!(t.next_deadline(), Some(30));
    let e = t.pop_expired(100).expect("expired");
    assert_eq!((e.deadline, e.fd), (30, 4));
    // equal deadlines fire in insertion order
    let e = t.pop_expired(100).expect("expired");
    assert_eq!((e.deadline, e.fd), (50, 1));
    let e = t.pop_expired(100).expect("expired");
    assert_eq!((e.deadline, e.fd), (50, 3));
    assert!(t.pop_expired(u64::MAX).is_none());
}

#[test]
fn timer_queue_remove_fd_detaches_one_timeout() {
    let mut t = TimerQueue::new();
    t.insert(10, 7);
    t.insert(20, 8);
    t.remove_fd(7);
    let e = t.pop_expired(100).expect("the other timeout stays");
    assert_eq!((e.deadline, e.fd), (20, 8));
    assert!(t.pop_expired(u64::MAX).is_none());
}

#[test]
fn proactor_completion_is_one_shot() {
    let mut p = Proactor::new();
    p.issue(42, 0, 5);
    let op = p.complete(42).expect("packet matches the token");
    assert_eq!(op.token, 42);
    assert_eq!(op.co, 0);
    assert_eq!(op.handle, 5);
    assert!(!op.cancel_issued);
    // the token left the book-keeping: a duplicate packet wakes nobody
    assert!(p.complete(42).is_none());
}

#[test]
fn proactor_cancel_in_flight_is_owed_once() {
    let mut p = Proactor::new();
    p.issue(7, 1, 9);
    assert!(p.cancel_in_flight(7), "first cancel must call the OS primitive");
    assert!(!p.cancel_in_flight(7), "second cancel observes it already issued");
    assert!(!p.cancel_in_flight(8), "unknown token asks for no OS call");
    let op = p.complete(7).expect("the packet still arrives");
    assert!(op.cancel_issued);
}

#[test]
fn tcp_listener_accept_builder_matches_family() {
    let a4 = TcpListenerAccept::new(5, AddrKind::V4, 1).expect("constructed");
    assert!(!a4.builder_v6);
    let a6 = TcpListenerAccept::new(5, AddrKind::V6, 2).expect("constructed");
    assert!(a6.builder_v6);
    assert_eq!(a6.get_cancel_data(), Some(2));
}

#[test]
fn tcp_listener_accept_subscribe_records_and_rechecks_cancel() {
    let mut p = Proactor::new();
    let mut op = TcpListenerAccept::new(5, AddrKind::V4, 1).expect("constructed");
    // a failed overlapped call turns into an immediate error, nothing recorded
    let (r, os_cancel) = op.subscribe(&mut p, 0, Err(995), false);
    assert_eq!(r, Err(ErrorKind::OsError(995)));
    assert!(!os_cancel);
    assert!(p.complete(1).is_none());
    // a successful call records the op; a cancellation that arrived once
    // the call was in flight owes the OS cancel-in-flight call
    let mut op = TcpListenerAccept::new(5, AddrKind::V4, 1).expect("constructed");
    let (r, os_cancel) = op.subscribe(&mut p, 0, Ok(77), true);
    assert_eq!(r, Ok(()));
    assert!(os_cancel);
    let pending = p.complete(1).expect("recorded");
    assert!(pending.cancel_issued);
    assert_eq!(op.ret, Some(77));
}

#[test]
fn tcp_listener_accept_done_unwraps_or_names_what_is_missing() {
    let mut p = Proactor::new();
    let mut op = TcpListenerAccept::new(5, AddrKind::V4, 3).expect("constructed");
    let (r, _) = op.subscribe(&mut p, 0, Ok(77), false);
    assert_eq!(r, Ok(()));
    assert_eq!(op.done(None, Some(4242)), Ok((77, 4242)));
    // wakeup errors win outright
    let op2 = TcpListenerAccept::new(5, AddrKind::V4, 4).expect("constructed");
    assert_eq!(op2.done(Some(ErrorKind::Cancelled), Some(4242)), Err(ErrorKind::Cancelled));
    // a packet without a stored socket, and a socket without a peer address
    let op3 = TcpListenerAccept::new(5, AddrKind::V4, 5).expect("constructed");
    assert_eq!(op3.done(None, Some(4242)), Err(ErrorKind::OsError(MISSING_ACCEPT_RESULT)));
    let mut p2 = Proactor::new();
    let mut op4 = TcpListenerAccept::new(5, AddrKind::V6, 6).expect("constructed");
    op4.subscribe(&mut p2, 0, Ok(78), false).0.expect("subscribed");
    assert_eq!(op4.done(None, None), Err(ErrorKind::OsError(MISSING_PEER_ADDRESS)));
}

#[test]
fn full_write_then_read_cycle_over_the_scheduler() {
    // N coroutines each write then read a fixed-length message over a
    // loopback pair, driven by the model scheduler; every byte sent is
    // received
    for workers in 1usize..=3 {
        for n in 1usize..=4 {
            let mut s = Scheduler::new(workers);
            let mut chan = LoopbackChan::new();
            let mut total_sent = 0usize;
            let mut total_received = 0usize;
            let mut cos = Vec::new();
            for _ in 0..n {
                cos.push(s.spawn().expect("spawn"));
            }
            // every worker picks up a coroutine in spawn order
            for &co in cos.iter() {
                let (popped, st) = s.resume_next(true).expect("queued");
                assert_eq!(popped, co);
                assert!(st.is_ok());
            }
            // each coroutine issues its write and suspends
            for (idx, &co) in cos.iter().enumerate() {
                let fd = 100 + idx as u64;
                let wr = UdpSendTo::new(fd, 80, None).expect("constructed");
                wr.subscribe(&mut s, co, 0).expect("subscribed");
            }
            // the OS reports every handle writable; readiness is served
            // first-in first-out
            for (idx, &co) in cos.iter().enumerate() {
                let fd = 100 + idx as u64;
                assert_eq!(s.wake_fd(fd), Some(co));
            }
            // each resumes, transfers its message, and suspends on the
            // read of the echoed bytes
            for (idx, &co) in cos.iter().enumerate() {
                let fd = 100 + idx as u64;
                let (popped, _) = s.resume_next(true).expect("woken");
                assert_eq!(popped, co);
                let wake = s.co_io_result(co).err();
                let msg: Vec<u8> = vec![idx as u8; 80];
                chan.write(&msg);
                total_sent += 80;
                let wr = UdpSendTo::new(fd, 80, None).expect("constructed");
                assert_eq!(wr.done(&vec![wake], &vec![SysOutcome::Done(80)]), Ok(80));
                let rd = SocketRead::new(fd, 80, None);
                rd.subscribe(&mut s, co, 0).expect("subscribed");
            }
            // the echoed bytes arrive: every read handle fires
            for (idx, &co) in cos.iter().enumerate() {
                let fd = 100 + idx as u64;
                assert_eq!(s.wake_fd(fd), Some(co));
            }
            // each resumes and drains its reply
            for (idx, &co) in cos.iter().enumerate() {
                let fd = 100 + idx as u64;
                let (popped, _) = s.resume_next(true).expect("woken");
                assert_eq!(popped, co);
                assert_eq!(s.co_io_result(co), Ok(()));
                let got = chan.read(80);
                assert_eq!(got, vec![idx as u8; 80]);
                total_received += got.len();
                let rd2 = SocketRead::new(fd, 80, None);
                assert_eq!(rd2.done(None, SysOutcome::Done(80)), Completion::Done(80));
                s.finish(co, None);
                assert_eq!(s.cos[co].state, CoState::Finished);
            }
            assert_eq!(total_sent, total_received);
            assert_eq!(chan.buffered_len(), 0);
        }
    }
}

#[test]
fn wait_pass_serves_readiness_and_timers() {
    // one worker wait pass, as the edge composes it: every reported
    // handle fires one-shot, then every expired timeout
    let mut s = Scheduler::new(2);
    let a = spawn_running(&mut s);
    let b = spawn_running(&mut s);
    let c = spawn_running(&mut s);
    SocketRead::new(21, 8, None).subscribe(&mut s, a, 0).expect("subscribed");
    SocketRead::new(22, 8, Some(3)).subscribe(&mut s, b, 0).expect("subscribed");
    SocketRead::new(23, 8, Some(50)).subscribe(&mut s, c, 0).expect("subscribed");
    // the OS reports handle 21 ready, and the clock passed b's deadline
    // but not c's
    let ready = vec![21u64];
    let mut woken = 0usize;
    for fd in ready.iter() {
        if s.wake_fd(*fd).is_some() {
            woken += 1;
        }
    }
    while s.wake_next_expired(4).is_some() {
        woken += 1;
    }
    assert_eq!(woken, 2);
    // a duplicate report wakes nobody: one-shot
    assert_eq!(s.wake_fd(21), None);
    let (first, _) = s.resume_next(true).expect("woken");
    assert_eq!(first, a);
    assert_eq!(s.co_io_result(a), Ok(()));
    let (second, _) = s.resume_next(true).expect("woken");
    assert_eq!(second, b);
    assert_eq!(s.co_io_result(b), Err(ErrorKind::TimedOut));
    // c stays suspended: its deadline lies ahead
    assert!(s.resume_next(true).is_none());
    assert_eq!(s.cos[c].state, CoState::Suspended);
    assert_eq!(s.selector.len(), 1);
}

#[test]
fn race_compare_and_set_has_exactly_one_winner() {
    // completion first
    let mut r = RaceState::Pending;
    assert!(try_complete(&mut r));
    assert_eq!(r, RaceState::Completed);
    assert!(!try_cancel(&mut r));
    assert_eq!(r, RaceState::Completed);
    // cancellation first
    let mut r = RaceState::Pending;
    assert!(try_cancel(&mut r));
    assert_eq!(r, RaceState::Cancelled);
    assert!(!try_complete(&mut r));
    assert_eq!(r, RaceState::Cancelled);
    // a settled state never moves again
    assert!(!try_cancel(&mut r));
    assert_eq!(r, RaceState::Cancelled);
}

#[test]
fn fatal_failure_finishes_every_coroutine_and_refuses_spawns() {
    let mut s = Scheduler::new(2);
    let b = spawn_running(&mut s);
    let c = spawn_running(&mut s);
    let a = s.spawn().expect("spawn");
    // a stays queued, b finishes cleanly, c suspends on a read
    SocketRead::new(31, 8, Some(9)).subscribe(&mut s, c, 0).expect("subscribed");
    s.finish(b, None);
    s.abort_all(ErrorKind::AllocationError);
    for co in [a, b, c] {
        assert_eq!(s.cos[co].state, CoState::Finished);
    }
    // the coroutine that had finished on its own keeps its clean result
    assert_eq!(s.cos[b].wake, None);
    assert_eq!(s.cos[a].wake, Some(ErrorKind::AllocationError));
    assert_eq!(s.cos[c].wake, Some(ErrorKind::AllocationError));
    // registries emptied, later spawns refused
    assert_eq!(s.ready.len(), 0);
    assert_eq!(s.selector.len(), 0);
    assert_eq!(s.spawn(), Err(ErrorKind::ShutdownError));
}

#[test]
fn subscribe_after_shutdown_fails_fast_with_shutdown_error() {
    let mut s = Scheduler::new(1);
    let co = spawn_running(&mut s);
    s.begin_shutdown();
    // registration after teardown is refused: nothing reaches the
    // backend, the coroutine is woken at once carrying ShutdownError
    let op = SocketRead::new(41, 8, Some(5));
    assert_eq!(op.subscribe(&mut s, co, 0), Err(ErrorKind::ShutdownError));
    assert_eq!(s.selector.len(), 0);
    assert_eq!(s.wake_next_expired(u64::MAX), None, "no timer entry leaked");
    let (popped, st) = s.resume_next(true).expect("woken at once, not lost");
    assert_eq!(popped, co);
    assert!(st.is_ok());
    assert_eq!(s.co_io_result(co), Err(ErrorKind::ShutdownError));
    // the write path refuses the same way
    let mut s2 = Scheduler::new(1);
    let co2 = spawn_running(&mut s2);
    s2.begin_shutdown();
    let wr = UdpSendTo::new(42, 80, None).expect("constructed");
    assert_eq!(wr.subscribe(&mut s2, co2, 0), Err(ErrorKind::ShutdownError));
    assert_eq!(s2.selector.len(), 0);
}

#[test]
fn accept_begin_subscribe_checks_cancel_before_the_os_call() {
    // a token already set fails the subscription before the overlapped
    // call is issued: nothing is ever registered
    let op = TcpListenerAccept::new(5, AddrKind::V4, 9).expect("constructed");
    assert_eq!(op.begin_subscribe(true), Err(ErrorKind::Cancelled));
    assert_eq!(op.ret, None);
    // a clear token lets the call proceed
    assert_eq!(op.begin_subscribe(false), Ok(()));
}

#[test]
fn subscribe_keeps_other_pending_timeouts() {
    // registering one timeout never disturbs another pending one
    let mut s = Scheduler::new(2);
    let a = spawn_running(&mut s);
    let b = spawn_running(&mut s);
    SocketRead::new(61, 8, Some(30)).subscribe(&mut s, a, 0).expect("subscribed");
    SocketRead::new(62, 8, Some(10)).subscribe(&mut s, b, 0).expect("subscribed");
    // both deadlines stand, earliest first
    assert_eq!(s.selector.next_deadline(), Some(10));
    assert_eq!(s.wake_next_expired(10), Some(b));
    assert_eq!(s.selector.next_deadline(), Some(30));
    assert_eq!(s.wake_next_expired(30), Some(a));
}

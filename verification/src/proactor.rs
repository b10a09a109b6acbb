//! The completion proactor backend.
//!
//! The OS call is issued at subscribe time with an attached completion
//! token; the OS owns the operation until it delivers a completion packet
//! carrying that token.  Cancellation must therefore ask the OS to cancel
//! the in-flight operation explicitly — merely dropping interest is not
//! enough — and the decision whether that OS cancel call must be made is
//! taken here.

use vstd::prelude::*;

verus! {

/// An operation the OS currently owns: the completion token that will
/// come back with the packet, the coroutine to wake, the handle the
/// operation runs on, and whether an explicit in-flight cancel has been
/// issued for it.
#[derive(Clone, Copy, Debug, PartialEq, Eq, Structural)]
pub struct PendingOp {
    /// The completion token attached to the OS call.
    pub token: u64,
    /// The coroutine suspended on this operation.
    pub co: usize,
    /// The OS handle the operation was issued on.
    pub handle: u64,
    /// Whether the OS has been asked to cancel this operation in flight.
    pub cancel_issued: bool,
}

/// No two in-flight operations share a completion token.
pub open spec fn distinct_tokens(s: Seq<PendingOp>) -> bool {
    forall|i: int, j: int|
        0 <= i < j < s.len() ==> (#[trigger] s[i]).token != (#[trigger] s[j]).token
}

/// The proactor's book-keeping: every operation issued to the OS and not
/// yet completed or acknowledged as cancelled.
pub struct Proactor {
    ops: Vec<PendingOp>,
}

impl Proactor {
    /// The in-flight operations, in issue order.
    pub closed spec fn ops_view(&self) -> Seq<PendingOp> {
        self.ops@
    }

    /// Whether an operation with this token is in flight.
    pub open spec fn token_pending(&self, token: u64) -> bool {
        exists|k: int| 0 <= k < self.ops_view().len() && (#[trigger] self.ops_view()[k]).token == token
    }

    /// Well-formedness: completion tokens are unique.
    pub open spec fn wf(&self) -> bool {
        distinct_tokens(self.ops_view())
    }

    /// Creates a proactor with nothing in flight.
    pub fn new() -> (p: Proactor)
        ensures
            p.wf(),
            p.ops_view() == Seq::<PendingOp>::empty(),
    {
        Proactor { ops: Vec::new() }
    }

    /// Records an operation just issued to the OS under a fresh token.
    pub fn issue(&mut self, token: u64, co: usize, handle: u64)
        requires
            old(self).wf(),
            !old(self).token_pending(token),
        ensures
            final(self).wf(),
            final(self).ops_view() == old(self).ops_view().push(
                PendingOp { token, co, handle, cancel_issued: false },
            ),
    {
        self.ops.push(PendingOp { token, co, handle, cancel_issued: false });
        proof {
            assert forall|i: int, j: int|
                0 <= i < j < self.ops_view().len() implies (#[trigger] self.ops_view()[i]).token
                != (#[trigger] self.ops_view()[j]).token by {
                if j < old(self).ops_view().len() {
                } else {
                    assert(self.ops_view()[i] == old(self).ops_view()[i]);
                    if self.ops_view()[i].token == token {
                        assert(old(self).token_pending(token));
                    }
                }
            }
        }
    }

    /// Takes the operation a completion packet refers to: the packet's
    /// token identifies it, and it leaves the book-keeping so it can never
    /// complete twice.  A token with nothing in flight — already
    /// completed, or its cancel acknowledged — is ignored.
    pub fn complete(&mut self, token: u64) -> (r: Option<PendingOp>)
        requires
            old(self).wf(),
        ensures
            final(self).wf(),
            match r {
                Option::None => *final(self) == *old(self) && !old(self).token_pending(token),
                Option::Some(op) => op.token == token && !final(self).token_pending(token)
                    && exists|k: int|
                    0 <= k < old(self).ops_view().len() && op == old(self).ops_view()[k] && final(self).ops_view() == #[trigger] old(self).ops_view().remove(k),
            },
    {
        let mut k: usize = 0;
        while k < self.ops.len()
            invariant
                0 <= k <= self.ops@.len(),
                self == old(self),
                self.wf(),
                forall|j: int| 0 <= j < k ==> (#[trigger] self.ops@[j]).token != token,
            decreases self.ops@.len() - k,
        {
            if self.ops[k].token == token {
                let ghost s0 = self.ops@;
                let op = self.ops.remove(k);
                proof {
                    s0.remove_ensures(k as int);
                    assert forall|p: int, q: int|
                        0 <= p < q < self.ops_view().len() implies (
                    #[trigger] self.ops_view()[p]).token != (
                    #[trigger] self.ops_view()[q]).token by {
                        let p0 = if p < k { p } else { p + 1 };
                        let q0 = if q < k { q } else { q + 1 };
                        assert(self.ops_view()[p] == s0[p0] && self.ops_view()[q] == s0[q0]);
                    }
                    assert forall|j: int|
                        0 <= j < self.ops_view().len() implies (
                    #[trigger] self.ops_view()[j]).token != token by {
                        let j0 = if j < k { j } else { j + 1 };
                        assert(self.ops_view()[j] == s0[j0] && j0 != k);
                    }
                }
                return Some(op);
            }
            k = k + 1;
        }
        None
    }

    /// Decides a cancellation against an in-flight operation: marks it and
    /// reports whether the OS's explicit cancel-in-flight primitive must
    /// now be called for its handle.  The OS call is owed exactly when the
    /// operation is still in flight and not already being cancelled; the
    /// completion packet still arrives and is handled by `complete`.
    pub fn cancel_in_flight(&mut self, token: u64) -> (issue_os_cancel: bool)
        requires
            old(self).wf(),
        ensures
            final(self).wf(),
            issue_os_cancel == exists|k: int|
                0 <= k < old(self).ops_view().len() && (#[trigger] old(self).ops_view()[k]).token
                    == token && !old(self).ops_view()[k].cancel_issued,
            !issue_os_cancel ==> *final(self) == *old(self),
            issue_os_cancel ==> exists|k: int|
                0 <= k < old(self).ops_view().len() && (#[trigger] old(self).ops_view()[k]).token
                    == token && final(self).ops_view() == old(self).ops_view().update(
                    k,
                    PendingOp { cancel_issued: true, ..old(self).ops_view()[k] },
                ),
    {
        let mut k: usize = 0;
        while k < self.ops.len()
            invariant
                0 <= k <= self.ops@.len(),
                self == old(self),
                self.wf(),
                forall|j: int| 0 <= j < k ==> (#[trigger] self.ops@[j]).token != token,
            decreases self.ops@.len() - k,
        {
            if self.ops[k].token == token {
                let op = self.ops[k];
                if op.cancel_issued {
                    proof {
                        assert forall|j: int|
                            0 <= j < self.ops@.len() && (#[trigger] self.ops@[j]).token == token
                                && !self.ops@[j].cancel_issued implies false by {
                            if j != k {
                                assert(self.ops@[j].token != self.ops@[k as int].token);
                            }
                        }
                    }
                    return false;
                }
                self.ops[k] = PendingOp {
                    token: op.token,
                    co: op.co,
                    handle: op.handle,
                    cancel_issued: true,
                };
                proof {
                    assert(old(self).ops_view()[k as int].token == token && !old(self).ops_view()[k as int].cancel_issued);
                    assert forall|p: int, q: int|
                        0 <= p < q < self.ops_view().len() implies (
                    #[trigger] self.ops_view()[p]).token != (
                    #[trigger] self.ops_view()[q]).token by {
                        assert(old(self).ops_view()[p].token != old(self).ops_view()[q].token);
                    }
                }
                return true;
            }
            k = k + 1;
        }
        proof {
            assert(!old(self).token_pending(token));
        }
        false
    }
}

} // verus!

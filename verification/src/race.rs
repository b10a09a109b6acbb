//! The completion/cancellation race.
//!
//! Each pending subscription owns a tri-state shared between the event
//! descriptor and the cancellation token.  Natural completion and
//! cancellation both go through a compare-and-set on this state, and
//! deregistration is gated on winning it, so exactly one of the two can
//! ever claim a given subscription.

use vstd::prelude::*;

verus! {

/// The tri-state owned jointly by an event descriptor and the cancellation
/// token attached to its coroutine.
#[derive(Clone, Copy, Debug, PartialEq, Eq, Structural)]
pub enum RaceState {
    /// The subscription is live: neither side has claimed it.
    Pending,
    /// Natural completion won; the waker delivers the operation's result.
    Completed,
    /// Cancellation won; the waker delivers `ErrorKind::Cancelled`.
    Cancelled,
}

/// What a natural completion does to the race state: it claims the
/// subscription exactly when the state is still `Pending`.
pub open spec fn complete_step(r: RaceState) -> (RaceState, bool) {
    if r is Pending {
        (RaceState::Completed, true)
    } else {
        (r, false)
    }
}

/// What a cancellation does to the race state: it claims the subscription
/// exactly when the state is still `Pending`.
pub open spec fn cancel_step(r: RaceState) -> (RaceState, bool) {
    if r is Pending {
        (RaceState::Cancelled, true)
    } else {
        (r, false)
    }
}

/// Compare-and-set for natural completion: wins, and may deregister the
/// descriptor, if and only if the state was still `Pending`.
pub fn try_complete(r: &mut RaceState) -> (won: bool)
    ensures
        (*final(r), won) == complete_step(*old(r)),
        won <==> *old(r) is Pending,
{
    match *r {
        RaceState::Pending => {
            *r = RaceState::Completed;
            true
        }
        _ => false,
    }
}

/// Compare-and-set for cancellation: wins, and may deregister the
/// descriptor, if and only if the state was still `Pending`.
pub fn try_cancel(r: &mut RaceState) -> (won: bool)
    ensures
        (*final(r), won) == cancel_step(*old(r)),
        won <==> *old(r) is Pending,
{
    match *r {
        RaceState::Pending => {
            *r = RaceState::Cancelled;
            true
        }
        _ => false,
    }
}

/// Exactly one of natural completion and cancellation wins a live
/// subscription, never both and never neither, whichever order the two
/// claims reach the shared state in; and the final state records the
/// winner.
pub proof fn lemma_race_exclusive(r0: RaceState)
    requires
        r0 is Pending,
    ensures
        ({
            let (r1, complete_won) = complete_step(r0);
            let (r2, cancel_won) = cancel_step(r1);
            complete_won && !cancel_won && r2 is Completed
        }),
        ({
            let (r1, cancel_won) = cancel_step(r0);
            let (r2, complete_won) = complete_step(r1);
            cancel_won && !complete_won && r2 is Cancelled
        }),
{
}

/// A claimed subscription can never be claimed again: both steps leave a
/// non-`Pending` state unchanged and report no win.
pub proof fn lemma_race_settled(r: RaceState)
    requires
        !(r is Pending),
    ensures
        complete_step(r) == (r, false),
        cancel_step(r) == (r, false),
{
}

} // verus!

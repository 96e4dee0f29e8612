//! The decisions of a bounded retry with a fixed pause: after each failed
//! attempt, wait and try again, or give up and hand back the failure.
use vstd::prelude::*;

verus! {

/// The pause between two attempts, in milliseconds.
pub const RETRY_DELAY_MS: u64 = 500;

/// What to do after a failed attempt.
#[derive(Clone, Copy, Debug, PartialEq, Eq, Structural)]
pub enum RetryAction {
    /// Pause this many milliseconds, then try again.
    Wait(u64),
    /// Stop and return the last failure.
    GiveUp,
}

/// The action after failed attempt number `tries` (counted from 1) under a
/// bound of `max_tries` attempts.
pub open spec fn action_after(tries: int, max_tries: int) -> RetryAction {
    if tries >= max_tries {
        RetryAction::GiveUp
    } else {
        RetryAction::Wait(RETRY_DELAY_MS)
    }
}

/// The state of one retrying call.
pub struct Retry {
    pub tries: i32,
    pub max_tries: i32,
}

impl Retry {
    /// Attempts may go on: none has failed yet, or fewer than the bound.
    pub open spec fn wf(&self) -> bool {
        0 <= self.tries && (self.tries == 0 || self.tries < self.max_tries)
    }

    pub fn new(max_tries: i32) -> (r: Retry)
        ensures
            r.tries == 0,
            r.max_tries == max_tries,
            r.wf(),
    {
        Retry { tries: 0, max_tries }
    }

    /// Records a failed attempt and decides whether to try again. A bound
    /// below one allows a single attempt.
    pub fn on_failure(&mut self) -> (r: RetryAction)
        requires
            old(self).wf(),
        ensures
            final(self).tries == old(self).tries + 1,
            final(self).max_tries == old(self).max_tries,
            r == action_after(final(self).tries as int, final(self).max_tries as int),
            r is Wait <==> final(self).wf(),
    {
        self.tries = self.tries + 1;
        if self.tries >= self.max_tries {
            RetryAction::GiveUp
        } else {
            RetryAction::Wait(RETRY_DELAY_MS)
        }
    }
}

/// An operation that fails every time is attempted exactly
/// `max(max_tries, 1)` times: failure number `k` is followed by the fixed
/// pause while `k` is below that count, and by giving up once it is reached.
pub proof fn lemma_attempts_when_always_failing(max_tries: int, k: int)
    requires
        1 <= k,
    ensures
        action_after(k, max_tries) == (if k >= (if max_tries < 1 { 1 } else { max_tries }) {
            RetryAction::GiveUp
        } else {
            RetryAction::Wait(RETRY_DELAY_MS)
        }),
{
}

} // verus!

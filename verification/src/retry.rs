use vstd::prelude::*;

verus! {

/// How often, and after what pause, a request to the model is sent again
/// after it failed in transport.
#[derive(Clone, Copy, Debug, PartialEq, Eq, Structural)]
pub struct RetryPolicy {
    /// The most times that a request is sent again.
    pub max_retries: u32,
    /// The pause before the first retry, in milliseconds.
    pub base_delay_ms: u64,
}

/// What follows a failed request.
#[derive(Clone, Copy, Debug, PartialEq, Eq, Structural)]
pub enum RetryDecision {
    /// Send the request again after this many milliseconds.
    RetryAfter(u64),
    /// Send it no more: the failure ends the session.
    GiveUp,
}

/// `base` doubled `times` times.
pub open spec fn doubled(base: nat, times: nat) -> nat
    decreases times,
{
    if times == 0 {
        base
    } else {
        2 * doubled(base, (times - 1) as nat)
    }
}

/// The pause before the retry that follows the given number of failures:
/// the base pause, doubled with every failure after the first, and no
/// more than a `u64` holds.
pub open spec fn backoff(base_delay_ms: u64, failures: u32) -> u64
    recommends
        failures >= 1,
{
    let d = doubled(base_delay_ms as nat, (failures - 1) as nat);
    if d > u64::MAX {
        u64::MAX
    } else {
        d as u64
    }
}

impl RetryPolicy {
    /// What follows when a request has failed `failures` times: a retry
    /// while no more than `max_retries` requests have failed, else the end.
    pub open spec fn decision(self, failures: u32) -> RetryDecision {
        if 1 <= failures <= self.max_retries {
            RetryDecision::RetryAfter(backoff(self.base_delay_ms, failures))
        } else {
            RetryDecision::GiveUp
        }
    }

    /// Decides what follows when a request has failed `failures` times.
    pub fn after_failure(&self, failures: u32) -> (d: RetryDecision)
        ensures
            d == self.decision(failures),
    {
        if failures < 1 || failures > self.max_retries {
            return RetryDecision::GiveUp;
        }
        let mut delay: u64 = self.base_delay_ms;
        let mut i: u32 = 1;
        while i < failures
            invariant
                1 <= i <= failures,
                delay == backoff(self.base_delay_ms, i),
            decreases failures - i,
        {
            proof {
                lemma_doubled_grows(self.base_delay_ms as nat, (i - 1) as nat);
            }
            delay = if delay > u64::MAX / 2 {
                u64::MAX
            } else {
                delay * 2
            };
            i += 1;
        }
        RetryDecision::RetryAfter(delay)
    }
}

/// Doubling once more never gives less.
pub proof fn lemma_doubled_grows(base: nat, times: nat)
    ensures
        doubled(base, times + 1) == 2 * doubled(base, times),
        doubled(base, times + 1) >= doubled(base, times),
{
}

/// A request is sent at most `max_retries + 1` times: after that many
/// failures no retry follows.
pub proof fn lemma_retries_are_bounded(policy: RetryPolicy, failures: u32)
    requires
        failures > policy.max_retries,
    ensures
        policy.decision(failures) == RetryDecision::GiveUp,
{
}

/// The pause never gets shorter from one retry to the next.
pub proof fn lemma_backoff_grows(base_delay_ms: u64, failures: u32)
    requires
        1 <= failures < u32::MAX,
    ensures
        backoff(base_delay_ms, failures) <= backoff(base_delay_ms, (failures + 1) as u32),
{
    lemma_doubled_grows(base_delay_ms as nat, (failures - 1) as nat);
}

} // verus!

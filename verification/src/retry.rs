//! Reconnecting after a failed tunnel run: exponential backoff and when to
//! give up.
use vstd::prelude::*;

verus! {

/// Retry forever.
pub const MAX_RETRIES: u32 = 0xffff_ffffu32;

/// Wait before the first retry, in seconds.
pub const INITIAL_BACKOFF_SECS: u64 = 2;

/// Longest wait between retries, in seconds.
pub const MAX_BACKOFF_SECS: u64 = 60;

/// `2^n`.
pub open spec fn two_pow(n: nat) -> nat
    decreases n,
{
    if n == 0 {
        1
    } else {
        2 * two_pow((n - 1) as nat)
    }
}

/// Seconds to wait after failure number `attempt` (counted from 1): the
/// initial wait doubled for each failure up to the tenth, capped at
/// `MAX_BACKOFF_SECS`.
pub open spec fn backoff(attempt: nat) -> nat {
    let e: nat = if attempt < 10 { (attempt - 1) as nat } else { 9 };
    let d: nat = (INITIAL_BACKOFF_SECS * two_pow(e)) as nat;
    if d < MAX_BACKOFF_SECS { d } else { MAX_BACKOFF_SECS as nat }
}

/// The wait after failure number `attempt`.
pub fn backoff_secs(attempt: u32) -> (secs: u64)
    requires
        attempt >= 1,
    ensures
        secs == backoff(attempt as nat),
{
    let e: u32 = if attempt < 10 {
        attempt - 1
    } else {
        9
    };
    let mut p: u64 = 1;
    let mut i: u32 = 0;
    while i < e
        invariant
            e <= 9,
            i <= e,
            p == two_pow(i as nat),
            p <= 512,
        decreases e - i,
    {
        proof {
            lemma_two_pow_bound((i + 1) as nat);
        }
        p = p * 2;
        i = i + 1;
    }
    let d = INITIAL_BACKOFF_SECS * p;
    if d < MAX_BACKOFF_SECS {
        d
    } else {
        MAX_BACKOFF_SECS
    }
}

/// `2^n` stays within `2^9` for `n <= 9`.
proof fn lemma_two_pow_bound(n: nat)
    requires
        n <= 9,
    ensures
        two_pow(n) <= 512,
        n > 0 ==> two_pow(n) == 2 * two_pow((n - 1) as nat),
{
    lemma_two_pow_monotone(n, 9);
    reveal_with_fuel(two_pow, 10);
}

/// `2^n` grows with `n`.
proof fn lemma_two_pow_monotone(a: nat, b: nat)
    requires
        a <= b,
    ensures
        two_pow(a) <= two_pow(b),
    decreases b,
{
    if a < b {
        lemma_two_pow_monotone(a, (b - 1) as nat);
    }
}

/// What the retry loop does after a run ends.
#[derive(Debug, Clone, Copy, PartialEq, Eq, Structural)]
pub enum RetryDecision {
    /// The run completed normally: stop.
    Finished,
    /// Too many failures: stop with the last error.
    GiveUp,
    /// Wait this many seconds, then run again.
    RetryAfter(u64),
}

/// Failures counted so far, against the allowed number of retries.
pub struct RetryState {
    attempt: u32,
    max_retries: u32,
}

impl RetryState {
    /// Failures counted so far.
    pub closed spec fn attempts(&self) -> u32 {
        self.attempt
    }

    /// Retries allowed.
    pub closed spec fn limit(&self) -> u32 {
        self.max_retries
    }

    /// No failure yet.
    pub fn new(max_retries: u32) -> (s: Self)
        ensures
            s.attempts() == 0,
            s.limit() == max_retries,
    {
        RetryState { attempt: 0, max_retries }
    }

    /// Failures counted so far.
    pub fn attempt(&self) -> (a: u32)
        ensures
            a == self.attempts(),
    {
        self.attempt
    }

    /// Record how a run ended: success stops; a failure is counted and
    /// either ends the loop, once more failures than allowed retries have
    /// happened, or asks for a retry after the backoff for that failure.
    pub fn on_outcome(&mut self, succeeded: bool) -> (d: RetryDecision)
        requires
            !succeeded ==> old(self).attempts() < u32::MAX,
        ensures
            final(self).limit() == old(self).limit(),
            succeeded ==> d == RetryDecision::Finished && final(self).attempts() == old(
                self,
            ).attempts(),
            !succeeded ==> final(self).attempts() == old(self).attempts() + 1,
            !succeeded ==> d == if final(self).attempts() > old(self).limit() {
                RetryDecision::GiveUp
            } else {
                RetryDecision::RetryAfter(backoff(final(self).attempts() as nat) as u64)
            },
    {
        if succeeded {
            return RetryDecision::Finished;
        }
        self.attempt = self.attempt + 1;
        if self.attempt > self.max_retries {
            RetryDecision::GiveUp
        } else {
            RetryDecision::RetryAfter(backoff_secs(self.attempt))
        }
    }
}

/// The wait never shrinks from one failure to the next, starts at the
/// initial backoff and never exceeds the cap.
pub proof fn lemma_backoff_grows_within_bounds(a: nat, b: nat)
    requires
        1 <= a <= b,
    ensures
        backoff(a) <= backoff(b),
        backoff(1) == INITIAL_BACKOFF_SECS,
        INITIAL_BACKOFF_SECS <= backoff(a) <= MAX_BACKOFF_SECS,
{
    let ea: nat = if a < 10 { (a - 1) as nat } else { 9 };
    let eb: nat = if b < 10 { (b - 1) as nat } else { 9 };
    lemma_two_pow_monotone(ea, eb);
    lemma_two_pow_monotone(0, ea);
    assert(two_pow(0) == 1);
}

} // verus!

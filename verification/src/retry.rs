//! Retry schedule of a recording session: how many attempts a stream gets
//! and how long to wait before each new attempt.

use vstd::prelude::*;
use vstd::arithmetic::power2::{pow2, lemma2_to64, lemma_pow2_strictly_increases, lemma_pow2_adds};
use vstd::bits::lemma_u64_shl_is_mul;

verus! {

/// Largest exponent of the doubling delay: waits stop growing at 2^6 = 64 seconds.
pub const BACKOFF_EXPONENT_CAP: u32 = 6;

/// Exponent of the doubling delay before the `retry_count`-th retry (`retry_count >= 2`).
pub open spec fn backoff_exponent(retry_count: nat) -> nat {
    if retry_count - 2 < BACKOFF_EXPONENT_CAP as int {
        (retry_count - 2) as nat
    } else {
        BACKOFF_EXPONENT_CAP as nat
    }
}

/// Seconds to wait before the `retry_count`-th retry: the first retry is
/// immediate, later ones wait 1, 2, 4, ... seconds, capped at 64 seconds and
/// at the configured `retry_delay`.
pub open spec fn backoff_delay(retry_count: nat, retry_delay: nat) -> nat {
    if retry_count <= 1 {
        0
    } else {
        let base = pow2(backoff_exponent(retry_count));
        if base <= retry_delay { base } else { retry_delay }
    }
}

/// Whether one more attempt is allowed after `retry_count` failures
/// (`max_retries == 0` means that retries never run out).
pub open spec fn attempts_left(retry_count: nat, max_retries: nat) -> bool {
    max_retries == 0 || retry_count < max_retries
}

/// What the recording loop does after a failed attempt.
#[derive(Debug, Clone, Copy, PartialEq, Eq, Structural)]
pub enum RetryDecision {
    /// Try again after waiting this many seconds (0: at once).
    RetryAfter(u64),
    /// No attempts are left.
    GiveUp,
}

/// Failure counter of one recording session.
pub struct RetryState {
    pub retry_count: u32,
}

/// Computes the wait before the `retry_count`-th retry (see `backoff_delay`).
pub fn retry_delay_seconds(retry_count: u32, retry_delay: u64) -> (delay: u64)
    requires
        retry_count >= 1,
    ensures
        delay == backoff_delay(retry_count as nat, retry_delay as nat),
{
    if retry_count == 1 {
        0
    } else {
        let shift: u32 = if retry_count - 2 < BACKOFF_EXPONENT_CAP {
            retry_count - 2
        } else {
            BACKOFF_EXPONENT_CAP
        };
        proof {
            lemma_pow2_small(shift as nat);
            lemma_u64_shl_is_mul(1u64, shift as u64);
        }
        let exponential_delay: u64 = 1u64 << (shift as u64);
        if exponential_delay <= retry_delay {
            exponential_delay
        } else {
            retry_delay
        }
    }
}

/// Powers of two up to 2^6 are at most 64.
pub proof fn lemma_pow2_small(e: nat)
    requires
        e <= 6,
    ensures
        1 <= pow2(e) <= 64,
{
    lemma2_to64();
    if e < 6 {
        lemma_pow2_strictly_increases(e, 6);
    }
    if e > 0 {
        lemma_pow2_strictly_increases(0, e);
    }
}

impl RetryState {
    /// A session that has not failed yet.
    pub fn new() -> (s: Self)
        ensures
            s.retry_count == 0,
    {
        RetryState { retry_count: 0 }
    }

    /// Whether the loop makes another attempt: the session must still be
    /// recording and attempts must be left.
    pub fn may_attempt(&self, is_recording: bool, max_retries: u32) -> (b: bool)
        ensures
            b == (is_recording && attempts_left(self.retry_count as nat, max_retries as nat)),
    {
        is_recording && (max_retries == 0 || self.retry_count < max_retries)
    }

    /// Records a failed attempt and decides what follows it.
    pub fn after_failure(&mut self, max_retries: u32, retry_delay: u64) -> (d: RetryDecision)
        requires
            old(self).retry_count < u32::MAX,
        ensures
            final(self).retry_count == old(self).retry_count + 1,
            attempts_left(final(self).retry_count as nat, max_retries as nat) ==> d
                == RetryDecision::RetryAfter(
                backoff_delay(final(self).retry_count as nat, retry_delay as nat) as u64,
            ),
            !attempts_left(final(self).retry_count as nat, max_retries as nat) ==> d
                == RetryDecision::GiveUp,
    {
        self.retry_count = self.retry_count + 1;
        if max_retries == 0 || self.retry_count < max_retries {
            let delay = retry_delay_seconds(self.retry_count, retry_delay);
            RetryDecision::RetryAfter(delay)
        } else {
            RetryDecision::GiveUp
        }
    }

    /// Whether a bounded retry budget has been used up (the loop then reports it).
    pub fn retries_exhausted(&self, max_retries: u32) -> (b: bool)
        ensures
            b == (max_retries > 0 && self.retry_count >= max_retries),
    {
        max_retries > 0 && self.retry_count >= max_retries
    }
}

/// The first retry happens at once; every wait is at most the configured
/// `retry_delay` and at most 64 seconds.
pub proof fn law_backoff_bounds(retry_count: nat, retry_delay: nat)
    ensures
        retry_count == 1 ==> backoff_delay(retry_count, retry_delay) == 0,
        backoff_delay(retry_count, retry_delay) <= retry_delay,
        backoff_delay(retry_count, retry_delay) <= 64,
{
    if retry_count > 1 {
        lemma_pow2_small(backoff_exponent(retry_count));
    }
}

/// Waits never shrink as failures accumulate.
pub proof fn law_backoff_monotone(n: nat, m: nat, retry_delay: nat)
    requires
        n <= m,
    ensures
        backoff_delay(n, retry_delay) <= backoff_delay(m, retry_delay),
{
    if n > 1 {
        let en = backoff_exponent(n);
        let em = backoff_exponent(m);
        if en < em {
            lemma_pow2_strictly_increases(en, em);
        }
    }
}

/// Before the cap is reached, each retry waits twice as long as the one before
/// it, as long as the configured `retry_delay` does not cut the wait.
pub proof fn law_backoff_doubles(n: nat, retry_delay: nat)
    requires
        2 <= n,
        n - 2 < BACKOFF_EXPONENT_CAP,
        pow2((n - 1) as nat) <= retry_delay,
    ensures
        backoff_delay(n + 1, retry_delay) == 2 * backoff_delay(n, retry_delay),
{
    let e = (n - 2) as nat;
    lemma_pow2_adds(e, 1);
    lemma2_to64();
    lemma_pow2_strictly_increases(e, (e + 1) as nat);
}

/// With a bounded budget of `m > 0` retries, a session that starts with no
/// failures makes exactly `m` attempts before the loop stops: after `k`
/// failures another attempt is allowed precisely when `k < m`.
pub proof fn law_retry_budget(k: nat, m: nat)
    requires
        m > 0,
    ensures
        attempts_left(k, m) <==> k < m,
        attempts_left(0, m),
        !attempts_left(m, m),
{
}

/// With `max_retries == 0` attempts never run out.
pub proof fn law_unbounded_retries(k: nat)
    ensures
        attempts_left(k, 0),
{
}

} // verus!

//! Retry policy: capped attempts with bounded backoff.
//!
//! The delay before attempt `k + 1` (after failed attempt `k`, 1-indexed)
//! is `min(max_delay, initial * m^(k-1))`, where the multiplier `m` is 1
//! for constant and linear backoff and 2 for exponential backoff. No delay
//! follows the final attempt. The waiting itself is a suspension point and
//! belongs to the driver running the attempts; the policy only says how
//! long each pause is.

use vstd::prelude::*;
use crate::workflow::{RetryConfig, BackoffStrategy};

verus! {

/// A bounded-backoff retry policy.
#[derive(Debug, Clone, PartialEq, Eq, Structural)]
pub struct RetryPolicy {
    /// Total number of attempts, including the first.
    pub max_attempts: u32,
    /// Delay before the second attempt, in milliseconds.
    pub initial_delay_ms: u64,
    /// Factor the delay grows by between attempts (1 or 2).
    pub multiplier: u64,
    /// Upper bound on any delay, in milliseconds.
    pub max_delay_ms: u64,
}

/// `base * m^e`, capped at `cap`: the mathematical delay value.
pub open spec fn spec_backoff_delay(base: nat, m: nat, e: nat, cap: nat) -> nat
    decreases e,
{
    if e == 0 {
        if base <= cap {
            base
        } else {
            cap
        }
    } else {
        let prev = spec_backoff_delay(base, m, (e - 1) as nat, cap);
        if prev * m <= cap {
            prev * m
        } else {
            cap
        }
    }
}

impl RetryPolicy {
    /// A policy of three attempts, 100 ms initial delay, doubling up to a
    /// cap of 30 s.
    pub fn new_default() -> (r: RetryPolicy)
        ensures
            r.max_attempts == 3,
            r.initial_delay_ms == 100,
            r.multiplier == 2,
            r.max_delay_ms == 30000,
    {
        RetryPolicy { max_attempts: 3, initial_delay_ms: 100, multiplier: 2, max_delay_ms: 30000 }
    }

    /// Builds a policy.
    pub fn new(max_attempts: u32, initial_delay_ms: u64, multiplier: u64, max_delay_ms: u64) -> (r: RetryPolicy)
        ensures
            r == (RetryPolicy { max_attempts, initial_delay_ms, multiplier, max_delay_ms }),
    {
        RetryPolicy { max_attempts, initial_delay_ms, multiplier, max_delay_ms }
    }

    /// The policy a step's retry config stands for: constant and linear
    /// backoff keep the delay, exponential backoff doubles it.
    pub fn from_config(cfg: &RetryConfig) -> (r: RetryPolicy)
        ensures
            r.max_attempts == cfg.max_attempts,
            r.initial_delay_ms == cfg.initial_delay_ms,
            r.max_delay_ms == cfg.max_delay_ms,
            r.multiplier == (if cfg.backoff is Exponential { 2int } else { 1int }),
    {
        let multiplier: u64 = match cfg.backoff {
            BackoffStrategy::Exponential => 2,
            BackoffStrategy::Linear => 1,
            BackoffStrategy::Constant => 1,
        };
        RetryPolicy {
            max_attempts: cfg.max_attempts,
            initial_delay_ms: cfg.initial_delay_ms,
            multiplier,
            max_delay_ms: cfg.max_delay_ms,
        }
    }

    /// The delay after failed attempt `attempt` (1-indexed), in
    /// milliseconds: `min(max_delay, initial * multiplier^(attempt-1))`.
    pub fn delay_after_attempt_ms(&self, attempt: u32) -> (r: u64)
        requires
            attempt >= 1,
        ensures
            r == spec_backoff_delay(
                self.initial_delay_ms as nat,
                self.multiplier as nat,
                (attempt - 1) as nat,
                self.max_delay_ms as nat,
            ),
            r <= self.max_delay_ms || r == self.initial_delay_ms,
    {
        let mut delay: u64 = if self.initial_delay_ms <= self.max_delay_ms {
            self.initial_delay_ms
        } else {
            self.max_delay_ms
        };
        let mut e: u32 = 0;
        let target = attempt - 1;
        while e < target
            invariant
                0 <= e <= target,
                delay == spec_backoff_delay(
                    self.initial_delay_ms as nat,
                    self.multiplier as nat,
                    e as nat,
                    self.max_delay_ms as nat,
                ),
                delay <= self.max_delay_ms || delay == self.initial_delay_ms,
            decreases target - e,
        {
            let next = if self.multiplier != 0 && delay <= u64::MAX / self.multiplier {
                proof {
                    assert((delay as int) * (self.multiplier as int) <= u64::MAX as int)
                        by (nonlinear_arith)
                        requires
                            0 <= delay as int <= u64::MAX as int / self.multiplier as int,
                            self.multiplier as int >= 1,
                    {};
                }
                let grown = delay * self.multiplier;
                if grown <= self.max_delay_ms {
                    grown
                } else {
                    self.max_delay_ms
                }
            } else if self.multiplier == 0 {
                0
            } else {
                // growth overflows u64, so it certainly exceeds the cap
                proof {
                    vstd::arithmetic::mul::lemma_mul_inequality(
                        (u64::MAX / self.multiplier + 1) as int,
                        delay as int,
                        self.multiplier as int,
                    );
                    assert((delay as int) * (self.multiplier as int) > u64::MAX) by (nonlinear_arith)
                        requires
                            delay as int > u64::MAX as int / self.multiplier as int,
                            self.multiplier >= 1,
                    {};
                }
                self.max_delay_ms
            };
            delay = next;
            e = e + 1;
        }
        delay
    }

    /// The planned delays of a whole run: one entry after each failed
    /// attempt but the last. A single-attempt policy never pauses.
    pub fn delay_schedule_ms(&self) -> (r: Vec<u64>)
        requires
            self.max_attempts >= 1,
        ensures
            r@.len() == self.max_attempts - 1,
            forall|k: int| 0 <= k < r@.len() ==> #[trigger] r@[k] == spec_backoff_delay(
                self.initial_delay_ms as nat,
                self.multiplier as nat,
                k as nat,
                self.max_delay_ms as nat,
            ),
    {
        let mut out: Vec<u64> = Vec::new();
        let mut a: u32 = 1;
        while a < self.max_attempts
            invariant
                1 <= a <= self.max_attempts,
                out@.len() == a - 1,
                forall|k: int| 0 <= k < out@.len() ==> #[trigger] out@[k] == spec_backoff_delay(
                    self.initial_delay_ms as nat,
                    self.multiplier as nat,
                    k as nat,
                    self.max_delay_ms as nat,
                ),
            decreases self.max_attempts - a,
        {
            out.push(self.delay_after_attempt_ms(a));
            a = a + 1;
        }
        out
    }
}

/// With one attempt allowed, the schedule is empty: no pause is ever made.
pub proof fn lemma_single_attempt_never_sleeps(p: RetryPolicy, schedule: Seq<u64>)
    requires
        p.max_attempts == 1,
        schedule.len() == p.max_attempts - 1,
    ensures
        schedule.len() == 0,
{
}

} // verus!

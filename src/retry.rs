//! The retry gate and its exponential backoff.

use vstd::prelude::*;

use crate::task::SyncData;

verus! {

/// The longest wait before an attempt, in seconds.
pub const MAX_BACKOFF_SECONDS: u64 = 30;

pub open spec fn pow2(n: nat) -> nat
    decreases n,
{
    if n == 0 {
        1
    } else {
        2 * pow2((n - 1) as nat)
    }
}

/// Seconds to wait before the attempt of a task that failed `retries`
/// times: none before the first attempt, then `min(30, 2^(retries - 1))`.
pub open spec fn backoff_seconds(retries: nat) -> nat {
    if retries == 0 {
        0
    } else if pow2((retries - 1) as nat) <= MAX_BACKOFF_SECONDS {
        pow2((retries - 1) as nat)
    } else {
        MAX_BACKOFF_SECONDS as nat
    }
}

/// `Σ_{i=1..k-1} min(30, 2^(i-1))`.
pub open spec fn capped_pow2_sum(k: nat) -> nat
    decreases k,
{
    if k <= 1 {
        0
    } else {
        capped_pow2_sum((k - 1) as nat) + if pow2((k - 2) as nat) <= 30 {
            pow2((k - 2) as nat)
        } else {
            30
        }
    }
}

/// Seconds waited in all by a task whose attempts had failed `0`, `1`, ...,
/// `k - 1` times before them.
pub open spec fn total_backoff(k: nat) -> nat
    decreases k,
{
    if k == 0 {
        0
    } else {
        total_backoff((k - 1) as nat) + backoff_seconds((k - 1) as nat)
    }
}

/// Whether a task that failed `retries` times is attempted again.
pub open spec fn attempt_allowed(retries: nat, max_sync_errors: nat) -> bool {
    retries < max_sync_errors
}

/// Number of attempts of a task that was handed to the retry gate `k`
/// times, each time with one failure more than before.
pub open spec fn attempts(k: nat, max_sync_errors: nat) -> nat
    decreases k,
{
    if k == 0 {
        0
    } else {
        attempts((k - 1) as nat, max_sync_errors) + if attempt_allowed(
            (k - 1) as nat,
            max_sync_errors,
        ) {
            1nat
        } else {
            0nat
        }
    }
}

/// What the retry gate decides for a task.
pub enum RetryDecision<T> {
    /// Attempt the task after waiting `wait_seconds`.
    Proceed { wait_seconds: u64, task: SyncData<T> },
    /// The task failed too often: give it up.
    GiveUp(SyncData<T>),
}

/// Computes `backoff_seconds(retries)`.
pub fn backoff_for(retries: u32) -> (r: u64)
    ensures
        r == backoff_seconds(retries as nat),
{
    if retries == 0 {
        return 0;
    }
    let mut wait: u64 = 1;
    let mut i: u32 = 1;
    while i < retries && wait <= MAX_BACKOFF_SECONDS
        invariant
            1 <= i <= retries,
            wait == pow2((i - 1) as nat),
            wait <= 2 * MAX_BACKOFF_SECONDS,
        decreases retries - i,
    {
        wait = wait * 2;
        i = i + 1;
    }
    if wait <= MAX_BACKOFF_SECONDS {
        proof {
            assert(i == retries);
        }
        wait
    } else {
        proof {
            lemma_pow2_monotone((i - 1) as nat, (retries - 1) as nat);
        }
        MAX_BACKOFF_SECONDS
    }
}

proof fn lemma_pow2_monotone(a: nat, b: nat)
    requires
        a <= b,
    ensures
        pow2(a) <= pow2(b),
    decreases b - a,
{
    if a < b {
        lemma_pow2_monotone(a, (b - 1) as nat);
    }
}

/// The retry gate: a task that failed `max_sync_errors` times or more is
/// given up; any other is attempted, after `backoff_seconds(retries)`.
pub fn validate_task_retries<T>(sync_data: SyncData<T>, max_sync_errors: u32) -> (r: RetryDecision<
    T,
>)
    requires
        max_sync_errors > 0,
    ensures
        attempt_allowed(sync_data.retries as nat, max_sync_errors as nat) ==> r == (
        RetryDecision::Proceed {
            wait_seconds: backoff_seconds(sync_data.retries as nat) as u64,
            task: sync_data,
        }),
        !attempt_allowed(sync_data.retries as nat, max_sync_errors as nat) ==> r
            == RetryDecision::GiveUp(sync_data),
{
    let current_attempt = sync_data.retries;
    if current_attempt >= max_sync_errors {
        return RetryDecision::GiveUp(sync_data);
    }
    let wait_seconds = backoff_for(current_attempt);
    RetryDecision::Proceed { wait_seconds, task: sync_data }
}

/// The waits before the attempts of a task add up to
/// `Σ_{i=1..k-1} min(30, 2^(i-1))` seconds once it reached `k` tries.
pub proof fn lemma_total_backoff(k: nat)
    ensures
        total_backoff(k) == capped_pow2_sum(k),
    decreases k,
{
    if k > 0 {
        lemma_total_backoff((k - 1) as nat);
    }
}

/// A task handed to the retry gate `k` times, with one more failure each
/// time, is attempted `min(k, max_sync_errors)` times, so never more than
/// `max_sync_errors` times.
pub proof fn lemma_attempts_bounded(k: nat, max_sync_errors: nat)
    ensures
        attempts(k, max_sync_errors) <= max_sync_errors,
        attempts(k, max_sync_errors) == if k <= max_sync_errors {
            k
        } else {
            max_sync_errors
        },
    decreases k,
{
    if k > 0 {
        lemma_attempts_bounded((k - 1) as nat, max_sync_errors);
    }
}

} // verus!

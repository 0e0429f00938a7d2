//! Retry / failover decision for failed upstream connection attempts.
//!
//! A rule's load balancer carries two optional budgets: a maximum number of
//! retries and a wall-clock time budget counted from the creation of the
//! request context.  `max_retries` of `None` means no retry policy is
//! configured at all and a failure is never retried; `Some(0)` allows zero
//! retries explicitly.  The attempt-count check precedes the time-budget
//! check, so when both budgets are exhausted the attempt count is the
//! reason reported.

use vstd::prelude::*;

verus! {

/// Outcome of the retry decision, run once per failed connect attempt.
#[derive(Clone, Copy, Debug, PartialEq, Eq, Structural)]
pub enum RetryDecision {
    /// The matched rule has no retry policy configured; the failure is terminal.
    NoRetryPolicy,
    /// The allowed number of retries has been used up; the failure is terminal.
    ExhaustedAttempts,
    /// The wall-clock budget since context creation has run out; the failure is terminal.
    ExhaustedTime,
    /// The failure may be retried; the caller re-enters peer selection.
    Retry,
}

/// Milliseconds elapsed since the context was created; a clock that moved
/// backwards counts as no time elapsed.
pub open spec fn spec_elapsed_ms(created_at: u64, now_ms: u64) -> int {
    if now_ms >= created_at {
        now_ms - created_at
    } else {
        0
    }
}

/// The retry decision as a function of the rule's budgets and the
/// request's state: no policy means never retry; an exhausted attempt
/// count is checked before an exhausted time budget; otherwise the
/// attempt may be retried.
pub open spec fn spec_retry_decision(
    max_retries: Option<usize>,
    retry_timeout_seconds: Option<u64>,
    tries: usize,
    created_at: u64,
    now_ms: u64,
) -> RetryDecision {
    match max_retries {
        Option::None => RetryDecision::NoRetryPolicy,
        Option::Some(m) => if m == 0 || tries >= m {
            RetryDecision::ExhaustedAttempts
        } else {
            match retry_timeout_seconds {
                Option::Some(t) => if spec_elapsed_ms(created_at, now_ms) > t * 1000 {
                    RetryDecision::ExhaustedTime
                } else {
                    RetryDecision::Retry
                },
                Option::None => RetryDecision::Retry,
            }
        },
    }
}

/// Runs the retry decision on explicit budget and state values.
pub fn decide_retry(
    max_retries: Option<usize>,
    retry_timeout_seconds: Option<u64>,
    tries: usize,
    created_at: u64,
    now_ms: u64,
) -> (d: RetryDecision)
    ensures
        d == spec_retry_decision(max_retries, retry_timeout_seconds, tries, created_at, now_ms),
{
    match max_retries {
        None => RetryDecision::NoRetryPolicy,
        Some(m) => {
            if m == 0 || tries >= m {
                RetryDecision::ExhaustedAttempts
            } else {
                match retry_timeout_seconds {
                    Some(t) => {
                        let elapsed: u64 = if now_ms >= created_at {
                            now_ms - created_at
                        } else {
                            0
                        };
                        match t.checked_mul(1000) {
                            Some(budget) => {
                                if elapsed > budget {
                                    RetryDecision::ExhaustedTime
                                } else {
                                    RetryDecision::Retry
                                }
                            },
                            // The budget exceeds the representable range, so no
                            // elapsed time can run past it.
                            None => RetryDecision::Retry,
                        }
                    },
                    None => RetryDecision::Retry,
                }
            }
        },
    }
}

/// An unset retry policy never retries: whatever the attempt counter, the
/// context age or the time budget, the decision is `NoRetryPolicy`, which
/// is terminal, so the attempt counter is never incremented.
pub proof fn lemma_no_policy_never_retries(
    retry_timeout_seconds: Option<u64>,
    tries: usize,
    created_at: u64,
    now_ms: u64,
)
    ensures
        spec_retry_decision(Option::None, retry_timeout_seconds, tries, created_at, now_ms)
            == RetryDecision::NoRetryPolicy,
{
}

/// The attempt budget `max_retries = Some(max)`, characterised exactly: a
/// retry is permitted if and only if `max` is positive, fewer than `max`
/// retries have been spent and no configured time budget has run out.
/// The attempt-count check comes first: once the counter reaches `max`
/// (or `max` is 0) the decision is `ExhaustedAttempts` even if the time
/// budget has also run out.
pub proof fn lemma_attempt_budget(
    max: usize,
    retry_timeout_seconds: Option<u64>,
    tries: usize,
    created_at: u64,
    now_ms: u64,
)
    ensures
        max == 0 || tries >= max <==> spec_retry_decision(
            Option::Some(max),
            retry_timeout_seconds,
            tries,
            created_at,
            now_ms,
        ) == RetryDecision::ExhaustedAttempts,
        spec_retry_decision(Option::Some(max), retry_timeout_seconds, tries, created_at, now_ms)
            is Retry <==> (0 < max && tries < max && match retry_timeout_seconds {
            Option::Some(t) => spec_elapsed_ms(created_at, now_ms) <= t * 1000,
            Option::None => true,
        }),
{
}

/// An exhausted wall-clock budget forbids a retry even when the attempt
/// counter still has room: more than `t * 1000` milliseconds after
/// context creation the decision is `ExhaustedTime` whenever attempts
/// alone would still have permitted a retry.
pub proof fn lemma_time_budget(max: usize, t: u64, tries: usize, created_at: u64, now_ms: u64)
    requires
        spec_elapsed_ms(created_at, now_ms) > t * 1000,
    ensures
        !(spec_retry_decision(Option::Some(max), Option::Some(t), tries, created_at, now_ms)
            is Retry),
        0 < max && tries < max ==> spec_retry_decision(
            Option::Some(max),
            Option::Some(t),
            tries,
            created_at,
            now_ms,
        ) == RetryDecision::ExhaustedTime,
{
}

} // verus!

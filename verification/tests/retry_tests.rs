use proxy_router::retry::{decide_retry, RetryDecision};

#[test]
fn no_policy_is_never_retried() {
    assert_eq!(
        decide_retry(None, None, 0, 0, 10_000),
        RetryDecision::NoRetryPolicy
    );
    assert_eq!(
        decide_retry(None, Some(5), 0, 0, 0),
        RetryDecision::NoRetryPolicy
    );
}

#[test]
fn zero_retries_is_exhausted_at_once() {
    assert_eq!(
        decide_retry(Some(0), None, 0, 0, 0),
        RetryDecision::ExhaustedAttempts
    );
}

#[test]
fn two_retries_allow_three_attempts() {
    // Initial attempt fails with 0 retries spent: first retry granted.
    assert_eq!(decide_retry(Some(2), None, 0, 0, 0), RetryDecision::Retry);
    // Second attempt fails: second and last retry granted.
    assert_eq!(decide_retry(Some(2), None, 1, 0, 0), RetryDecision::Retry);
    // Third attempt fails: budget spent, terminal.
    assert_eq!(
        decide_retry(Some(2), None, 2, 0, 0),
        RetryDecision::ExhaustedAttempts
    );
}

#[test]
fn time_budget_exceeded_stops_retries() {
    // 5001 ms elapsed against a 5 s budget: no retry despite attempt room.
    assert_eq!(
        decide_retry(Some(5), Some(5), 1, 1_000, 6_001),
        RetryDecision::ExhaustedTime
    );
    // Exactly 5000 ms elapsed is still within the budget.
    assert_eq!(
        decide_retry(Some(5), Some(5), 1, 1_000, 6_000),
        RetryDecision::Retry
    );
}

#[test]
fn attempt_check_precedes_time_check() {
    // Both budgets are exhausted: the attempt count is the reason reported.
    assert_eq!(
        decide_retry(Some(1), Some(5), 1, 0, 999_999),
        RetryDecision::ExhaustedAttempts
    );
}

#[test]
fn clock_going_backwards_counts_as_no_elapsed() {
    assert_eq!(
        decide_retry(Some(1), Some(1), 0, 10_000, 5_000),
        RetryDecision::Retry
    );
}

#[test]
fn huge_budget_never_times_out() {
    assert_eq!(
        decide_retry(Some(1), Some(u64::MAX), 0, 0, u64::MAX),
        RetryDecision::Retry
    );
}

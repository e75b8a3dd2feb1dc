use uptime_probe::backend::BackendError;
use uptime_probe::retry::{backoff_delay, AttemptResult, ReportRetry, RetryDecision, RetryPolicy};

#[test]
fn unauthorized_is_not_retried() {
    let policy = RetryPolicy::standard();
    let mut r = ReportRetry::new();
    assert_eq!(r.record(&policy, AttemptResult::Failed(BackendError::Unauthorized)), RetryDecision::Abort);
    assert_eq!(r.attempts, 1);
}

#[test]
fn transient_failures_back_off_then_give_up() {
    let policy = RetryPolicy::standard();
    let mut r = ReportRetry::new();
    let fail = AttemptResult::Failed(BackendError::Status(503));
    assert_eq!(r.record(&policy, fail), RetryDecision::RetryAfter(2));
    assert_eq!(r.record(&policy, fail), RetryDecision::RetryAfter(4));
    assert_eq!(r.record(&policy, fail), RetryDecision::RetryAfter(8));
    assert_eq!(r.record(&policy, fail), RetryDecision::GiveUp);
    assert_eq!(r.attempts, 4);
}

#[test]
fn success_ends_the_report() {
    let policy = RetryPolicy::standard();
    let mut r = ReportRetry::new();
    assert_eq!(r.record(&policy, AttemptResult::Failed(BackendError::Transport)), RetryDecision::RetryAfter(2));
    assert_eq!(r.record(&policy, AttemptResult::Succeeded), RetryDecision::Done);
    assert_eq!(r.attempts, 2);
}

#[test]
fn backoff_saturates() {
    assert_eq!(backoff_delay(2, 1), 2);
    assert_eq!(backoff_delay(2, 0), 2);
    assert_eq!(backoff_delay(3, 5), 48);
    assert_eq!(backoff_delay(u64::MAX / 2, 3), u64::MAX);
}

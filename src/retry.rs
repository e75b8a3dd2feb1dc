//! Retrying a failed per-peer report, as a state machine that the caller drives:
//! it reports the outcome of each attempt and is told to stop, wait, or give up.

use vstd::prelude::*;
use crate::backend::BackendError;

verus! {

/// How often and how patiently a report is retried.
#[derive(Debug, Clone, Copy, PartialEq, Eq, Structural)]
pub struct RetryPolicy {
    /// Retries after the first attempt.
    pub max_retries: u32,
    /// Wait before the first retry; each later retry waits twice as long.
    pub base_delay_secs: u64,
}

impl RetryPolicy {
    /// Three retries, waiting 2, 4 and 8 seconds.
    pub fn standard() -> (r: RetryPolicy)
        ensures
            r.max_retries == 3,
            r.base_delay_secs == 2,
    {
        RetryPolicy { max_retries: 3, base_delay_secs: 2 }
    }
}

/// The outcome of one report attempt.
#[derive(Debug, Clone, Copy, PartialEq, Eq, Structural)]
pub enum AttemptResult {
    Succeeded,
    Failed(BackendError),
}

/// What to do after an attempt.
#[derive(Debug, Clone, Copy, PartialEq, Eq, Structural)]
pub enum RetryDecision {
    /// The report went through.
    Done,
    /// Wait this many seconds, then attempt again.
    RetryAfter(u64),
    /// The retries are used up.
    GiveUp,
    /// The credentials were refused; another attempt cannot succeed.
    Abort,
}

/// Wait before retry number `k` (from 1): the base, doubled for each earlier retry.
pub open spec fn backoff(base: int, k: nat) -> int
    decreases k,
{
    if k <= 1 {
        base
    } else {
        2 * backoff(base, (k - 1) as nat)
    }
}

pub open spec fn capped(x: int) -> u64 {
    if x > u64::MAX {
        u64::MAX
    } else {
        x as u64
    }
}

/// Attempts made so far and the decision, after an attempt with `result`
/// when `made` attempts came before it.
pub open spec fn decide(policy: RetryPolicy, made: u32, result: AttemptResult) -> (u32, RetryDecision) {
    let attempts = if made < u32::MAX {
        (made + 1) as u32
    } else {
        made
    };
    match result {
        AttemptResult::Succeeded => (attempts, RetryDecision::Done),
        AttemptResult::Failed(e) => if e is Unauthorized {
            (attempts, RetryDecision::Abort)
        } else if attempts > policy.max_retries {
            (attempts, RetryDecision::GiveUp)
        } else {
            (attempts, RetryDecision::RetryAfter(capped(backoff(policy.base_delay_secs as int, attempts as nat))))
        },
    }
}

proof fn lemma_backoff_positive_grows(base: int, k: nat)
    requires
        base >= 0,
    ensures
        backoff(base, k) >= 0,
        k >= 1 ==> backoff(base, k + 1) == 2 * backoff(base, k),
    decreases k,
{
    if k > 1 {
        lemma_backoff_positive_grows(base, (k - 1) as nat);
    }
}

/// The wait before retry number `k`, saturating at `u64::MAX`.
pub fn backoff_delay(base: u64, k: u32) -> (r: u64)
    ensures
        r == capped(backoff(base as int, k as nat)),
{
    let mut d: u64 = base;
    let mut i: u32 = 1;
    while i < k
        invariant
            1 <= i,
            k >= 1 ==> i <= k,
            k == 0 ==> i == 1,
            d == capped(backoff(base as int, i as nat)),
        decreases k - i,
    {
        proof {
            lemma_backoff_positive_grows(base as int, i as nat);
        }
        d = if d > u64::MAX / 2 {
            u64::MAX
        } else {
            d * 2
        };
        i = i + 1;
    }
    proof {
        if k == 0 {
            assert(backoff(base as int, 0) == backoff(base as int, 1));
            assert(i == 1);
        } else {
            assert(i == k);
        }
    }
    d
}

/// Attempts made for one report.
#[derive(Debug, Clone, Copy, PartialEq, Eq, Structural)]
pub struct ReportRetry {
    pub attempts: u32,
}

impl ReportRetry {
    pub fn new() -> (r: ReportRetry)
        ensures
            r.attempts == 0,
    {
        ReportRetry { attempts: 0 }
    }

    /// Takes the outcome of an attempt and says what to do next; see [`decide`].
    pub fn record(&mut self, policy: &RetryPolicy, result: AttemptResult) -> (r: RetryDecision)
        ensures
            (final(self).attempts, r) == decide(*policy, old(self).attempts, result),
    {
        if self.attempts < u32::MAX {
            self.attempts = self.attempts + 1;
        }
        match result {
            AttemptResult::Succeeded => RetryDecision::Done,
            AttemptResult::Failed(e) => {
                if e.is_unauthorized() {
                    RetryDecision::Abort
                } else if self.attempts > policy.max_retries {
                    RetryDecision::GiveUp
                } else {
                    RetryDecision::RetryAfter(backoff_delay(policy.base_delay_secs, self.attempts))
                }
            },
        }
    }
}

/// Refused credentials end the report at once, whatever the policy and however
/// many attempts came before: after a first attempt, the count stays at one.
pub proof fn lemma_unauthorized_is_not_retried(policy: RetryPolicy, made: u32)
    ensures
        decide(policy, made, AttemptResult::Failed(BackendError::Unauthorized)).1
            == RetryDecision::Abort,
        decide(policy, 0, AttemptResult::Failed(BackendError::Unauthorized)).0 == 1,
{
}

/// Under the standard policy, an error other than refused credentials is
/// retried after 2, 4 and 8 seconds, and the fourth failure gives up.
pub proof fn lemma_standard_backoff(e: BackendError)
    requires
        !(e is Unauthorized),
    ensures
        ({
            let p = RetryPolicy { max_retries: 3, base_delay_secs: 2 };
            let f = AttemptResult::Failed(e);
            &&& decide(p, 0, f) == (1u32, RetryDecision::RetryAfter(2))
            &&& decide(p, 1, f) == (2u32, RetryDecision::RetryAfter(4))
            &&& decide(p, 2, f) == (3u32, RetryDecision::RetryAfter(8))
            &&& decide(p, 3, f) == (4u32, RetryDecision::GiveUp)
        }),
{
    assert(backoff(2, 1) == 2);
    assert(backoff(2, 2) == 4);
    assert(backoff(2, 3) == 8);
}

/// Under any policy, each retry waits twice as long as the one before, until
/// the wait saturates, and no failure past the last retry is retried.
pub proof fn lemma_backoff_doubles(policy: RetryPolicy, made: u32, e: BackendError)
    requires
        !(e is Unauthorized),
        1 <= made,
        made + 1 <= policy.max_retries,
        2 * backoff(policy.base_delay_secs as int, (made + 1) as nat) <= u64::MAX,
    ensures
        decide(policy, (made - 1) as u32, AttemptResult::Failed(e)).1 == RetryDecision::RetryAfter(
            capped(backoff(policy.base_delay_secs as int, made as nat)),
        ),
        decide(policy, made, AttemptResult::Failed(e)).1 == RetryDecision::RetryAfter(
            (2 * backoff(policy.base_delay_secs as int, made as nat)) as u64,
        ),
        decide(policy, policy.max_retries, AttemptResult::Failed(e)).1 == RetryDecision::GiveUp
            || policy.max_retries == u32::MAX,
{
    lemma_backoff_positive_grows(policy.base_delay_secs as int, made as nat);
    lemma_backoff_positive_grows(policy.base_delay_secs as int, (made + 1) as nat);
}

} // verus!

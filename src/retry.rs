use vstd::prelude::*;

verus! {

/// How a failed remote call is treated.
#[derive(Clone, Copy, Debug, PartialEq, Eq, Structural)]
pub enum FailureClass {
    /// The service asked to slow down (HTTP 429): wait long, then try again.
    RateLimited,
    /// The service failed on its side or lost the resource for a moment
    /// (HTTP 404, 500, 502, 503): wait briefly, then try again.
    Transient,
    /// Anything else: give up at once.
    Terminal,
}

/// The class of a failure, from the HTTP status it carried, if any.
pub open spec fn class_of(status: Option<u16>) -> FailureClass {
    match status {
        Some(s) => if s == 429 {
            FailureClass::RateLimited
        } else if s == 404 || s == 500 || s == 502 || s == 503 {
            FailureClass::Transient
        } else {
            FailureClass::Terminal
        },
        None => FailureClass::Terminal,
    }
}

/// Classifies a failed call by the HTTP status it carried; a failure
/// without a status (a broken connection, an unreadable answer) is terminal.
pub fn classify_status(status: Option<u16>) -> (r: FailureClass)
    ensures
        r == class_of(status),
{
    match status {
        Some(s) => if s == 429 {
            FailureClass::RateLimited
        } else if s == 404 || s == 500 || s == 502 || s == 503 {
            FailureClass::Transient
        } else {
            FailureClass::Terminal
        },
        None => FailureClass::Terminal,
    }
}

/// How many times a call is tried again, and how long to wait before each.
#[derive(Clone, Copy, Debug, PartialEq, Eq, Structural)]
pub struct RetryPolicy {
    pub max_retries: u32,
    /// Wait after a transient failure, in milliseconds.
    pub retry_delay_ms: u64,
    /// Wait after a rate-limited failure, in milliseconds.
    pub rate_limit_delay_ms: u64,
}

pub const MAX_RETRIES: u32 = 10;

pub const RETRY_DELAY_MS: u64 = 200;

pub const RATE_LIMIT_DELAY_MS: u64 = 4000;

impl RetryPolicy {
    /// Ten retries, 200 ms after a transient failure, 4 s after a
    /// rate-limited one.
    pub fn standard() -> (r: RetryPolicy)
        ensures
            r.max_retries == MAX_RETRIES,
            r.retry_delay_ms == RETRY_DELAY_MS,
            r.rate_limit_delay_ms == RATE_LIMIT_DELAY_MS,
    {
        RetryPolicy {
            max_retries: MAX_RETRIES,
            retry_delay_ms: RETRY_DELAY_MS,
            rate_limit_delay_ms: RATE_LIMIT_DELAY_MS,
        }
    }
}

/// What to do after an attempt.
#[derive(Clone, Copy, Debug, PartialEq, Eq, Structural)]
pub enum RetryStep {
    /// Hand the attempt's result, success or failure, to the caller.
    Finish,
    /// Wait this many milliseconds, then call again.
    RetryAfter(u64),
}

/// The step after an attempt that ended in `failure` (`None`: it succeeded),
/// when `retries` retries have been spent already.
pub open spec fn next_step(policy: RetryPolicy, retries: int, failure: Option<FailureClass>) -> RetryStep {
    if retries >= policy.max_retries {
        RetryStep::Finish
    } else {
        match failure {
            Some(FailureClass::RateLimited) => RetryStep::RetryAfter(policy.rate_limit_delay_ms),
            Some(FailureClass::Transient) => RetryStep::RetryAfter(policy.retry_delay_ms),
            _ => RetryStep::Finish,
        }
    }
}

/// The wait that a step asks for.
pub open spec fn delay_of(step: RetryStep) -> nat {
    match step {
        RetryStep::RetryAfter(ms) => ms as nat,
        RetryStep::Finish => 0,
    }
}

/// Of a sequence of attempts whose outcomes are `outcomes`, starting at
/// attempt `i`: the attempt whose result is handed to the caller. That is
/// also the number of retries spent.
pub open spec fn final_attempt(policy: RetryPolicy, outcomes: Seq<Option<FailureClass>>, i: nat) -> nat
    decreases outcomes.len() - i,
{
    if i >= outcomes.len() {
        i
    } else if next_step(policy, i as int, outcomes[i as int]) is Finish {
        i
    } else {
        final_attempt(policy, outcomes, i + 1)
    }
}

/// The total wait, in milliseconds, from attempt `i` until the result is
/// handed to the caller.
pub open spec fn total_wait(policy: RetryPolicy, outcomes: Seq<Option<FailureClass>>, i: nat) -> nat
    decreases outcomes.len() - i,
{
    if i >= outcomes.len() {
        0
    } else if next_step(policy, i as int, outcomes[i as int]) is Finish {
        0
    } else {
        delay_of(next_step(policy, i as int, outcomes[i as int])) + total_wait(
            policy,
            outcomes,
            i + 1,
        )
    }
}

/// The state of one call under retry: the policy and the retries spent so
/// far. The caller makes each attempt and reports its outcome to `step`.
#[derive(Clone, Copy, Debug)]
pub struct RetryExecutor {
    pub policy: RetryPolicy,
    pub retries: u32,
}

impl RetryExecutor {
    pub open spec fn wf(self) -> bool {
        self.retries <= self.policy.max_retries
    }

    /// A call about to be made for the first time.
    pub fn new(policy: RetryPolicy) -> (r: RetryExecutor)
        ensures
            r.policy == policy,
            r.retries == 0,
            r.wf(),
    {
        RetryExecutor { policy, retries: 0 }
    }

    /// Takes the outcome of the latest attempt (`None`: it succeeded) and
    /// says what comes next; a retry is counted as spent.
    pub fn step(&mut self, failure: Option<FailureClass>) -> (r: RetryStep)
        requires
            old(self).wf(),
        ensures
            r == next_step(old(self).policy, old(self).retries as int, failure),
            final(self).policy == old(self).policy,
            final(self).retries == old(self).retries + (if r is Finish { 0int } else { 1int }),
            final(self).wf(),
    {
        if self.retries >= self.policy.max_retries {
            return RetryStep::Finish;
        }
        match failure {
            Some(FailureClass::RateLimited) => {
                self.retries = self.retries + 1;
                RetryStep::RetryAfter(self.policy.rate_limit_delay_ms)
            },
            Some(FailureClass::Transient) => {
                self.retries = self.retries + 1;
                RetryStep::RetryAfter(self.policy.retry_delay_ms)
            },
            _ => RetryStep::Finish,
        }
    }
}

/// A call that is rate-limited on its first two attempts and succeeds on
/// the third spends two retries, hands back that success, and waits twice
/// the rate-limit delay in all.
pub proof fn lemma_rate_limited_twice_then_success(
    policy: RetryPolicy,
    outcomes: Seq<Option<FailureClass>>,
)
    requires
        policy.max_retries >= 2,
        outcomes.len() >= 3,
        outcomes[0] == Some(FailureClass::RateLimited),
        outcomes[1] == Some(FailureClass::RateLimited),
        outcomes[2] is None,
    ensures
        final_attempt(policy, outcomes, 0) == 2,
        total_wait(policy, outcomes, 0) == 2 * policy.rate_limit_delay_ms,
{
    reveal_with_fuel(final_attempt, 4);
    reveal_with_fuel(total_wait, 4);
}

/// A call whose first attempt fails terminally hands that failure back at
/// once: no retry spent, no wait.
pub proof fn lemma_terminal_failure_is_final(policy: RetryPolicy, outcomes: Seq<Option<FailureClass>>)
    requires
        outcomes.len() >= 1,
        outcomes[0] == Some(FailureClass::Terminal),
    ensures
        final_attempt(policy, outcomes, 0) == 0,
        total_wait(policy, outcomes, 0) == 0,
{
}

/// A call that fails with a retryable class on every attempt is tried
/// exactly `max_retries` more times, and the caller receives the failure of
/// the last attempt.
pub proof fn lemma_retries_exhausted(policy: RetryPolicy, outcomes: Seq<Option<FailureClass>>)
    requires
        outcomes.len() > policy.max_retries,
        forall|j: int|
            0 <= j < outcomes.len() ==> (#[trigger] outcomes[j] == Some(FailureClass::RateLimited)
                || outcomes[j] == Some(FailureClass::Transient)),
    ensures
        final_attempt(policy, outcomes, 0) == policy.max_retries,
{
    lemma_retries_exhausted_from(policy, outcomes, 0);
}

proof fn lemma_retries_exhausted_from(
    policy: RetryPolicy,
    outcomes: Seq<Option<FailureClass>>,
    i: nat,
)
    requires
        i <= policy.max_retries,
        outcomes.len() > policy.max_retries,
        forall|j: int|
            0 <= j < outcomes.len() ==> (#[trigger] outcomes[j] == Some(FailureClass::RateLimited)
                || outcomes[j] == Some(FailureClass::Transient)),
    ensures
        final_attempt(policy, outcomes, i) == policy.max_retries,
    decreases policy.max_retries - i,
{
    if i < policy.max_retries {
        assert(outcomes[i as int] == Some(FailureClass::RateLimited) || outcomes[i as int]
            == Some(FailureClass::Transient));
        lemma_retries_exhausted_from(policy, outcomes, i + 1);
    }
}

} // verus!

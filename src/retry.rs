use vstd::prelude::*;

verus! {

/// Why a single network call did not yield a usable response.
#[derive(Debug, Clone, Copy, PartialEq, Eq, Structural)]
pub enum FailureCause {
    /// The request could not be carried out.
    Transport,
    /// The response carried a non-empty array of protocol errors.
    RequestErrors,
    /// The response carried no payload.
    MissingData,
}

/// Classifies a response that arrived: protocol errors come first, then a
/// missing payload; `None` means the response is usable.
pub fn classify_response(has_errors: bool, has_data: bool) -> (r: Option<FailureCause>)
    ensures
        r == (if has_errors {
            Some(FailureCause::RequestErrors)
        } else if !has_data {
            Some(FailureCause::MissingData)
        } else {
            None
        }),
{
    if has_errors {
        Some(FailureCause::RequestErrors)
    } else if !has_data {
        Some(FailureCause::MissingData)
    } else {
        None
    }
}

/// How often a failed call is tried again, and how long to wait in between.
#[derive(Debug, Clone, Copy)]
pub struct RetryPolicy {
    pub max_attempts: u32,
    pub backoff_secs: u64,
}

impl RetryPolicy {
    /// Ten attempts, ten seconds apart.
    pub fn standard() -> (r: RetryPolicy)
        ensures
            r.max_attempts == 10,
            r.backoff_secs == 10,
    {
        RetryPolicy { max_attempts: 10, backoff_secs: 10 }
    }
}

/// What to do after a failed call.
#[derive(Debug, Clone, Copy, PartialEq, Eq, Structural)]
pub enum RetryDecision {
    /// Wait `wait_secs` seconds, then repeat the same request; `attempt` is
    /// the number of failures of this call so far.
    Retry { attempt: u32, wait_secs: u64 },
    /// Give up: the failure persisted past the attempt ceiling.
    Exhausted(FailureCause),
}

/// The attempt count that follows a failure of a call that had already
/// failed `attempts` times, or `None` when the ceiling `max` is reached.
pub open spec fn retry_step(attempts: nat, max: nat) -> Option<nat> {
    if attempts + 1 < max {
        Some(attempts + 1)
    } else {
        None
    }
}

/// The attempt counter of the call in progress.
#[derive(Debug, Clone, Copy)]
pub struct RetryState {
    pub attempts: u32,
}

impl RetryState {
    pub fn new() -> (r: RetryState)
        ensures
            r.attempts == 0,
    {
        RetryState { attempts: 0 }
    }

    /// Records a failure of the current call and decides whether to retry.
    pub fn on_failure(&mut self, policy: &RetryPolicy, cause: FailureCause) -> (d: RetryDecision)
        ensures
            match retry_step(old(self).attempts as nat, policy.max_attempts as nat) {
                Some(n) => {
                    &&& final(self).attempts == n
                    &&& d == RetryDecision::Retry { attempt: n as u32, wait_secs: policy.backoff_secs }
                },
                None => {
                    &&& *final(self) == *old(self)
                    &&& d == RetryDecision::Exhausted(cause)
                },
            },
    {
        if self.attempts < policy.max_attempts && self.attempts + 1 < policy.max_attempts {
            self.attempts = self.attempts + 1;
            RetryDecision::Retry { attempt: self.attempts, wait_secs: policy.backoff_secs }
        } else {
            RetryDecision::Exhausted(cause)
        }
    }

    /// A call succeeded: the next call starts with a fresh count.
    pub fn on_success(&mut self)
        ensures
            final(self).attempts == 0,
    {
        self.attempts = 0;
    }
}

/// The course of one call that fails `failures` times before it would
/// succeed, starting from `attempts` earlier failures: whether it succeeds,
/// and how many backoff waits it goes through.
pub open spec fn retry_run(attempts: nat, max: nat, failures: nat) -> (bool, nat)
    decreases failures,
{
    if failures == 0 {
        (true, 0)
    } else {
        match retry_step(attempts, max) {
            Some(next) => {
                let rest = retry_run(next, max, (failures - 1) as nat);
                (rest.0, rest.1 + 1)
            },
            None => (false, 0),
        }
    }
}

proof fn lemma_retry_run_from(attempts: nat, max: nat, failures: nat)
    requires
        attempts < max,
    ensures
        retry_run(attempts, max, failures) == (
            attempts + failures < max,
            if attempts + failures < max { failures } else { (max - 1 - attempts) as nat },
        ),
    decreases failures,
{
    if failures > 0 && attempts + 1 < max {
        lemma_retry_run_from(attempts + 1, max, (failures - 1) as nat);
    }
}

/// A call that fails `failures` times and then succeeds goes through when
/// `failures` is below the attempt ceiling, after exactly `failures` waits;
/// otherwise it is given up after `max - 1` waits.
pub proof fn lemma_retry_ceiling(max: nat, failures: nat)
    requires
        max >= 1,
    ensures
        retry_run(0, max, failures) == (
            failures < max,
            if failures < max { failures } else { (max - 1) as nat },
        ),
{
    lemma_retry_run_from(0, max, failures);
}

} // verus!

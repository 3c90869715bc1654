//! What to do after an attempt to send a batch: stop, retry after a backoff,
//! or give the batch up.
use vstd::prelude::*;

verus! {

/// How one attempt to send a batch came out.
#[derive(Clone, Copy, Debug, PartialEq, Eq, Structural)]
pub enum ExportResult {
    Success,
    /// A network failure or a timeout: worth another attempt.
    Retryable,
    /// The collector refused the batch: another attempt would fail the same way.
    Fatal,
}

/// The next step after an attempt.
#[derive(Clone, Copy, Debug, PartialEq, Eq, Structural)]
pub enum ExportStep {
    Done,
    RetryAfter(u64),
    GiveUp,
}

/// Bounded retries with doubling backoff.
#[derive(Clone, Copy, Debug, PartialEq, Eq, Structural)]
pub struct RetryPolicy {
    /// Attempts allowed after the first.
    pub max_retries: u32,
    pub initial_backoff: u64,
    pub max_backoff: u64,
}

pub open spec fn min_u64(a: u64, b: u64) -> u64 {
    if a <= b {
        a
    } else {
        b
    }
}

/// The wait before retry number `n + 1`: the initial backoff doubled `n`
/// times, never above the maximum.
pub open spec fn backoff(p: RetryPolicy, n: nat) -> u64
    decreases n,
{
    if n == 0 {
        min_u64(p.initial_backoff, p.max_backoff)
    } else {
        let prev = backoff(p, (n - 1) as nat);
        if 2 * prev >= p.max_backoff {
            p.max_backoff
        } else {
            (2 * prev) as u64
        }
    }
}

/// The step after attempt number `attempt` (the first is 0) came out as
/// `result` at time `now`. A retryable failure is retried while retries are
/// left and, under a `deadline`, only if the wait ends by then.
pub open spec fn step_after(
    p: RetryPolicy,
    attempt: u32,
    result: ExportResult,
    now: u64,
    deadline: Option<u64>,
) -> ExportStep {
    match result {
        ExportResult::Success => ExportStep::Done,
        ExportResult::Fatal => ExportStep::GiveUp,
        ExportResult::Retryable => {
            let d = backoff(p, attempt as nat);
            if attempt >= p.max_retries {
                ExportStep::GiveUp
            } else if deadline matches Some(t) && now + d > t {
                ExportStep::GiveUp
            } else {
                ExportStep::RetryAfter(d)
            }
        },
    }
}

pub proof fn lemma_backoff_bounded(p: RetryPolicy, n: nat)
    ensures
        backoff(p, n) <= p.max_backoff,
    decreases n,
{
    if n > 0 {
        lemma_backoff_bounded(p, (n - 1) as nat);
    }
}

impl RetryPolicy {
    /// The wait before retry number `attempt + 1`.
    pub fn backoff_delay(&self, attempt: u32) -> (r: u64)
        ensures
            r == backoff(*self, attempt as nat),
    {
        let mut d: u64 = if self.initial_backoff <= self.max_backoff {
            self.initial_backoff
        } else {
            self.max_backoff
        };
        let mut i: u32 = 0;
        while i < attempt
            invariant
                i <= attempt,
                d == backoff(*self, i as nat),
            decreases attempt - i,
        {
            proof {
                lemma_backoff_bounded(*self, i as nat);
            }
            d = if d >= self.max_backoff / 2 + self.max_backoff % 2 {
                self.max_backoff
            } else {
                2 * d
            };
            i = i + 1;
        }
        d
    }

    /// The step after attempt number `attempt` came out as `result` at `now`.
    pub fn next_step(&self, attempt: u32, result: ExportResult, now: u64, deadline: Option<u64>) -> (r:
        ExportStep)
        ensures
            r == step_after(*self, attempt, result, now, deadline),
    {
        match result {
            ExportResult::Success => ExportStep::Done,
            ExportResult::Fatal => ExportStep::GiveUp,
            ExportResult::Retryable => {
                let d = self.backoff_delay(attempt);
                if attempt >= self.max_retries {
                    ExportStep::GiveUp
                } else {
                    match deadline {
                        Some(t) => if now > t || d > t - now {
                            ExportStep::GiveUp
                        } else {
                            ExportStep::RetryAfter(d)
                        },
                        None => ExportStep::RetryAfter(d),
                    }
                }
            },
        }
    }
}

/// A batch is attempted at most `max_retries + 1` times: past the last retry a
/// failure is always given up.
pub proof fn lemma_retries_bounded(p: RetryPolicy, attempt: u32, result: ExportResult, now: u64, deadline: Option<u64>)
    requires
        attempt >= p.max_retries,
    ensures
        !(step_after(p, attempt, result, now, deadline) is RetryAfter),
{
}

} // verus!

//! The retry rule of the HTTP fetcher that refreshes key material: bounded
//! retries with linear backoff on transport failure, and no retry on an
//! error status. The decision lives here; performing the request and the
//! delay stays outside.

use vstd::prelude::*;

verus! {

/// The fetcher's retry settings.
#[derive(Clone, Copy, Debug, PartialEq, Eq, Structural)]
pub struct RetryPolicy {
    pub max_retries: u32,
    pub retry_delay_ms: u64,
}

/// What one fetch attempt came back with.
#[derive(Clone, Copy, Debug, PartialEq, Eq, Structural)]
pub enum FetchEvent {
    /// A response with this HTTP status.
    Response(u16),
    /// The request did not reach the endpoint.
    TransportError,
}

/// What to do after an attempt.
#[derive(Clone, Copy, Debug, PartialEq, Eq, Structural)]
pub enum FetchAction {
    /// The response is good to use.
    Done,
    /// Try again after this many milliseconds.
    Retry(u64),
    /// Give up: the endpoint answered with an error status.
    FailStatus(u16),
    /// Give up: the retry budget is exhausted.
    FailMaxRetries,
}

/// The delay before retry number `attempt`: linear backoff, saturated.
pub open spec fn backoff_ms(policy: RetryPolicy, attempt: u32) -> u64 {
    if policy.retry_delay_ms * attempt > u64::MAX {
        u64::MAX
    } else {
        (policy.retry_delay_ms * attempt) as u64
    }
}

/// The rule: a status under 400 is done; a status of 400 or above fails at
/// once; a transport failure is retried with delay `retry_delay × attempt`
/// until `max_retries` attempts are spent.
pub open spec fn next_action_spec(policy: RetryPolicy, attempt: u32, event: FetchEvent) -> FetchAction {
    match event {
        FetchEvent::Response(status) => if status < 400 {
            FetchAction::Done
        } else {
            FetchAction::FailStatus(status)
        },
        FetchEvent::TransportError => if attempt < policy.max_retries {
            FetchAction::Retry(backoff_ms(policy, (attempt + 1) as u32))
        } else {
            FetchAction::FailMaxRetries
        },
    }
}

/// Decides what to do after fetch attempt number `attempt` (counting from
/// zero) came back with `event`.
pub fn next_fetch_action(policy: &RetryPolicy, attempt: u32, event: &FetchEvent) -> (r: FetchAction)
    requires
        attempt < u32::MAX,
    ensures
        r == next_action_spec(*policy, attempt, *event),
{
    match event {
        FetchEvent::Response(status) => {
            if *status < 400 {
                FetchAction::Done
            } else {
                FetchAction::FailStatus(*status)
            }
        },
        FetchEvent::TransportError => {
            if attempt < policy.max_retries {
                let next = attempt + 1;
                proof {
                    assert(policy.retry_delay_ms as int * next as int <= u64::MAX as int
                        * u32::MAX as int) by (nonlinear_arith)
                        requires
                            policy.retry_delay_ms <= u64::MAX,
                            next <= u32::MAX,
                    ;
                }
                let wide: u128 = (policy.retry_delay_ms as u128) * (next as u128);
                let delay: u64 = if wide > u64::MAX as u128 {
                    u64::MAX
                } else {
                    wide as u64
                };
                FetchAction::Retry(delay)
            } else {
                FetchAction::FailMaxRetries
            }
        },
    }
}

} // verus!

//! How a request is admitted and when a failed one is tried again.

use vstd::prelude::*;
use crate::error::{Error, is_transient, RequestFailure};

verus! {

/// Connections that ordinary requests share.
pub const MAX_CONN: usize = 4;

/// Connections that bulk traffic shares.
pub const LOOSE_MAX_CONN: usize = 64;

/// The most that the throttle hands out at once.
pub const MAX_THROTTLE_WEIGHT: usize = 4;

/// How long an answer in JSON may take, in seconds.
pub const JSON_TIMEOUT_SECS: u64 = 10;

/// How long a byte stream may stand still, in seconds.
pub const STREAM_TIMEOUT_SECS: u64 = 10;

/// Time between two refills of the throttle, in milliseconds.
pub const THROTTLE_INTERVAL_MILLIS: u64 = 200;

/// How failed requests are tried again: how often, and with which pauses.
#[derive(Debug, Clone, Copy, PartialEq, Eq, Structural)]
pub struct Backoff {
    pub max_n_retries: u32,
    pub min_retry_interval_secs: u64,
    pub max_retry_interval_secs: u64,
    pub backoff_exponent: u32,
}

/// Three retries, pauses from one second to half an hour that triple.
pub open spec fn spec_default_backoff() -> Backoff {
    Backoff {
        max_n_retries: 3,
        min_retry_interval_secs: 1,
        max_retry_interval_secs: 1800,
        backoff_exponent: 3,
    }
}

/// The backoff of every request.
pub fn default_backoff() -> (b: Backoff)
    ensures
        b == spec_default_backoff(),
        b.spec_in_range(),
{
    Backoff {
        max_n_retries: 3,
        min_retry_interval_secs: 1,
        max_retry_interval_secs: 1800,
        backoff_exponent: 3,
    }
}

/// The longest pause, in seconds, that a backoff may name: about thirty
/// years, so that no pause and no point in time that the policy computes
/// leaves the range of its types.
pub const MAX_INTERVAL_SECS: u64 = 1_000_000_000;

impl Backoff {
    /// Tells whether both pauses are within `MAX_INTERVAL_SECS`.
    pub open spec fn spec_in_range(self) -> bool {
        self.min_retry_interval_secs <= MAX_INTERVAL_SECS && self.max_retry_interval_secs
            <= MAX_INTERVAL_SECS
    }

    /// Tells whether both pauses are within `MAX_INTERVAL_SECS`.
    pub fn in_range(&self) -> (r: bool)
        ensures
            r == self.spec_in_range(),
    {
        self.min_retry_interval_secs <= MAX_INTERVAL_SECS && self.max_retry_interval_secs
            <= MAX_INTERVAL_SECS
    }
}

/// Calls `should_retry` of `reqwest_retry::policies::ExponentialBackoff`,
/// built from `backoff`, and hands back the time of the next attempt in
/// milliseconds since the epoch. The policy reads the clock and draws a
/// jitter, so the time itself is not stated; stated is what its source
/// shows of every outcome: it gives a time exactly while fewer retries
/// were made than it allows.
#[verifier::external_body]
pub(crate) fn should_retry(backoff: &Backoff, n_past_retries: u32) -> (execute_after: Option<i64>)
    requires
        backoff.spec_in_range(),
    ensures
        execute_after is Some <==> n_past_retries < backoff.max_n_retries,
{
    let policy = reqwest_retry::policies::ExponentialBackoff {
        max_n_retries: backoff.max_n_retries,
        min_retry_interval: std::time::Duration::from_secs(backoff.min_retry_interval_secs),
        max_retry_interval: std::time::Duration::from_secs(backoff.max_retry_interval_secs),
        backoff_exponent: backoff.backoff_exponent,
    };
    match reqwest_retry::RetryPolicy::should_retry(&policy, n_past_retries) {
        retry_policies::RetryDecision::Retry { execute_after } => Some(
            execute_after.timestamp_millis(),
        ),
        retry_policies::RetryDecision::DoNotRetry => None,
    }
}

/// What to do after a failed attempt.
#[derive(Debug, Clone, Copy, PartialEq, Eq, Structural)]
pub enum RetryDecision {
    /// Try again at this time, in milliseconds since the epoch.
    Retry { execute_after_millis: i64 },
    /// Give the error to the caller.
    GiveUp,
}

/// A failed attempt is tried again where the policy has named a time for
/// it and the failure is transient.
pub open spec fn spec_retry_decision(execute_after: Option<i64>, e: Error) -> RetryDecision {
    if execute_after is Some && is_transient(e) {
        RetryDecision::Retry { execute_after_millis: execute_after->0 }
    } else {
        RetryDecision::GiveUp
    }
}

/// Decides what follows a failed attempt, given what the backoff policy
/// said: another try at the time that it named where the failure is
/// transient, else the error goes to the caller.
pub fn retry_decision(execute_after: Option<i64>, e: &Error) -> (d: RetryDecision)
    ensures
        d == spec_retry_decision(execute_after, *e),
{
    match execute_after {
        Some(execute_after_millis) => if e.should_retry(0) {
            RetryDecision::Retry { execute_after_millis }
        } else {
            RetryDecision::GiveUp
        },
        None => RetryDecision::GiveUp,
    }
}

/// Asks the backoff policy and decides what follows a failed attempt:
/// another try while retries are left and the failure is transient, else
/// the error goes to the caller.
pub fn next_attempt(backoff: &Backoff, n_past_retries: u32, e: &Error) -> (d: RetryDecision)
    requires
        backoff.spec_in_range(),
    ensures
        d is Retry <==> n_past_retries < backoff.max_n_retries && is_transient(*e),
{
    let execute_after = should_retry(backoff, n_past_retries);
    retry_decision(execute_after, e)
}

/// What a request asks of the gateway.
#[derive(Debug, Clone, Copy, PartialEq, Eq, Structural)]
pub struct RequestBuilderWrapped {
    /// Connections that the request takes.
    pub sem_weight: u32,
    /// What the request takes from the throttle.
    pub throttle_weight: usize,
    /// Whether it leaves the small pool of connections for the large one.
    pub bypass_max_conn: bool,
    /// Whether it leaves the throttle and the cooldown aside.
    pub bypass_throttle: bool,
}

/// The pool of connections that a request draws from.
#[derive(Debug, Clone, Copy, PartialEq, Eq, Structural)]
pub enum Pool {
    /// The small pool of ordinary requests.
    Strict,
    /// The large pool of bulk traffic.
    Loose,
}

/// What a request has to acquire before it is sent.
#[derive(Debug, Clone, Copy, PartialEq, Eq, Structural)]
pub struct Admission {
    pub pool: Pool,
    /// Connections to take from the pool.
    pub permits: u32,
    /// What to take from the throttle, unless the request leaves it aside.
    pub throttle: Option<usize>,
}

impl RequestBuilderWrapped {
    /// An ordinary request: one connection, one unit of the throttle.
    pub fn into_request_builder_wrapped() -> (r: RequestBuilderWrapped)
        ensures
            r == (RequestBuilderWrapped {
                sem_weight: 1,
                throttle_weight: 1,
                bypass_max_conn: false,
                bypass_throttle: false,
            }),
    {
        RequestBuilderWrapped {
            sem_weight: 1,
            throttle_weight: 1,
            bypass_max_conn: false,
            bypass_throttle: false,
        }
    }

    /// The same request, taking `weight` connections.
    pub fn with_conn_weight(self, weight: u32) -> (r: RequestBuilderWrapped)
        ensures
            r == (RequestBuilderWrapped { sem_weight: weight, ..self }),
    {
        RequestBuilderWrapped { sem_weight: weight, ..self }
    }

    /// The same request, taking `weight` from the throttle.
    pub fn with_throttle_weight(self, weight: usize) -> (r: RequestBuilderWrapped)
        ensures
            r == (RequestBuilderWrapped { throttle_weight: weight, ..self }),
    {
        RequestBuilderWrapped { throttle_weight: weight, ..self }
    }

    /// The same request, drawing from the large pool.
    pub fn bypass_max_conn(self) -> (r: RequestBuilderWrapped)
        ensures
            r == (RequestBuilderWrapped { bypass_max_conn: true, ..self }),
    {
        RequestBuilderWrapped { bypass_max_conn: true, ..self }
    }

    /// The same request, leaving the throttle and the cooldown aside.
    pub fn bypass_throttle(self) -> (r: RequestBuilderWrapped)
        ensures
            r == (RequestBuilderWrapped { bypass_throttle: true, ..self }),
    {
        RequestBuilderWrapped { bypass_throttle: true, ..self }
    }

    /// What the request has to acquire before each attempt.
    pub open spec fn spec_admission(self) -> Admission {
        Admission {
            pool: if self.bypass_max_conn {
                Pool::Loose
            } else {
                Pool::Strict
            },
            permits: self.sem_weight,
            throttle: if self.bypass_throttle {
                None
            } else {
                Some(self.throttle_weight)
            },
        }
    }

    /// What the request has to acquire before each attempt: its connections
    /// from its pool, then its share of the throttle.
    pub fn admission(&self) -> (a: Admission)
        ensures
            a == self.spec_admission(),
    {
        Admission {
            pool: if self.bypass_max_conn {
                Pool::Loose
            } else {
                Pool::Strict
            },
            permits: self.sem_weight,
            throttle: if self.bypass_throttle {
                None
            } else {
                Some(self.throttle_weight)
            },
        }
    }
}

/// What the stream of an answer's body brings next.
#[derive(Debug, Clone, Copy, PartialEq, Eq, Structural)]
pub enum StreamEvent {
    /// A chunk of bytes; `written` says whether it could be written out.
    Bytes { written: bool },
    /// The stream failed.
    Failed(RequestFailure),
    /// The stream is at its end.
    Ended,
    /// Nothing came within `STREAM_TIMEOUT_SECS`.
    TimedOut,
}

/// What follows an event of the stream.
#[derive(Debug, Clone, Copy, PartialEq, Eq, Structural)]
pub enum StreamStep {
    /// Wait for the next event.
    Continue,
    /// The body is complete.
    Done,
    /// The copy fails with this error.
    Fail(Error),
}

/// Copying a body goes on chunk by chunk until the stream ends; it fails
/// with the stream's failure, with `Error::IO` where a chunk cannot be
/// written, and with `Error::StreamStuck` where the stream stands still.
pub open spec fn spec_bytes_to_writer(event: StreamEvent) -> StreamStep {
    match event {
        StreamEvent::Bytes { written } => if written {
            StreamStep::Continue
        } else {
            StreamStep::Fail(Error::IO)
        },
        StreamEvent::Failed(failure) => StreamStep::Fail(Error::Reqwest(failure)),
        StreamEvent::Ended => StreamStep::Done,
        StreamEvent::TimedOut => StreamStep::Fail(Error::StreamStuck),
    }
}

/// Decides what follows an event of the stream while a body is copied to a
/// writer.
pub fn bytes_to_writer(event: StreamEvent) -> (step: StreamStep)
    ensures
        step == spec_bytes_to_writer(event),
{
    match event {
        StreamEvent::Bytes { written } => if written {
            StreamStep::Continue
        } else {
            StreamStep::Fail(Error::IO)
        },
        StreamEvent::Failed(failure) => StreamStep::Fail(Error::Reqwest(failure)),
        StreamEvent::Ended => StreamStep::Done,
        StreamEvent::TimedOut => StreamStep::Fail(Error::StreamStuck),
    }
}

/// A stalled stream is a failure of its own kind, and one that is tried
/// again wherever the policy names a time for it.
pub proof fn lemma_stalled_stream_is_retried(execute_after: i64)
    ensures
        spec_bytes_to_writer(StreamEvent::TimedOut) == StreamStep::Fail(Error::StreamStuck),
        spec_retry_decision(Some(execute_after), Error::StreamStuck) == (RetryDecision::Retry {
            execute_after_millis: execute_after,
        }),
{
}

} // verus!

//! The per-body timeout: the configuration records, and the order of
//! checks a timed body makes on every poll.

use vstd::prelude::*;

verus! {

/// The error a timed body yields when its timer fires first.
#[derive(Debug)]
pub struct TimeoutError {}

impl TimeoutError {
    /// The words the error shows.
    pub fn message(&self) -> (r: String)
        ensures
            r@ == "data was not received within the designated timeout"@,
    {
        String::from_str("data was not received within the designated timeout")
    }
}

/// What one poll of a timed body does.
#[derive(Debug, PartialEq, Eq, Structural)]
pub enum TimeoutStep {
    /// The timer fired before any frame: yield the timeout error.
    TimedOut,
    /// A frame is ready: deliver it and restart the timer.
    Deliver,
    /// Nothing yet: keep the timer running and wait.
    Wait,
}

/// The check order of a timed body: an expired timer wins over a ready
/// frame; a delivered frame restarts the timer.
pub fn timeout_step(expired: bool, frame_ready: bool) -> (s: TimeoutStep)
    ensures
        s == (if expired {
            TimeoutStep::TimedOut
        } else if frame_ready {
            TimeoutStep::Deliver
        } else {
            TimeoutStep::Wait
        }),
{
    if expired {
        TimeoutStep::TimedOut
    } else if frame_ready {
        TimeoutStep::Deliver
    } else {
        TimeoutStep::Wait
    }
}

/// Applies a read timeout to the request body of each call of the wrapped
/// service.
#[derive(Clone, Debug)]
pub struct RequestBodyTimeout<S> {
    inner: S,
    timeout_ms: u64,
}

impl<S> RequestBodyTimeout<S> {
    pub closed spec fn spec_timeout_ms(&self) -> u64 {
        self.timeout_ms
    }

    pub closed spec fn spec_inner(&self) -> &S {
        &self.inner
    }

    /// Wraps a service with a request-body timeout in milliseconds.
    pub fn new(service: S, timeout_ms: u64) -> (r: RequestBodyTimeout<S>)
        ensures
            r.spec_timeout_ms() == timeout_ms,
            r.spec_inner() == service,
    {
        RequestBodyTimeout { inner: service, timeout_ms }
    }

    /// The configured timeout in milliseconds.
    pub fn timeout_ms(&self) -> (r: u64)
        ensures
            r == self.spec_timeout_ms(),
    {
        self.timeout_ms
    }

    /// The wrapped service.
    pub fn inner(&self) -> (r: &S)
        ensures
            r == self.spec_inner(),
    {
        &self.inner
    }

    /// Gives the wrapped service back.
    pub fn into_inner(self) -> (r: S)
        ensures
            r == *self.spec_inner(),
    {
        self.inner
    }
}

/// Makes request-body timeouts for a whole stack of services.
#[derive(Clone, Debug)]
pub struct RequestBodyTimeoutLayer {
    timeout_ms: u64,
}

impl RequestBodyTimeoutLayer {
    pub closed spec fn spec_timeout_ms(&self) -> u64 {
        self.timeout_ms
    }

    /// A layer applying the given timeout in milliseconds.
    pub fn new(timeout_ms: u64) -> (r: RequestBodyTimeoutLayer)
        ensures
            r.spec_timeout_ms() == timeout_ms,
    {
        RequestBodyTimeoutLayer { timeout_ms }
    }

    /// The configured timeout in milliseconds.
    pub fn timeout_ms(&self) -> (r: u64)
        ensures
            r == self.spec_timeout_ms(),
    {
        self.timeout_ms
    }

    /// Wraps one service, as the layer does for each.
    pub fn wrap<S>(&self, service: S) -> (r: RequestBodyTimeout<S>)
        ensures
            r.spec_timeout_ms() == self.spec_timeout_ms(),
            r.spec_inner() == service,
    {
        RequestBodyTimeout::new(service, self.timeout_ms)
    }
}

} // verus!

//! The decisions around outside HTTP calls: when to retry a request and how
//! long to wait, and the circuit breaker that stops calls to a failing
//! service. Times are milliseconds on a monotonic clock that the caller reads.
use vstd::prelude::*;

verus! {

/// How often and how patiently a request is retried. Delays are in milliseconds.
#[derive(Debug, Clone, Copy)]
pub struct RetryConfig {
    pub max_retries: u32,
    pub initial_delay_ms: u64,
    pub max_delay_ms: u64,
}

impl Default for RetryConfig {
    /// Three retries, waiting one second at first and at most eight.
    fn default() -> (c: Self)
        ensures
            c.max_retries == 3,
            c.initial_delay_ms == 1000,
            c.max_delay_ms == 8000,
    {
        RetryConfig { max_retries: 3, initial_delay_ms: 1000, max_delay_ms: 8000 }
    }
}

/// What came of one attempt to send a request.
#[derive(Debug, Clone, Copy, PartialEq, Eq, Structural)]
pub enum AttemptOutcome {
    /// A response arrived; `server_error` when its status is 5xx.
    Response { server_error: bool },
    /// Sending failed; the flags say whether it timed out, could not
    /// connect, or failed while building or sending the request.
    Failed { timeout: bool, connect: bool, request: bool },
    /// The request could not be copied for another attempt.
    CannotClone,
}

/// What to do after an attempt.
#[derive(Debug, Clone, Copy, PartialEq, Eq, Structural)]
pub enum RetryDecision {
    /// Hand the response to the caller.
    ReturnResponse,
    /// Wait this many milliseconds, then try again if attempts are left.
    RetryAfter(u64),
    /// Stop and report the last error.
    GiveUp,
    /// Send the request once more, without retrying, and hand back what comes.
    SendWithoutRetry,
}

/// The next delay: doubled, but no more than the cap.
pub open spec fn next_delay_spec(delay: u64, max_delay: u64) -> u64 {
    if 2 * delay <= max_delay {
        (2 * delay) as u64
    } else {
        max_delay
    }
}

/// Whether an attempt is retried: only while attempts are left, a 5xx
/// response, or a failed send that timed out, could not connect or failed
/// as a request.
pub open spec fn should_retry(max_retries: u32, attempt: u64, outcome: AttemptOutcome) -> bool {
    match outcome {
        AttemptOutcome::Response { server_error } => server_error && attempt < max_retries,
        AttemptOutcome::Failed { timeout, connect, request } => attempt < max_retries && (timeout
            || connect || request),
        AttemptOutcome::CannotClone => false,
    }
}

/// The decision after an attempt that was made with the given delay pending.
pub open spec fn decision_spec(max_retries: u32, attempt: u64, delay: u64, outcome: AttemptOutcome) -> RetryDecision {
    if should_retry(max_retries, attempt, outcome) {
        RetryDecision::RetryAfter(delay)
    } else {
        match outcome {
            AttemptOutcome::Response { .. } => RetryDecision::ReturnResponse,
            AttemptOutcome::Failed { .. } => RetryDecision::GiveUp,
            AttemptOutcome::CannotClone => RetryDecision::SendWithoutRetry,
        }
    }
}

/// The state of a request's attempts: which attempt comes next and the
/// delay to wait before the one after.
#[derive(Debug, Clone, Copy)]
pub struct RetryState {
    pub config: RetryConfig,
    pub attempt: u64,
    pub delay_ms: u64,
}

impl RetryState {
    /// Before the first attempt.
    pub fn new(config: RetryConfig) -> (s: RetryState)
        ensures
            s.config == config,
            s.attempt == 0,
            s.delay_ms == config.initial_delay_ms,
    {
        RetryState { config, attempt: 0, delay_ms: config.initial_delay_ms }
    }

    /// Is another attempt allowed? There are `max_retries + 1` attempts in all.
    pub fn has_attempt_left(&self) -> (r: bool)
        ensures
            r == (self.attempt <= self.config.max_retries),
    {
        self.attempt <= self.config.max_retries as u64
    }

    /// Decides what follows an attempt. A retry moves to the next attempt
    /// and doubles the delay up to the cap.
    pub fn on_outcome(&mut self, outcome: AttemptOutcome) -> (d: RetryDecision)
        requires
            old(self).attempt <= old(self).config.max_retries,
        ensures
            d == decision_spec(
                old(self).config.max_retries,
                old(self).attempt,
                old(self).delay_ms,
                outcome,
            ),
            final(self).config == old(self).config,
            d is RetryAfter ==> old(self).attempt < old(self).config.max_retries,
            d is RetryAfter ==> final(self).attempt == old(self).attempt + 1 && final(self).delay_ms
                == next_delay_spec(old(self).delay_ms, old(self).config.max_delay_ms),
            !(d is RetryAfter) ==> *final(self) == *old(self),
    {
        let retry = match outcome {
            AttemptOutcome::Response { server_error } => server_error && self.attempt
                < self.config.max_retries as u64,
            AttemptOutcome::Failed { timeout, connect, request } => self.attempt
                < self.config.max_retries as u64 && (timeout || connect || request),
            AttemptOutcome::CannotClone => false,
        };
        if retry {
            let d = self.delay_ms;
            self.attempt = self.attempt + 1;
            self.delay_ms = next_delay(self.delay_ms, self.config.max_delay_ms);
            RetryDecision::RetryAfter(d)
        } else {
            match outcome {
                AttemptOutcome::Response { .. } => RetryDecision::ReturnResponse,
                AttemptOutcome::Failed { .. } => RetryDecision::GiveUp,
                AttemptOutcome::CannotClone => RetryDecision::SendWithoutRetry,
            }
        }
    }
}

/// The next delay: doubled, but no more than the cap.
pub fn next_delay(delay: u64, max_delay: u64) -> (r: u64)
    ensures
        r == next_delay_spec(delay, max_delay),
        r as int == if 2 * delay <= max_delay { 2 * delay } else { max_delay as int },
{
    if delay <= max_delay / 2 {
        delay * 2
    } else {
        max_delay
    }
}

// ---------------------------------------------------------------------------
// Circuit breaker.

/// How many failures in a row open the circuit.
pub open spec fn failure_threshold() -> u32 {
    5
}

/// How long an open circuit stays open after the last failure, in milliseconds.
pub open spec fn recovery_ms() -> u64 {
    60_000
}

/// Counts failures in a row; after five it opens, and refuses requests
/// until a minute has passed since the last failure.
#[derive(Debug, Clone, Copy)]
pub struct CircuitBreaker {
    pub failure_count: u32,
    pub last_failure_time: Option<u64>,
    pub is_open: bool,
}

/// Whether an open circuit lets a request through at `now`, and the
/// breaker afterwards: a closed circuit lets every request through; an
/// open one closes, and lets the request through, once a minute has
/// passed since the last failure (time that runs backwards counts as none).
pub open spec fn allow_spec(b: CircuitBreaker, now: u64) -> (CircuitBreaker, bool) {
    if !b.is_open {
        (b, true)
    } else {
        match b.last_failure_time {
            Some(t) => if now >= t && now - t >= recovery_ms() {
                (CircuitBreaker { failure_count: 0, last_failure_time: b.last_failure_time, is_open: false }, true)
            } else {
                (b, false)
            },
            None => (b, false),
        }
    }
}

/// The breaker after a failure at `now`: one more failure in a row, and
/// the circuit open from the fifth on.
pub open spec fn failure_spec(b: CircuitBreaker, now: u64) -> CircuitBreaker {
    let n = (b.failure_count + 1) as u32;
    CircuitBreaker {
        failure_count: n,
        last_failure_time: Some(now),
        is_open: b.is_open || n >= failure_threshold(),
    }
}

/// The breaker after failures at the given times, in order.
pub open spec fn failures_spec(b: CircuitBreaker, times: Seq<u64>) -> CircuitBreaker
    decreases times.len(),
{
    if times.len() == 0 {
        b
    } else {
        failure_spec(failures_spec(b, times.drop_last()), times.last())
    }
}

/// A closed breaker without failures.
pub open spec fn fresh_breaker() -> CircuitBreaker {
    CircuitBreaker { failure_count: 0, last_failure_time: None, is_open: false }
}

impl CircuitBreaker {
    /// A closed breaker without failures.
    pub fn new() -> (b: CircuitBreaker)
        ensures
            b == fresh_breaker(),
    {
        CircuitBreaker { failure_count: 0, last_failure_time: None, is_open: false }
    }

    /// A request went through: the count restarts and the circuit closes.
    pub fn record_success(&mut self)
        ensures
            final(self).failure_count == 0,
            !final(self).is_open,
            final(self).last_failure_time == old(self).last_failure_time,
    {
        self.failure_count = 0;
        self.is_open = false;
    }

    /// A request failed at `now`: one more failure; the fifth in a row opens
    /// the circuit.
    pub fn record_failure(&mut self, now: u64)
        requires
            old(self).failure_count < u32::MAX,
        ensures
            *final(self) == failure_spec(*old(self), now),
    {
        self.failure_count = self.failure_count + 1;
        self.last_failure_time = Some(now);
        if self.failure_count >= 5 {
            self.is_open = true;
        }
    }

    /// May a request go out at `now`? An open circuit that has waited long
    /// enough closes and lets it through.
    pub fn should_allow_request(&mut self, now: u64) -> (r: bool)
        ensures
            (*final(self), r) == allow_spec(*old(self), now),
    {
        if !self.is_open {
            return true;
        }
        match self.last_failure_time {
            Some(last_failure) => {
                if now >= last_failure && now - last_failure >= 60_000 {
                    self.is_open = false;
                    self.failure_count = 0;
                    return true;
                }
            },
            None => {},
        }
        false
    }
}

// ---------------------------------------------------------------------------
// Laws.

/// Delays grow: the next delay is twice the last, but never above the cap
/// unless the first delay already was.
pub proof fn lemma_delay_capped(delay: u64, max_delay: u64)
    ensures
        next_delay_spec(delay, max_delay) <= max_delay,
        delay <= max_delay / 2 ==> next_delay_spec(delay, max_delay) == 2 * delay,
{
}

/// Failures in a row from a fresh breaker: the circuit opens on the fifth
/// and not before, and then refuses requests until a minute after the last
/// failure.
pub proof fn lemma_five_failures_open(times: Seq<u64>, later: u64)
    requires
        times.len() < u32::MAX,
    ensures
        failures_spec(fresh_breaker(), times).failure_count == times.len(),
        failures_spec(fresh_breaker(), times).is_open <==> times.len() >= failure_threshold(),
        times.len() > 0 ==> failures_spec(fresh_breaker(), times).last_failure_time == Some(
            times.last(),
        ),
        times.len() >= failure_threshold() && times.last() <= later && later - times.last()
            < recovery_ms() ==> !allow_spec(failures_spec(fresh_breaker(), times), later).1,
    decreases times.len(),
{
    if times.len() > 0 {
        lemma_five_failures_open(times.drop_last(), later);
    }
}

/// A minute after the last failure an open breaker closes, lets a request
/// through and restarts the count.
pub proof fn lemma_open_recovers(b: CircuitBreaker, now: u64)
    requires
        b.is_open,
        b.last_failure_time matches Some(t) && t <= now && now - t >= recovery_ms(),
    ensures
        allow_spec(b, now).1,
        !allow_spec(b, now).0.is_open,
        allow_spec(b, now).0.failure_count == 0,
{
}

/// A closed breaker lets every request through and stays as it is.
pub proof fn lemma_closed_allows(b: CircuitBreaker, now: u64)
    requires
        !b.is_open,
    ensures
        allow_spec(b, now) == (b, true),
{
}


/// While attempts are left, a failed send is retried after the pending
/// delay when it timed out, could not connect or failed as a request, each
/// kind on its own; a 5xx response is retried too. With no attempt left
/// nothing is retried: a failed send gives up and a response is handed back.
/// A failure of none of those kinds gives up, and a response that is no 5xx
/// is handed back at once.
pub proof fn lemma_retry_policy(max_retries: u32, attempt: u64, delay: u64)
    ensures
        attempt < max_retries ==> {
            &&& decision_spec(
                max_retries,
                attempt,
                delay,
                AttemptOutcome::Failed { timeout: true, connect: false, request: false },
            ) == RetryDecision::RetryAfter(delay)
            &&& decision_spec(
                max_retries,
                attempt,
                delay,
                AttemptOutcome::Failed { timeout: false, connect: true, request: false },
            ) == RetryDecision::RetryAfter(delay)
            &&& decision_spec(
                max_retries,
                attempt,
                delay,
                AttemptOutcome::Failed { timeout: false, connect: false, request: true },
            ) == RetryDecision::RetryAfter(delay)
            &&& decision_spec(
                max_retries,
                attempt,
                delay,
                AttemptOutcome::Response { server_error: true },
            ) == RetryDecision::RetryAfter(delay)
        },
        attempt >= max_retries ==> forall|timeout: bool, connect: bool, request: bool|
            #[trigger] decision_spec(
                max_retries,
                attempt,
                delay,
                AttemptOutcome::Failed { timeout, connect, request },
            ) == RetryDecision::GiveUp,
        attempt >= max_retries ==> decision_spec(
            max_retries,
            attempt,
            delay,
            AttemptOutcome::Response { server_error: true },
        ) == RetryDecision::ReturnResponse,
        decision_spec(
            max_retries,
            attempt,
            delay,
            AttemptOutcome::Failed { timeout: false, connect: false, request: false },
        ) == RetryDecision::GiveUp,
        decision_spec(max_retries, attempt, delay, AttemptOutcome::Response { server_error: false })
            == RetryDecision::ReturnResponse,
{
}

} // verus!

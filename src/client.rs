use crate::cache::MAX_CACHE_CAPACITY;
use crate::error::{DlsiteError, Result};
use crate::retry::{retryable, RetryConfig};
use vstd::prelude::*;

verus! {

/// Minimum time, in milliseconds, between two requests of one client.
pub const MIN_REQUEST_INTERVAL_MS: u64 = 500;

/// How long to wait, at time `now`, before dispatching when the previous
/// dispatch happened at `last`: whatever is left of `interval` since then.
pub open spec fn wait_before_dispatch(last: u64, now: u64, interval: u64) -> u64 {
    let elapsed: int = if now >= last { now - last } else { 0 };
    if elapsed < interval {
        (interval - elapsed) as u64
    } else {
        0
    }
}

/// The wait before a dispatch at time `now_ms`, given that the previous one
/// was stamped at `last_dispatch_ms`. A clock that went backwards counts as
/// no time elapsed.
pub fn dispatch_delay(last_dispatch_ms: u64, now_ms: u64, min_interval_ms: u64) -> (r: u64)
    ensures
        r == wait_before_dispatch(last_dispatch_ms, now_ms, min_interval_ms),
        r <= min_interval_ms,
{
    let elapsed = now_ms.saturating_sub(last_dispatch_ms);
    if elapsed < min_interval_ms {
        min_interval_ms - elapsed
    } else {
        0
    }
}

/// Two dispatches made one after the other through the wait-then-stamp
/// protocol are at least the minimum interval apart: the first is stamped at
/// `last`, the second computes its wait at a later time `now` and goes out at
/// `sent`, after that wait.
pub proof fn lemma_dispatch_gap(last: u64, now: u64, interval: u64, sent: u64)
    requires
        last <= now,
        sent >= now + wait_before_dispatch(last, now, interval),
    ensures
        sent >= last + interval,
{
}

/// The error that an HTTP status code stands for: none for 2xx, a rate-limit
/// error for 429, and an HTTP status error carrying the code otherwise.
pub fn status_error(status: u16) -> (r: Option<DlsiteError>)
    ensures
        r is None <==> 200 <= status <= 299,
        status == 429 ==> (r matches Some(DlsiteError::RateLimit(m))
            && m@ == "Too many requests, please retry later"@),
        !(200 <= status <= 299) && status != 429 ==> r == Some(DlsiteError::HttpStatus(status)),
{
    if 200 <= status && status <= 299 {
        None
    } else if status == 429 {
        Some(DlsiteError::RateLimit(String::from_str("Too many requests, please retry later")))
    } else {
        Some(DlsiteError::HttpStatus(status))
    }
}

/// The full URL of `path` under `base_url`: the two strings joined.
pub fn request_url(base_url: &str, path: &str) -> (r: String)
    ensures
        r@ == base_url@ + path@,
{
    let mut url = base_url.to_owned();
    url.append(path);
    url
}

/// What the retry loop does after an attempt.
#[derive(Debug)]
pub enum FetchStep {
    /// Sleep for `delay_ms` milliseconds, then wait for a slot and dispatch again.
    Retry { delay_ms: u64 },
    /// Stop with this result.
    Done(Result<String>),
}

/// The decisions of one fetch's retry loop: after each dispatch the caller
/// reports the outcome and is told whether to back off and retry or to stop.
/// It never asks for more than `max_retries + 1` dispatches.
pub struct RetryLoop {
    attempt: u32,
}

impl RetryLoop {
    /// How many attempts have failed and been retried so far.
    pub closed spec fn failed(&self) -> nat {
        self.attempt as nat
    }

    /// A loop before its first dispatch.
    pub fn new() -> (r: Self)
        ensures
            r.failed() == 0,
    {
        RetryLoop { attempt: 0 }
    }

    /// The number of the attempt under way, counted from 0.
    pub fn attempt(&self) -> (r: u32)
        ensures
            r == self.failed(),
    {
        self.attempt
    }

    /// Decides what follows the outcome of the current attempt. A success is
    /// returned as is. A failure is retried, after the backoff delay of the
    /// current attempt, when attempts remain and the error is retryable;
    /// otherwise it is returned.
    pub fn on_outcome(&mut self, config: &RetryConfig, outcome: Result<String>) -> (r: FetchStep)
        requires
            old(self).failed() <= config.max_retries,
        ensures
            final(self).failed() <= config.max_retries,
            match outcome {
                Ok(body) => r == FetchStep::Done(Ok(body)) && final(self).failed() == old(
                    self,
                ).failed(),
                Err(e) => if old(self).failed() < config.max_retries && retryable(e) {
                    &&& r == FetchStep::Retry {
                        delay_ms: config.delay_for(old(self).failed()) as u64,
                    }
                    &&& final(self).failed() == old(self).failed() + 1
                } else {
                    &&& r == FetchStep::Done(Err(e))
                    &&& final(self).failed() == old(self).failed()
                },
            },
    {
        match outcome {
            Ok(body) => FetchStep::Done(Ok(body)),
            Err(e) => {
                if self.attempt < config.max_retries && config.is_retryable(&e) {
                    let delay_ms = config.calculate_delay(self.attempt);
                    self.attempt = self.attempt + 1;
                    FetchStep::Retry { delay_ms }
                } else {
                    FetchStep::Done(Err(e))
                }
            },
        }
    }
}

/// Settings from which an HTTP client is built.
#[derive(Clone, Debug)]
pub struct DlsiteClientBuilder {
    pub base_url: String,
    pub pool_max_idle_per_host: usize,
    pub timeout_ms: u64,
    pub cache_capacity: usize,
    pub cache_ttl_ms: u64,
    pub retry_config: RetryConfig,
}

impl DlsiteClientBuilder {
    /// Default settings for `base_url`: 10 idle connections per host, a 30 s
    /// timeout, a cache of 100 entries fresh for an hour, and the default
    /// retry configuration.
    pub fn new(base_url: &str) -> (r: Self)
        ensures
            r.base_url@ == base_url@,
            r.pool_max_idle_per_host == 10,
            r.timeout_ms == 30_000,
            r.cache_capacity == 100,
            r.cache_ttl_ms == 3_600_000,
            r.retry_config.max_retries == 3,
            r.retry_config.initial_delay_ms == 100,
            r.retry_config.max_delay_ms == 10_000,
            r.retry_config.backoff_multiplier == 2,
    {
        DlsiteClientBuilder {
            base_url: base_url.to_owned(),
            pool_max_idle_per_host: 10,
            timeout_ms: 30_000,
            cache_capacity: 100,
            cache_ttl_ms: 3_600_000,
            retry_config: RetryConfig::default(),
        }
    }

    /// Sets the maximum number of idle connections per host.
    pub fn pool_max_idle_per_host(self, max: usize) -> (r: Self)
        ensures
            r == (DlsiteClientBuilder { pool_max_idle_per_host: max, ..self }),
    {
        DlsiteClientBuilder { pool_max_idle_per_host: max, ..self }
    }

    /// Sets the request timeout, in milliseconds.
    pub fn timeout(self, timeout_ms: u64) -> (r: Self)
        ensures
            r == (DlsiteClientBuilder { timeout_ms, ..self }),
    {
        DlsiteClientBuilder { timeout_ms, ..self }
    }

    /// Sets the cache capacity and time-to-live, in milliseconds.
    pub fn cache(self, capacity: usize, ttl_ms: u64) -> (r: Self)
        ensures
            r == (DlsiteClientBuilder { cache_capacity: capacity, cache_ttl_ms: ttl_ms, ..self }),
    {
        DlsiteClientBuilder { cache_capacity: capacity, cache_ttl_ms: ttl_ms, ..self }
    }

    /// Sets the retry configuration.
    pub fn retry_config(self, config: RetryConfig) -> (r: Self)
        ensures
            r == (DlsiteClientBuilder { retry_config: config, ..self }),
    {
        DlsiteClientBuilder { retry_config: config, ..self }
    }

    /// Whether the cache settings can be built: a capacity of at least one
    /// and at most [`MAX_CACHE_CAPACITY`].
    pub fn cache_settings_valid(&self) -> (r: bool)
        ensures
            r == (0 < self.cache_capacity <= MAX_CACHE_CAPACITY),
    {
        0 < self.cache_capacity && self.cache_capacity <= MAX_CACHE_CAPACITY
    }
}

} // verus!

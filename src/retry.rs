use crate::error::DlsiteError;
use vstd::prelude::*;

verus! {

/// `base` raised to `exp`.
pub open spec fn power(base: nat, exp: nat) -> nat
    decreases exp,
{
    if exp == 0 {
        1
    } else {
        base * power(base, (exp - 1) as nat)
    }
}

/// The backoff delay before retry number `attempt`:
/// `min(initial * multiplier^attempt, max)`.
pub open spec fn backoff_delay(initial: nat, multiplier: nat, max: nat, attempt: nat) -> nat {
    let d = initial * power(multiplier, attempt);
    if d <= max {
        d
    } else {
        max
    }
}

/// Which errors are worth another attempt: timeouts, upstream rate limiting
/// and server errors (status 500 and above).
pub open spec fn retryable(e: DlsiteError) -> bool {
    match e {
        DlsiteError::Timeout => true,
        DlsiteError::RateLimit(_) => true,
        DlsiteError::HttpStatus(code) => code >= 500,
        _ => false,
    }
}

proof fn lemma_power_monotonic(m: nat, k: nat, a: nat)
    requires
        m >= 1,
        k <= a,
    ensures
        power(m, k) <= power(m, a),
    decreases a,
{
    if k < a {
        lemma_power_monotonic(m, k, (a - 1) as nat);
        let p = power(m, (a - 1) as nat);
        assert(p <= m * p) by (nonlinear_arith)
            requires
                m >= 1,
        ;
    }
}

proof fn lemma_delay_grows(initial: nat, m: nat, k: nat, a: nat)
    requires
        m >= 1,
        k <= a,
    ensures
        initial * power(m, k) <= initial * power(m, a),
{
    lemma_power_monotonic(m, k, a);
    let pk = power(m, k);
    let pa = power(m, a);
    assert(initial * pk <= initial * pa) by (nonlinear_arith)
        requires
            pk <= pa,
    ;
}

/// Retry configuration for HTTP requests. Delays are in milliseconds.
#[derive(Clone, Debug)]
pub struct RetryConfig {
    /// Maximum number of retry attempts after the first one.
    pub max_retries: u32,
    /// Delay before the first retry.
    pub initial_delay_ms: u64,
    /// Upper bound of every delay.
    pub max_delay_ms: u64,
    /// Factor by which the delay grows with each attempt.
    pub backoff_multiplier: u32,
}

impl Default for RetryConfig {
    /// Three retries, starting at 100 ms, doubling, at most 10 s.
    fn default() -> (r: Self)
        ensures
            r.max_retries == 3,
            r.initial_delay_ms == 100,
            r.max_delay_ms == 10_000,
            r.backoff_multiplier == 2,
    {
        RetryConfig {
            max_retries: 3,
            initial_delay_ms: 100,
            max_delay_ms: 10_000,
            backoff_multiplier: 2,
        }
    }
}

impl RetryConfig {
    /// The delay, in milliseconds, before retry number `attempt` under this configuration.
    pub open spec fn delay_for(&self, attempt: nat) -> nat {
        backoff_delay(
            self.initial_delay_ms as nat,
            self.backoff_multiplier as nat,
            self.max_delay_ms as nat,
            attempt,
        )
    }

    /// A configuration with the given bounds and a doubling backoff.
    pub fn new(max_retries: u32, initial_delay_ms: u64, max_delay_ms: u64) -> (r: Self)
        ensures
            r.max_retries == max_retries,
            r.initial_delay_ms == initial_delay_ms,
            r.max_delay_ms == max_delay_ms,
            r.backoff_multiplier == 2,
    {
        RetryConfig { max_retries, initial_delay_ms, max_delay_ms, backoff_multiplier: 2 }
    }

    /// The delay before retry number `attempt` (counted from 0):
    /// `min(initial_delay * backoff_multiplier^attempt, max_delay)`.
    pub fn calculate_delay(&self, attempt: u32) -> (r: u64)
        ensures
            r == self.delay_for(attempt as nat),
            r <= self.max_delay_ms,
    {
        let initial = self.initial_delay_ms;
        let max = self.max_delay_ms;
        let m = self.backoff_multiplier;
        if m == 0 {
            if attempt == 0 {
                return if initial <= max {
                    initial
                } else {
                    max
                };
            }
            proof {
                assert(power(0, attempt as nat) == 0 * power(0, (attempt - 1) as nat));
                assert(initial * power(0, attempt as nat) == 0);
            }
            return 0;
        }
        if initial > max {
            proof {
                lemma_delay_grows(initial as nat, m as nat, 0, attempt as nat);
                assert(power(m as nat, 0) == 1);
                assert(initial * power(m as nat, 0) == initial);
            }
            return max;
        }
        let mut delay: u64 = initial;
        let mut k: u32 = 0;
        while k < attempt
            invariant
                k <= attempt,
                m >= 1,
                m == self.backoff_multiplier,
                initial == self.initial_delay_ms,
                max == self.max_delay_ms,
                delay as nat == initial * power(m as nat, k as nat),
                delay <= max,
            decreases attempt - k,
        {
            assert(delay as u128 * m as u128 <= 0xffff_ffff_ffff_ffff_u128 * 0xffff_ffff_u128)
                by (nonlinear_arith)
                requires
                    delay <= 0xffff_ffff_ffff_ffff_u64,
                    m <= 0xffff_ffff_u32,
            ;
            let next: u128 = delay as u128 * m as u128;
            proof {
                assert(power(m as nat, (k + 1) as nat) == m * power(m as nat, k as nat));
                assert(initial * (m * power(m as nat, k as nat)) == (initial * power(
                    m as nat,
                    k as nat,
                )) * m) by (nonlinear_arith);
            }
            if next > max as u128 {
                proof {
                    lemma_delay_grows(initial as nat, m as nat, (k + 1) as nat, attempt as nat);
                }
                return max;
            }
            delay = next as u64;
            k = k + 1;
        }
        delay
    }

    /// Whether an error is worth retrying: timeouts, rate limiting and
    /// status codes of 500 and above are; everything else is not.
    pub fn is_retryable(&self, error: &DlsiteError) -> (r: bool)
        ensures
            r == retryable(*error),
    {
        match error {
            DlsiteError::Timeout => true,
            DlsiteError::RateLimit(_) => true,
            DlsiteError::HttpStatus(code) => *code >= 500,
            _ => false,
        }
    }
}

/// Under a multiplier of at least one, the backoff delay never shrinks from
/// one attempt to a later one, and it never exceeds the configured maximum.
pub proof fn lemma_backoff_monotonic(config: RetryConfig, a: nat, b: nat)
    requires
        config.backoff_multiplier >= 1,
        a <= b,
    ensures
        config.delay_for(a) <= config.delay_for(b),
        config.delay_for(b) <= config.max_delay_ms,
{
    lemma_delay_grows(
        config.initial_delay_ms as nat,
        config.backoff_multiplier as nat,
        a,
        b,
    );
}

} // verus!

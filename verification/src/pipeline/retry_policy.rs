use vstd::prelude::*;
use vstd::arithmetic::power2::pow2;

verus! {

/// How a failed storage operation is retried.
#[derive(Debug, Clone, Copy, PartialEq, Eq, Structural)]
pub struct RetryConfig {
    /// Retries after the first attempt.
    pub max_retries: u32,
    /// Delay before the first retry, in milliseconds; it doubles on each retry.
    pub base_delay_ms: u64,
    /// Cap on the delay, in milliseconds.
    pub max_delay_ms: u64,
}

impl Default for RetryConfig {
    fn default() -> (r: Self)
        ensures
            r == (RetryConfig { max_retries: 3, base_delay_ms: 100, max_delay_ms: 10000 }),
    {
        RetryConfig { max_retries: 3, base_delay_ms: 100, max_delay_ms: 10000 }
    }
}

/// What to do after attempt number `attempt` (counted from 0) failed.
#[derive(Debug, Clone, Copy, PartialEq, Eq, Structural)]
pub enum RetryStep {
    /// The retries are used up.
    GiveUp,
    /// Wait about this many milliseconds (before jitter), then try again.
    RetryAfter(u64),
}

/// The delay before retry `attempt`: the base delay doubled `attempt` times,
/// capped at `max`.
pub open spec fn backoff_ms(base: nat, attempt: nat, max: nat) -> nat
    decreases attempt,
{
    if attempt == 0 {
        if base <= max { base } else { max }
    } else {
        let d = 2 * backoff_ms(base, (attempt - 1) as nat, max);
        if d <= max { d } else { max }
    }
}

/// The step after attempt `attempt` failed: give up once `max_retries`
/// retries have been made, else retry after the capped exponential delay.
pub open spec fn retry_step(config: RetryConfig, attempt: u32) -> RetryStep {
    if attempt >= config.max_retries {
        RetryStep::GiveUp
    } else {
        RetryStep::RetryAfter(backoff_ms(config.base_delay_ms as nat, attempt as nat, config.max_delay_ms as nat) as u64)
    }
}

/// The capped delay never exceeds the cap.
proof fn lemma_backoff_capped(base: nat, attempt: nat, max: nat)
    ensures
        backoff_ms(base, attempt, max) <= max,
    decreases attempt,
{
    if attempt > 0 {
        lemma_backoff_capped(base, (attempt - 1) as nat, max);
    }
}

/// Decides what follows the failure of attempt `attempt`.
pub fn next_retry(config: &RetryConfig, attempt: u32) -> (r: RetryStep)
    ensures
        r == retry_step(*config, attempt),
{
    if attempt >= config.max_retries {
        return RetryStep::GiveUp;
    }
    let max = config.max_delay_ms;
    let mut d: u64 = if config.base_delay_ms <= max { config.base_delay_ms } else { max };
    let mut k: u32 = 0;
    while k < attempt
        invariant
            k <= attempt,
            d as nat == backoff_ms(config.base_delay_ms as nat, k as nat, max as nat),
            d <= max,
        decreases attempt - k,
    {
        d = if d <= max / 2 { 2 * d } else { max };
        k = k + 1;
    }
    RetryStep::RetryAfter(d)
}

/// The delays grow: each is at least the one before, until the cap.
pub proof fn law_backoff_monotone(base: nat, attempt: nat, max: nat)
    ensures
        backoff_ms(base, attempt, max) <= backoff_ms(base, attempt + 1, max),
    decreases attempt,
{
    lemma_backoff_capped(base, attempt, max);
}

/// The delay is exponential: the base delay times two to the power of the
/// attempt number, capped at the maximum.
pub proof fn law_backoff_exponential(base: nat, attempt: nat, max: nat)
    ensures
        backoff_ms(base, attempt, max) == if base * pow2(attempt) <= max { base * pow2(attempt) } else { max },
    decreases attempt,
{
    if attempt == 0 {
        assert(pow2(0) == 1) by {
            vstd::arithmetic::power2::lemma_pow2(0);
            vstd::arithmetic::power::lemma_pow0(2);
        }
    } else {
        let a = (attempt - 1) as nat;
        law_backoff_exponential(base, a, max);
        vstd::arithmetic::power2::lemma_pow2_unfold(attempt);
        assert(base * pow2(attempt) == 2 * (base * pow2(a))) by (nonlinear_arith)
            requires
                pow2(attempt) == 2 * pow2(a),
        ;
    }
}

/// An operation is tried at most `max_retries + 1` times: every attempt from
/// `max_retries` on gives up, and every earlier one retries.
pub proof fn law_retries_bounded(config: RetryConfig, attempt: u32)
    ensures
        (retry_step(config, attempt) is GiveUp) <==> attempt >= config.max_retries,
{
}

} // verus!

//! The retry policy for provider failures: which failures are retried, and
//! how long to wait before each new attempt.
use vstd::prelude::*;
use crate::error::ProviderError;

verus! {

/// Two to the power `n`.
pub open spec fn pow2(n: nat) -> nat
    decreases n,
{
    if n == 0 {
        1
    } else {
        2 * pow2((n - 1) as nat)
    }
}

/// The smaller of two numbers.
pub open spec fn min_nat(a: nat, b: nat) -> nat {
    if a <= b {
        a
    } else {
        b
    }
}

/// The wait before the attempt after `attempt`: `base * 2^attempt`, saturated
/// at the largest `u64`, and capped at `max`.
pub open spec fn retry_delay(attempt: nat, base: nat, max: nat) -> nat {
    min_nat(max, min_nat(base * pow2(attempt), u64::MAX as nat))
}

/// Whether a provider failure may be retried: request-class failures may,
/// response-class failures may not.
pub fn is_retryable_provider_error(err: &ProviderError) -> (r: bool)
    ensures
        r == (err is Request),
{
    match err {
        ProviderError::Request(_) => true,
        ProviderError::Response(_) => false,
    }
}

proof fn lemma_double(base: nat, i: nat)
    ensures
        base * pow2(i + 1) == 2 * (base * pow2(i)),
{
    assert(pow2(i + 1) == 2 * pow2(i));
    assert(base * (2 * pow2(i)) == 2 * (base * pow2(i))) by (nonlinear_arith);
}

/// The wait in milliseconds before retrying after the failed attempt `attempt`
/// (counted from zero).
pub fn retry_delay_ms(attempt: u32, base_delay_ms: u64, max_delay_ms: u64) -> (r: u64)
    ensures
        r == retry_delay(attempt as nat, base_delay_ms as nat, max_delay_ms as nat),
{
    let mut delay = base_delay_ms;
    let mut i: u32 = 0;
    assert(pow2(0) == 1);
    assert(base_delay_ms as nat * 1 == base_delay_ms as nat);
    while i < attempt
        invariant
            0 <= i <= attempt,
            delay == min_nat(base_delay_ms as nat * pow2(i as nat), u64::MAX as nat),
        decreases attempt - i,
    {
        proof {
            lemma_double(base_delay_ms as nat, i as nat);
        }
        if delay > u64::MAX / 2 {
            delay = u64::MAX;
        } else {
            delay = delay * 2;
        }
        i = i + 1;
    }
    if delay < max_delay_ms {
        delay
    } else {
        max_delay_ms
    }
}

/// The number of attempts a budget allows: at least one.
pub open spec fn attempt_budget(max_retries: u32) -> nat {
    if max_retries == 0 {
        1
    } else {
        max_retries as nat
    }
}

/// What to do after the failed attempt `attempt` (counted from zero): wait
/// the returned delay and try again, or give up (`None`).
pub fn retry_decision(err: &ProviderError, attempt: u32, max_retries: u32, base_delay_ms: u64, max_delay_ms: u64) -> (r: Option<u64>)
    ensures
        r is Some <==> (err is Request && attempt + 1 < attempt_budget(max_retries)),
        r matches Some(d) ==> d == retry_delay(attempt as nat, base_delay_ms as nat, max_delay_ms as nat),
{
    let budget: u32 = if max_retries == 0 {
        1
    } else {
        max_retries
    };
    if is_retryable_provider_error(err) && (attempt as u64) + 1 < budget as u64 {
        Some(retry_delay_ms(attempt, base_delay_ms, max_delay_ms))
    } else {
        None
    }
}

} // verus!

//! Capped exponential backoff: attempt `n` waits `base * 2^n` milliseconds,
//! clamped to a configured maximum, and never overflows however large the
//! attempt number grows.

use vstd::prelude::*;
use vstd::arithmetic::power2::pow2;

verus! {

/// The delay, in milliseconds, that the backoff policy asks for on the given
/// zero-based attempt: `base_ms * 2^attempt`, clamped to `max_ms`.
pub open spec fn backoff_spec(attempt: nat, base_ms: u64, max_ms: u64) -> int {
    if base_ms * pow2(attempt) <= max_ms {
        (base_ms * pow2(attempt)) as int
    } else {
        max_ms as int
    }
}

/// The delay never exceeds the configured maximum.
pub proof fn lemma_backoff_capped(attempt: nat, base_ms: u64, max_ms: u64)
    ensures
        backoff_spec(attempt, base_ms, max_ms) <= max_ms,
{
}

proof fn lemma_pow2_monotone(e1: nat, e2: nat)
    requires
        e1 <= e2,
    ensures
        pow2(e1) <= pow2(e2),
{
    if e1 < e2 {
        vstd::arithmetic::power2::lemma_pow2_strictly_increases(e1, e2);
    }
}

/// The delay is monotonically non-decreasing in the attempt number: once the
/// cap is reached it stays there, and before that each attempt waits at least
/// as long as the one before.
pub proof fn lemma_backoff_monotone(a1: nat, a2: nat, base_ms: u64, max_ms: u64)
    requires
        a1 <= a2,
    ensures
        backoff_spec(a1, base_ms, max_ms) <= backoff_spec(a2, base_ms, max_ms),
{
    lemma_pow2_monotone(a1, a2);
    if base_ms > 0 {
        vstd::arithmetic::mul::lemma_mul_left_inequality(
            base_ms as int,
            pow2(a1) as int,
            pow2(a2) as int,
        );
    } else {
        vstd::arithmetic::mul::lemma_mul_by_zero_is_zero(pow2(a1) as int);
        vstd::arithmetic::mul::lemma_mul_by_zero_is_zero(pow2(a2) as int);
    }
}

/// From the 64th attempt on, a nonzero base has long saturated the cap.
pub proof fn lemma_backoff_saturated(attempt: nat, base_ms: u64, max_ms: u64)
    requires
        attempt >= 64,
        base_ms >= 1,
    ensures
        backoff_spec(attempt, base_ms, max_ms) == max_ms,
{
    vstd::arithmetic::power2::lemma2_to64();
    vstd::arithmetic::power2::lemma2_to64_rest();
    lemma_pow2_monotone(64, attempt);
    vstd::arithmetic::mul::lemma_mul_inequality(1, base_ms as int, pow2(attempt) as int);
    assert(base_ms * pow2(attempt) >= pow2(attempt));
}

/// A zero base stays zero whatever the attempt.
pub proof fn lemma_backoff_zero_base(attempt: nat, max_ms: u64)
    ensures
        backoff_spec(attempt, 0, max_ms) == 0,
{
    vstd::arithmetic::mul::lemma_mul_by_zero_is_zero(pow2(attempt) as int);
}

/// Computes `min(base_delay_ms * 2^attempt, max_delay_ms)` without ever
/// overflowing or wrapping, for every attempt number.
pub fn backoff_strategy(attempt: u32, base_delay_ms: u64, max_delay_ms: u64) -> (r: u64)
    ensures
        r == backoff_spec(attempt as nat, base_delay_ms, max_delay_ms),
{
    if base_delay_ms == 0 {
        proof {
            vstd::arithmetic::power2::lemma_pow2_pos(attempt as nat);
        }
        return 0;
    }
    let mut delay: u64 = base_delay_ms;
    let mut i: u32 = 0;
    proof {
        assert(pow2(0) == 1) by {
            vstd::arithmetic::power2::lemma2_to64();
        }
    }
    while i < attempt
        invariant
            i <= attempt,
            base_delay_ms >= 1,
            delay == base_delay_ms * pow2(i as nat),
        decreases attempt - i,
    {
        if delay >= max_delay_ms {
            proof {
                lemma_pow2_monotone(i as nat, attempt as nat);
                vstd::arithmetic::mul::lemma_mul_left_inequality(
                    base_delay_ms as int,
                    pow2(i as nat) as int,
                    pow2(attempt as nat) as int,
                );
            }
            return max_delay_ms;
        }
        if delay > u64::MAX / 2 {
            proof {
                lemma_pow2_monotone(i as nat + 1, attempt as nat);
                vstd::arithmetic::power2::lemma_pow2_unfold(i as nat + 1);
                vstd::arithmetic::mul::lemma_mul_left_inequality(
                    base_delay_ms as int,
                    pow2(i as nat + 1) as int,
                    pow2(attempt as nat) as int,
                );
                assert(base_delay_ms * (pow2(i as nat) * 2) == delay * 2) by {
                    vstd::arithmetic::mul::lemma_mul_is_associative(
                        base_delay_ms as int,
                        pow2(i as nat) as int,
                        2,
                    );
                }
            }
            return max_delay_ms;
        }
        proof {
            vstd::arithmetic::power2::lemma_pow2_unfold(i as nat + 1);
            assert(base_delay_ms * (pow2(i as nat) * 2) == delay * 2) by {
                vstd::arithmetic::mul::lemma_mul_is_associative(
                    base_delay_ms as int,
                    pow2(i as nat) as int,
                    2,
                );
            }
        }
        delay = delay * 2;
        i = i + 1;
    }
    if delay >= max_delay_ms {
        max_delay_ms
    } else {
        delay
    }
}

} // verus!

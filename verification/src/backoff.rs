//! How long the loop waits before it tries again.

use vstd::prelude::*;

verus! {

/// The wait before the first retry, in milliseconds.
pub const BASE_DELAY_MILLIS: u64 = 5_000;

/// The longest wait between two retries, in milliseconds.
pub const MAX_DELAY_MILLIS: u64 = 300_000;

/// The wait that retry number `attempt` may reach: the base for the first,
/// twice the one before for each later one, and never above the maximum.
pub open spec fn ceiling(attempt: nat) -> nat
    decreases attempt,
{
    if attempt <= 1 {
        BASE_DELAY_MILLIS as nat
    } else if 2 * ceiling((attempt - 1) as nat) >= MAX_DELAY_MILLIS {
        MAX_DELAY_MILLIS as nat
    } else {
        2 * ceiling((attempt - 1) as nat)
    }
}

/// The wait before retry number `attempt`: half of its ceiling and, drawn
/// from `entropy`, up to as much again.
pub open spec fn backoff(attempt: nat, entropy: nat) -> nat {
    let c = ceiling(attempt);
    c / 2 + entropy % (c / 2 + 1)
}

/// The ceiling lies between the base and the maximum and never shrinks
/// from one retry to the next.
pub proof fn lemma_ceiling_bounds(attempt: nat)
    ensures
        BASE_DELAY_MILLIS <= ceiling(attempt) <= MAX_DELAY_MILLIS,
        ceiling(attempt) <= ceiling(attempt + 1),
    decreases attempt,
{
    if attempt > 1 {
        lemma_ceiling_bounds((attempt - 1) as nat);
    }
}

/// The wait lies between half the ceiling and the ceiling, whatever the
/// entropy.
pub proof fn lemma_backoff_bounds(attempt: nat, entropy: nat)
    ensures
        ceiling(attempt) / 2 <= backoff(attempt, entropy) <= ceiling(attempt),
        backoff(attempt, entropy) <= MAX_DELAY_MILLIS,
{
    lemma_ceiling_bounds(attempt);
    let half = ceiling(attempt) / 2;
    assert(entropy % (half + 1) <= half) by (nonlinear_arith)
        requires
            half >= 0,
    ;
}

/// The ceiling of retry number `attempt`.
pub fn delay_ceiling(attempt: u32) -> (millis: u64)
    ensures
        millis == ceiling(attempt as nat),
{
    let mut millis: u64 = BASE_DELAY_MILLIS;
    let mut done: u32 = 1;
    while done < attempt
        invariant
            1 <= done,
            done <= attempt || (attempt == 0 && done == 1),
            millis == ceiling(done as nat),
            millis <= MAX_DELAY_MILLIS,
        decreases attempt - done,
    {
        if millis >= MAX_DELAY_MILLIS / 2 {
            millis = MAX_DELAY_MILLIS;
        } else {
            millis = 2 * millis;
        }
        done += 1;
    }
    millis
}

/// The wait before retry number `attempt`, in milliseconds. `entropy` is a
/// number that the caller drew at random; it spreads the retries of many
/// loops over the upper half of the ceiling.
pub fn backoff_delay(attempt: u32, entropy: u64) -> (millis: u64)
    ensures
        millis == backoff(attempt as nat, entropy as nat),
        millis <= MAX_DELAY_MILLIS,
{
    let c = delay_ceiling(attempt);
    proof {
        lemma_backoff_bounds(attempt as nat, entropy as nat);
    }
    let half = c / 2;
    half + entropy % (half + 1)
}

} // verus!

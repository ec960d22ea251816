use vstd::prelude::*;

verus! {

/// First wait, in milliseconds, after a failed attempt to reach the next peer.
pub const INITIAL_WAIT_IN_MS_FOR_CONNECTION_ATTEMPT: u64 = 100;

/// Ceiling on the wait between attempts; a wait that would reach it starts over.
pub const MAX_WAIT_IN_MS_FOR_CONNECTION_ATTEMPT: u64 = 5000;

/// Wait that follows a wait of `current` milliseconds.
pub open spec fn spec_next_delay(current: u64) -> u64 {
    if 2 * current >= MAX_WAIT_IN_MS_FOR_CONNECTION_ATTEMPT {
        INITIAL_WAIT_IN_MS_FOR_CONNECTION_ATTEMPT
    } else {
        (2 * current) as u64
    }
}

/// A wait that the backoff can produce.
pub open spec fn is_backoff_delay(d: u64) -> bool {
    INITIAL_WAIT_IN_MS_FOR_CONNECTION_ATTEMPT <= d < MAX_WAIT_IN_MS_FOR_CONNECTION_ATTEMPT
}

/// Doubles the wait, and starts over from the initial wait where the double
/// would reach the ceiling.
pub fn next_delay(current: u64) -> (r: u64)
    requires
        current < MAX_WAIT_IN_MS_FOR_CONNECTION_ATTEMPT,
    ensures
        r == spec_next_delay(current),
        r < MAX_WAIT_IN_MS_FOR_CONNECTION_ATTEMPT,
{
    let doubled = current * 2;
    if doubled >= MAX_WAIT_IN_MS_FOR_CONNECTION_ATTEMPT {
        INITIAL_WAIT_IN_MS_FOR_CONNECTION_ATTEMPT
    } else {
        doubled
    }
}

/// The `n`-th wait of a run of failed attempts.
pub open spec fn delay_after(n: nat) -> u64
    decreases n,
{
    if n == 0 {
        INITIAL_WAIT_IN_MS_FOR_CONNECTION_ATTEMPT
    } else {
        spec_next_delay(delay_after((n - 1) as nat))
    }
}

/// Every wait of a run starts at or above the initial wait and stays under the
/// ceiling; each one doubles the one before it, or is the initial wait again
/// where the double would have reached the ceiling.
pub proof fn lemma_backoff_sequence(n: nat)
    ensures
        is_backoff_delay(delay_after(n)),
        n > 0 ==> {
            let prev = delay_after((n - 1) as nat);
            if 2 * prev < MAX_WAIT_IN_MS_FOR_CONNECTION_ATTEMPT {
                delay_after(n) == 2 * prev && delay_after(n) > prev
            } else {
                delay_after(n) == INITIAL_WAIT_IN_MS_FOR_CONNECTION_ATTEMPT
            }
        },
    decreases n,
{
    if n > 0 {
        lemma_backoff_sequence((n - 1) as nat);
    }
}

} // verus!

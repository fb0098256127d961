//! The wait before SSH is started again.
use vstd::prelude::*;

use crate::duration::{Duration, MAX_NANOS, NANOS_PER_SEC, longer, shorter};

verus! {

/// How many slow tries were made: those beyond the fast ones.
pub open spec fn slow_tries(tries: nat, fast_tries: nat) -> nat {
    (tries - fast_tries) as nat
}

/// How many hundredths of the poll time a slow try waits; it grows with the
/// square of the slow tries.
pub open spec fn backoff_factor(slow: nat) -> nat {
    slow * (slow * 3)
}

/// The wait before a try, in nanoseconds: nothing before a fast one, and at least
/// the poll time before a slow one.
pub open spec fn delay(tries: nat, fast_tries: nat, poll_time: nat) -> nat {
    if tries < fast_tries {
        0
    } else {
        longer(poll_time / 100 * backoff_factor(slow_tries(tries, fast_tries)), poll_time)
    }
}

/// Whether the wait can be computed: its factor fits 32 bits and it is no longer
/// than any span.
pub open spec fn delay_fits(tries: nat, fast_tries: nat, poll_time: nat) -> bool {
    tries >= fast_tries ==> {
        let factor = backoff_factor(slow_tries(tries, fast_tries));
        factor <= u32::MAX && poll_time / 100 * factor <= MAX_NANOS
    }
}

/// The wait before a try.
pub fn backoff(tries: u32, fast_tries: u32, poll_time: Duration) -> (span: Duration)
    requires
        delay_fits(tries as nat, fast_tries as nat, poll_time@),
    ensures
        span@ == delay(tries as nat, fast_tries as nat, poll_time@),
{
    if tries < fast_tries {
        return Duration::from_secs(0);
    }
    let slow: u32 = tries - fast_tries;
    assert(slow * 3 <= slow * (slow * 3)) by (nonlinear_arith)
        requires
            0 <= slow,
    ;
    let factor: u32 = slow * (slow * 3);
    poll_time.divide(100).checked_mul(factor).unwrap().max(poll_time)
}

/// The wait before a try, but no longer than `upper_bound`. It has no limits of
/// its own: a wait that no span could hold is longer than any bound.
pub fn bounded_backoff(
    tries: u32,
    fast_tries: u32,
    poll_time: Duration,
    upper_bound: Duration,
) -> (span: Duration)
    ensures
        span@ == shorter(delay(tries as nat, fast_tries as nat, poll_time@), upper_bound@),
        span@ <= upper_bound@,
{
    if tries < fast_tries {
        return Duration::from_secs(0);
    }
    let slow: u128 = (tries - fast_tries) as u128;
    assert(slow * (slow * 3) <= 0xffff_ffff * (0xffff_ffff * 3)) by (nonlinear_arith)
        requires
            0 <= slow <= 0xffff_ffff,
    ;
    let factor: u128 = slow * (slow * 3);
    poll_time.divide(100).mul_up_to(factor, upper_bound).max(poll_time).min(upper_bound)
}

/// There is no wait before a fast try, and before a slow one it is at least the
/// poll time.
pub proof fn law_fast_tries_do_not_wait(tries: nat, fast_tries: nat, poll_time: nat)
    ensures
        tries < fast_tries ==> delay(tries, fast_tries, poll_time) == 0,
        tries >= fast_tries ==> delay(tries, fast_tries, poll_time) >= poll_time,
{
}

proof fn lemma_factor_grows(a: nat, b: nat, unit: nat)
    requires
        a <= b,
    ensures
        backoff_factor(a) <= backoff_factor(b),
        unit * backoff_factor(a) <= unit * backoff_factor(b),
{
    assert(a * (a * 3) <= b * (b * 3)) by (nonlinear_arith)
        requires
            a <= b,
    ;
    assert(unit * backoff_factor(a) <= unit * backoff_factor(b)) by (nonlinear_arith)
        requires
            backoff_factor(a) <= backoff_factor(b),
    ;
}

/// The wait never gets shorter from one try to a later one.
pub proof fn law_backoff_never_shrinks(earlier: nat, later: nat, fast_tries: nat, poll_time: nat)
    requires
        earlier <= later,
    ensures
        delay(earlier, fast_tries, poll_time) <= delay(later, fast_tries, poll_time),
{
    if earlier >= fast_tries {
        lemma_factor_grows(
            slow_tries(earlier, fast_tries),
            slow_tries(later, fast_tries),
            poll_time / 100,
        );
    }
}

/// Where the wait before a try can be computed, so can the waits before all
/// earlier tries.
pub proof fn law_earlier_delays_fit(earlier: nat, later: nat, fast_tries: nat, poll_time: nat)
    requires
        earlier <= later,
        delay_fits(later, fast_tries, poll_time),
    ensures
        delay_fits(earlier, fast_tries, poll_time),
{
    if earlier >= fast_tries {
        lemma_factor_grows(
            slow_tries(earlier, fast_tries),
            slow_tries(later, fast_tries),
            poll_time / 100,
        );
    }
}

/// How long a run has to last for the next try to count as the first: a tenth of
/// the poll time, but at least ten seconds. In nanoseconds.
pub open spec fn steady_uptime(poll_time: nat) -> nat {
    longer(poll_time / 10, 10 * NANOS_PER_SEC as nat)
}

/// How long a run has to last for the next try to count as the first.
pub fn min_uptime_to_reset_backoff(poll_time: Duration) -> (span: Duration)
    ensures
        span@ == steady_uptime(poll_time@),
{
    poll_time.divide(10).max(Duration::from_secs(10))
}

/// A fast try is made without a wait. The wait before a slow try is the poll time
/// or, where that is longer, three hundredths of it for each slow try made so far,
/// times the number of those.
pub proof fn law_delay_grows_with_the_square(tries: nat, fast_tries: nat, poll_time: nat)
    ensures
        tries < fast_tries ==> delay(tries, fast_tries, poll_time) == 0,
        tries >= fast_tries ==> {
            let slow = tries - fast_tries;
            let grown = poll_time / 100 * (3 * slow * slow);
            let wait = delay(tries, fast_tries, poll_time);
            &&& wait >= poll_time && wait >= grown
            &&& wait == poll_time || wait == grown
        },
{
    if tries >= fast_tries {
        let slow = tries - fast_tries;
        assert(slow * (slow * 3) == 3 * slow * slow) by (nonlinear_arith);
    }
}

/// A wait can be computed exactly when the try is fast, or when neither three times
/// the square of the slow tries nor that many hundredths of the poll time are too
/// large.
pub proof fn law_delay_fits_exactly_when(tries: nat, fast_tries: nat, poll_time: nat)
    ensures
        delay_fits(tries, fast_tries, poll_time) <==> tries < fast_tries || ({
            let square = (tries - fast_tries) * (tries - fast_tries);
            3 * square <= 0xffff_ffff && poll_time / 100 * (3 * square) <= MAX_NANOS
        }),
{
    if tries >= fast_tries {
        let slow = tries - fast_tries;
        assert(slow * (slow * 3) == 3 * (slow * slow)) by (nonlinear_arith);
    }
}

/// A run is steady exactly when it lasts for ten seconds and for a tenth of the poll
/// time.
pub proof fn law_steady_uptime(uptime: nat, poll_time: nat)
    ensures
        uptime >= steady_uptime(poll_time) <==> uptime >= 10_000_000_000 && uptime >= poll_time
            / 10,
{
}

} // verus!

//! How long to wait before a restart: capped exponential growth with full jitter.
//!
//! Spans are counted in nanoseconds. A delay is drawn in steps of one millisecond from the
//! shortest one, and the last step ends at the longest one.

use crate::draw::is_drawn;
use crate::manager::ProcessManager;
use crate::time::Duration;
use rand::Rng;
use vstd::arithmetic::power2::{lemma2_to64, lemma_pow2_unfold, pow2};
use vstd::prelude::*;

verus! {

/// How far apart the delays are that can be drawn, in nanoseconds.
pub const STEP_NANOS: u128 = 1_000_000;

/// The shortest delay: the base delay, but never more than `max_backoff`.
pub open spec fn shortest_delay(base: Duration, max_backoff: Duration) -> nat {
    if base@ <= max_backoff@ {
        base@
    } else {
        max_backoff@
    }
}

/// The longest delay after `restarts` restarts: the base delay doubled once per restart, but
/// never more than `max_backoff`.
pub open spec fn longest_delay(base: Duration, max_backoff: Duration, restarts: nat) -> nat {
    let grown = base@ * pow2(restarts);
    if grown <= max_backoff@ {
        grown
    } else {
        max_backoff@
    }
}

/// How many steps lead from the shortest to the longest delay, as far as 64 bits can count them.
pub open spec fn step_count(base: Duration, max_backoff: Duration, restarts: nat) -> nat {
    let span = longest_delay(base, max_backoff, restarts) - shortest_delay(base, max_backoff);
    let steps = (span + STEP_NANOS - 1) / STEP_NANOS as int;
    if steps <= u64::MAX {
        steps as nat
    } else {
        u64::MAX as nat
    }
}

/// The delay after `step` steps, but never more than the longest one.
pub open spec fn stepped_delay(
    base: Duration,
    max_backoff: Duration,
    restarts: nat,
    step: nat,
) -> nat {
    let delay = shortest_delay(base, max_backoff) + step * STEP_NANOS as nat;
    if delay <= longest_delay(base, max_backoff, restarts) {
        delay
    } else {
        longest_delay(base, max_backoff, restarts)
    }
}

/// Whether `delay` is one that some number of steps leads to.
pub open spec fn backoff_allows(
    base: Duration,
    max_backoff: Duration,
    restarts: nat,
    delay: Duration,
) -> bool {
    let shortest = shortest_delay(base, max_backoff);
    let longest = longest_delay(base, max_backoff, restarts);
    &&& shortest <= delay@ <= longest
    &&& delay@ == longest || (delay@ - shortest) % STEP_NANOS as int == 0
}

/// Whether `delay` is where a step leads that was drawn from all the steps there are. With none
/// there is nothing to draw.
pub open spec fn is_drawn_backoff(
    base: Duration,
    max_backoff: Duration,
    restarts: nat,
    delay: Duration,
) -> bool {
    let steps = step_count(base, max_backoff, restarts) as u64;
    if steps == 0 {
        delay@ == stepped_delay(base, max_backoff, restarts, 0)
    } else {
        exists|step: u64| #[trigger]
            is_drawn(0, steps, step) && delay@ == stepped_delay(
                base,
                max_backoff,
                restarts,
                step as nat,
            )
    }
}

/// Draws a number from `low` to `high`, both included.
///
/// Calls `rand::Rng::random_range` on the generator that `rand::rng` hands out. It is trusted
/// to return a number of the inclusive range it is given, which is all that it takes for
/// [`is_drawn`] to hold. Which one is left to chance.
#[verifier::external_body]
fn random_range(low: u64, high: u64) -> (drawn: u64)
    requires
        low <= high,
    ensures
        low <= drawn <= high,
        is_drawn(low, high, drawn),
{
    rand::rng().random_range(low..=high)
}

/// The shortest and the longest delay before a restart, in nanoseconds.
pub fn backoff_range(base: Duration, max_backoff: Duration, restarts: usize) -> (range: (
    u128,
    u128,
))
    ensures
        range.0 == shortest_delay(base, max_backoff),
        range.1 == longest_delay(base, max_backoff, restarts as nat),
        range.0 <= range.1 <= max_backoff@,
        range.1 < 18_446_744_073_709_551_616 * 1_000_000_000,
{
    let base_nanos = base.as_nanos();
    let ceiling = max_backoff.as_nanos();
    let low: u128 = if base_nanos <= ceiling {
        base_nanos
    } else {
        ceiling
    };
    let mut high: u128 = low;
    let mut doublings: usize = 0;
    proof {
        assert(pow2(0) == 1) by {
            lemma2_to64();
        }
    }
    while doublings < restarts && 0 < high && high < ceiling
        invariant
            doublings <= restarts,
            ceiling == max_backoff@,
            high == longest_delay(base, max_backoff, doublings as nat),
            low == shortest_delay(base, max_backoff),
        decreases restarts - doublings,
    {
        proof {
            lemma_longest_delay_doubles(base, max_backoff, doublings as nat);
        }
        high = if high <= ceiling - high {
            high + high
        } else {
            ceiling
        };
        doublings = doublings + 1;
    }
    proof {
        lemma_longest_delay_settles(base, max_backoff, doublings as nat, restarts as nat);
        lemma_shortest_is_no_longer_than_longest(base, max_backoff, restarts as nat);
    }
    (low, high)
}

/// The number of steps from the shortest to the longest delay.
pub fn backoff_steps(base: Duration, max_backoff: Duration, restarts: usize) -> (steps: u64)
    ensures
        steps == step_count(base, max_backoff, restarts as nat),
{
    let (low, high) = backoff_range(base, max_backoff, restarts);
    let span = high - low;
    let steps: u128 = if span % STEP_NANOS == 0 {
        span / STEP_NANOS
    } else {
        span / STEP_NANOS + 1
    };
    if steps <= u64::MAX as u128 {
        steps as u64
    } else {
        u64::MAX
    }
}

/// The delay that is waited for when `step` has been drawn.
pub fn backoff_delay(
    base: Duration,
    max_backoff: Duration,
    restarts: usize,
    step: u64,
) -> (delay: Duration)
    ensures
        delay@ == stepped_delay(base, max_backoff, restarts as nat, step as nat),
        backoff_allows(base, max_backoff, restarts as nat, delay),
{
    let (low, high) = backoff_range(base, max_backoff, restarts);
    let grown: u128 = low + step as u128 * STEP_NANOS;
    Duration::from_nanos(
        if grown <= high {
            grown
        } else {
            high
        },
    )
}

impl ProcessManager {
    /// Delay before the next restart attempt: capped exponential growth with full jitter.
    ///
    /// The delay doubles per restart up to `max_backoff`, then stops growing. A uniform sample
    /// between `base` and that ceiling spreads simultaneous restarts out instead of synchronising
    /// them.
    ///
    /// No step overflows, and the sampled range is always non-empty, so no combination of
    /// arguments can panic, a zero `base` included.
    pub fn exponential_backoff(base: Duration, max_backoff: Duration, restarts: usize) -> (delay:
        Duration)
        ensures
            delay@ <= max_backoff@,
            base@ <= max_backoff@ ==> base@ <= delay@,
            backoff_allows(base, max_backoff, restarts as nat, delay),
            is_drawn_backoff(base, max_backoff, restarts as nat, delay),
    {
        let steps = backoff_steps(base, max_backoff, restarts);
        let step: u64 = if steps == 0 {
            0
        } else {
            random_range(0, steps)
        };
        let delay = backoff_delay(base, max_backoff, restarts, step);
        assert(is_drawn_backoff(base, max_backoff, restarts as nat, delay)) by {
            assert(step_count(base, max_backoff, restarts as nat) as u64 == steps);
            if steps != 0 {
                assert(is_drawn(0, steps, step));
            }
        }
        delay
    }
}

/// The longest delay doubles from one restart to the next, up to `max_backoff` and no further.
pub proof fn lemma_longest_delay_doubles(base: Duration, max_backoff: Duration, restarts: nat)
    ensures
        longest_delay(base, max_backoff, restarts + 1) == {
            let doubled = 2 * longest_delay(base, max_backoff, restarts);
            if doubled <= max_backoff@ {
                doubled
            } else {
                max_backoff@
            }
        },
{
    let b = base@;
    lemma_pow2_unfold(restarts + 1);
    let p = pow2(restarts);
    assert(b * (2 * p) == 2 * (b * p)) by (nonlinear_arith);
}

/// Once the longest delay is zero or has reached `max_backoff`, it stays there.
proof fn lemma_longest_delay_settles(
    base: Duration,
    max_backoff: Duration,
    before: nat,
    after: nat,
)
    requires
        before <= after,
        before == after || longest_delay(base, max_backoff, before) == 0 || longest_delay(
            base,
            max_backoff,
            before,
        ) == max_backoff@,
    ensures
        longest_delay(base, max_backoff, after) == longest_delay(base, max_backoff, before),
    decreases after - before,
{
    if before < after {
        lemma_longest_delay_doubles(base, max_backoff, before);
        lemma_longest_delay_settles(base, max_backoff, before + 1, after);
    }
}

/// The shortest delay is what the longest one grows from.
proof fn lemma_shortest_is_no_longer_than_longest(
    base: Duration,
    max_backoff: Duration,
    restarts: nat,
)
    ensures
        shortest_delay(base, max_backoff) <= longest_delay(base, max_backoff, restarts),
{
    lemma_longest_delay_grows(base, max_backoff, 0, restarts);
    assert(pow2(0) == 1) by {
        lemma2_to64();
    }
}

/// The longest delay never shrinks from one restart to a later one.
pub proof fn lemma_longest_delay_grows(
    base: Duration,
    max_backoff: Duration,
    before: nat,
    after: nat,
)
    requires
        before <= after,
    ensures
        longest_delay(base, max_backoff, before) <= longest_delay(base, max_backoff, after),
    decreases after - before,
{
    if before < after {
        lemma_longest_delay_doubles(base, max_backoff, before);
        lemma_longest_delay_grows(base, max_backoff, before + 1, after);
    }
}

/// No delay exceeds `max_backoff`, whatever the base and the number of restarts.
pub proof fn lemma_delay_is_capped(
    base: Duration,
    max_backoff: Duration,
    restarts: nat,
    delay: Duration,
)
    requires
        backoff_allows(base, max_backoff, restarts, delay),
    ensures
        delay@ <= max_backoff@,
{
}

/// No delay is below the base delay, as long as `max_backoff` is not: a restart storm cannot
/// become a hot loop.
pub proof fn lemma_delay_is_never_below_base(
    base: Duration,
    max_backoff: Duration,
    restarts: nat,
    delay: Duration,
)
    requires
        backoff_allows(base, max_backoff, restarts, delay),
        base@ <= max_backoff@,
    ensures
        base@ <= delay@,
{
}

/// A base of zero means no delay at all.
pub proof fn lemma_zero_base_means_no_delay(
    base: Duration,
    max_backoff: Duration,
    restarts: nat,
    delay: Duration,
)
    requires
        backoff_allows(base, max_backoff, restarts, delay),
        base@ == 0,
    ensures
        delay@ == 0,
{
    assert(0 * pow2(restarts) == 0);
}

/// Doubling outgrows counting.
proof fn lemma_pow2_outgrows(n: nat)
    ensures
        pow2(n) > n,
    decreases n,
{
    if n == 0 {
        lemma2_to64();
    } else {
        lemma_pow2_outgrows((n - 1) as nat);
        lemma_pow2_unfold(n);
    }
}

/// Enough restarts bring the longest delay up to `max_backoff`, whatever the base, unless it is
/// zero.
pub proof fn lemma_longest_delay_reaches_the_cap(
    base: Duration,
    max_backoff: Duration,
    restarts: nat,
)
    requires
        base@ > 0,
        restarts >= max_backoff@,
    ensures
        longest_delay(base, max_backoff, restarts) == max_backoff@,
{
    lemma_pow2_outgrows(restarts);
    let b = base@;
    let p = pow2(restarts);
    assert(b * p >= p) by (nonlinear_arith)
        requires
            b >= 1,
    ;
}

/// Every delay that is allowed is drawn by some step, as far as 64 bits can count the steps, and
/// no step leads to any other.
pub proof fn lemma_every_delay_can_be_drawn(
    base: Duration,
    max_backoff: Duration,
    restarts: nat,
    delay: Duration,
)
    requires
        delay@ <= shortest_delay(base, max_backoff) + u64::MAX * STEP_NANOS,
    ensures
        backoff_allows(base, max_backoff, restarts, delay) <==> exists|step: nat|
            step <= step_count(base, max_backoff, restarts) && delay@ == #[trigger] stepped_delay(
                base,
                max_backoff,
                restarts,
                step,
            ),
{
    let shortest = shortest_delay(base, max_backoff);
    let longest = longest_delay(base, max_backoff, restarts);
    lemma_shortest_is_no_longer_than_longest(base, max_backoff, restarts);
    if backoff_allows(base, max_backoff, restarts, delay) {
        let step = ((delay@ - shortest + STEP_NANOS - 1) / STEP_NANOS as int) as nat;
        assert(step <= step_count(base, max_backoff, restarts));
        assert(delay@ == stepped_delay(base, max_backoff, restarts, step));
    }
}

/// The longest delay is whole milliseconds if the base and `max_backoff` are.
proof fn lemma_longest_delay_is_whole(base: Duration, max_backoff: Duration, restarts: nat)
    requires
        base@ % STEP_NANOS as nat == 0,
        max_backoff@ % STEP_NANOS as nat == 0,
    ensures
        longest_delay(base, max_backoff, restarts) % STEP_NANOS as nat == 0,
    decreases restarts,
{
    if restarts == 0 {
        lemma2_to64();
    } else {
        lemma_longest_delay_is_whole(base, max_backoff, (restarts - 1) as nat);
        lemma_longest_delay_doubles(base, max_backoff, (restarts - 1) as nat);
    }
}

/// For a base and a `max_backoff` of whole milliseconds, the delays are all the whole
/// milliseconds from the shortest one to the longest one, and nothing else.
pub proof fn lemma_delays_are_whole_milliseconds(
    base: Duration,
    max_backoff: Duration,
    restarts: nat,
    delay: Duration,
)
    requires
        base@ % STEP_NANOS as nat == 0,
        max_backoff@ % STEP_NANOS as nat == 0,
    ensures
        backoff_allows(base, max_backoff, restarts, delay) <==> delay@ % STEP_NANOS as nat == 0
            && shortest_delay(base, max_backoff) <= delay@ <= longest_delay(
            base,
            max_backoff,
            restarts,
        ),
{
    lemma_longest_delay_is_whole(base, max_backoff, restarts);
}

/// For a base and a `max_backoff` of whole milliseconds, a delay that is possible stays possible
/// after more restarts.
pub proof fn lemma_possible_delays_stay_possible(
    base: Duration,
    max_backoff: Duration,
    before: nat,
    after: nat,
    delay: Duration,
)
    requires
        base@ % STEP_NANOS as nat == 0,
        max_backoff@ % STEP_NANOS as nat == 0,
        before <= after,
        backoff_allows(base, max_backoff, before, delay),
    ensures
        backoff_allows(base, max_backoff, after, delay),
{
    lemma_longest_delay_grows(base, max_backoff, before, after);
    lemma_delays_are_whole_milliseconds(base, max_backoff, before, delay);
    lemma_delays_are_whole_milliseconds(base, max_backoff, after, delay);
}

} // verus!

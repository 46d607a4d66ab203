//! The life of a connection.

use std::time::Duration;
use vstd::prelude::*;

verus! {

/// The span of so many milliseconds.
pub uninterp spec fn millis_span(millis: u64) -> Duration;

/// `Duration::from_millis` depends on the number alone.
pub assume_specification[ Duration::from_millis ](millis: u64) -> (r: Duration)
    ensures
        r == millis_span(millis),
;

/// The span of so many seconds.
pub uninterp spec fn secs_span(secs: u64) -> Duration;

/// `Duration::from_secs` depends on the number alone, and gives the span of a
/// thousand times as many milliseconds, where those can be counted.
pub assume_specification[ Duration::from_secs ](secs: u64) -> (r: Duration)
    ensures
        r == secs_span(secs),
        secs * 1000 <= u64::MAX ==> r == millis_span((secs * 1000) as u64),
;

/// Seconds that the silence timer is set to where silence is not watched: a year.
pub const DISABLED_SILENCE_SECS: u64 = 31_536_000;

/// The multiple of `unit` nearest to `n`; of two equally near, the one whose
/// quotient is even.
pub open spec fn nearest_multiple(n: int, unit: int) -> int {
    let q = n / unit;
    let r = n % unit;
    if 2 * r < unit || (2 * r == unit && q % 2 == 0) {
        q * unit
    } else {
        (q + 1) * unit
    }
}

/// The double nearest to a natural number: a multiple of the smallest power
/// of two, from `unit` on, that leaves 53 binary digits.
pub open spec fn nearest_double(n: int, unit: int) -> int
    decreases n - unit,
{
    if unit <= 0 || n < 0x20_0000_0000_0000 * unit {
        nearest_multiple(n, unit)
    } else {
        nearest_double(n, 2 * unit)
    }
}

/// Twice a number of milliseconds, taken as a double and capped at the
/// largest 64-bit number.
pub open spec fn double_wait(keepalive_ms: u64) -> u64 {
    let twice = 2 * nearest_double(keepalive_ms as int, 1);
    if twice > u64::MAX {
        u64::MAX
    } else {
        twice as u64
    }
}

fn round_to_double(n: u64, unit: u64) -> (r: u128)
    requires
        1 <= unit <= 0x1000,
    ensures
        r == nearest_double(n as int, unit as int),
        r <= n + 0x1000,
    decreases 0x1000 - unit,
{
    if (n as u128) < 0x20_0000_0000_0000u128 * (unit as u128) {
        let q: u128 = (n / unit) as u128;
        let rest: u128 = (n % unit) as u128;
        let u: u128 = unit as u128;
        proof {
            let (a, b) = (n as int, unit as int);
            assert(a == b * (a / b) + a % b && 0 <= a % b < b) by (nonlinear_arith)
                requires
                    b > 0,
            ;
            assert((a / b) * b == b * (a / b)) by (nonlinear_arith);
            assert((a / b + 1) * b == b * (a / b) + b) by (nonlinear_arith);
        }
        if 2 * rest < u || (2 * rest == u && q % 2 == 0) {
            q * u
        } else {
            (q + 1) * u
        }
    } else {
        round_to_double(n, unit * 2)
    }
}

/// Twice a number of milliseconds, taken as a double and capped at the
/// largest 64-bit number.
pub fn double_wait_of(keepalive_ms: u64) -> (r: u64)
    ensures
        r == double_wait(keepalive_ms),
{
    let twice: u128 = 2 * round_to_double(keepalive_ms, 1);
    if twice > u64::MAX as u128 {
        u64::MAX
    } else {
        twice as u64
    }
}

/// How long to wait for a pong: twice the keepalive interval.
pub fn keepalive_timeout(keepalive_ms: u64) -> (r: Duration)
    ensures
        r == millis_span(double_wait(keepalive_ms)),
{
    Duration::from_millis(double_wait_of(keepalive_ms))
}

/// Up to 2 to the 53rd milliseconds the wait is exactly twice the interval.
pub proof fn wait_is_exact(keepalive_ms: u64)
    requires
        keepalive_ms <= 0x20_0000_0000_0000,
    ensures
        double_wait(keepalive_ms) == 2 * keepalive_ms,
{
    let n = keepalive_ms as int;
    assert(n / 1 == n && n % 1 == 0);
    assert(nearest_multiple(n, 1) == n);
    if n == 0x20_0000_0000_0000 {
        assert(nearest_double(n, 1) == nearest_double(n, 2));
        assert(nearest_multiple(n, 2) == n);
    }
}

/// How long the silence timer runs: the configured time, or a year where
/// silence is not watched.
pub fn silence_sleep_duration(secs: Option<u64>) -> (r: Duration)
    ensures
        r == secs_span(
            match secs {
                Some(s) => s,
                None => DISABLED_SILENCE_SECS,
            },
        ),
        secs is None ==> r == millis_span(31_536_000_000),
        secs matches Some(s) ==> (s * 1000 <= u64::MAX ==> r == millis_span((s * 1000) as u64)),
{
    Duration::from_secs(secs.unwrap_or(DISABLED_SILENCE_SECS))
}

/// The limit on reconnect attempts; zero means that there is none.
pub fn normalize_max_attempts(max: Option<u32>) -> (r: Option<u64>)
    ensures
        r == attempt_limit(max),
{
    match max {
        Some(n) => if n == 0 {
            None
        } else {
            Some(n as u64)
        },
        None => None,
    }
}

/// The limit on reconnect attempts that a configured number stands for.
pub open spec fn attempt_limit(max: Option<u32>) -> Option<u64> {
    match max {
        Some(n) => if n == 0 {
            None
        } else {
            Some(n as u64)
        },
        None => None,
    }
}

/// Whether to log a single message: asked for, and at debug level.
pub fn should_log_debug(debug_log: bool, debug_enabled: bool) -> (r: bool)
    ensures
        r == (debug_log && debug_enabled),
{
    debug_log && debug_enabled
}

/// A number is rounded to one of the two nearest multiples, and by no more than
/// half of the unit.
pub proof fn rounding_goes_to_the_nearest(n: int, unit: int)
    requires
        n >= 0,
        unit > 0,
    ensures
        nearest_multiple(n, unit) % unit == 0,
        2 * (nearest_multiple(n, unit) - n) <= unit,
        2 * (n - nearest_multiple(n, unit)) <= unit,
{
    let q = n / unit;
    let r = n % unit;
    assert(n == q * unit + r && 0 <= r < unit) by (nonlinear_arith)
        requires
            unit > 0,
            q == n / unit,
            r == n % unit,
    ;
    assert((q + 1) * unit == q * unit + unit) by (nonlinear_arith);
    assert((q * unit) % unit == 0 && ((q + 1) * unit) % unit == 0) by (nonlinear_arith)
        requires
            unit > 0,
    ;
}

/// The limit on attempts is the number that is asked for; none and zero both
/// mean that there is no limit.
pub proof fn limit_is_the_number_asked_for(max: Option<u32>)
    ensures
        attempt_limit(max) is None <==> max is None || max->0 == 0,
        attempt_limit(max) matches Some(n) ==> max is Some && n == max->0,
{
}

proof fn lemma_nearest_double(n: int, unit: int)
    requires
        n >= 0,
        unit > 0,
        unit == 1 || n >= 0x10_0000_0000_0000 * unit,
    ensures
        0x20_0000_0000_0000 * (nearest_double(n, unit) - n) <= n,
        0x20_0000_0000_0000 * (n - nearest_double(n, unit)) <= n,
    decreases n - unit,
{
    if n < 0x20_0000_0000_0000 * unit {
        rounding_goes_to_the_nearest(n, unit);
        if unit == 1 {
            assert(n % 1 == 0 && n / 1 == n);
            assert(nearest_multiple(n, unit) == n);
        }
    } else {
        lemma_nearest_double(n, 2 * unit);
    }
}

/// The wait is twice the interval, but for a double's accuracy and the
/// largest number that fits.
pub proof fn wait_is_twice_the_interval(keepalive_ms: u64)
    ensures
        double_wait(keepalive_ms) == u64::MAX || {
            &&& 0x20_0000_0000_0000 * (double_wait(keepalive_ms) - 2 * keepalive_ms) <= 2
                * keepalive_ms
            &&& 0x20_0000_0000_0000 * (2 * keepalive_ms - double_wait(keepalive_ms)) <= 2
                * keepalive_ms
        },
        double_wait(keepalive_ms) == u64::MAX ==> keepalive_ms >= 0x7fff_ffff_ffff_f800,
{
    lemma_nearest_double(keepalive_ms as int, 1);
}

} // verus!

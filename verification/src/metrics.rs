//! The derived rates: damage per second, fame per minute and fame per hour.
//!
//! A rate over a span of zero seconds is zero. Every other rate is the exact
//! quotient rounded to the nearest whole number, a half rounding up, and held
//! at the largest value of its type where the quotient is larger.

use vstd::prelude::*;

verus! {

/// How many stored units make up one: quantities are kept in thousandths.
pub const SCALE: u64 = 1000;

/// Seconds in a minute.
pub const MINUTE: u64 = 60;

/// Seconds in an hour.
pub const HOUR: u64 = 3600;

/// `x`, held at `limit` where it is larger.
pub open spec fn capped(x: nat, limit: nat) -> nat {
    if x > limit {
        limit
    } else {
        x
    }
}

/// `n / d` rounded to the nearest whole number; a half rounds up.
pub open spec fn rounded_quotient(n: nat, d: nat) -> nat
    recommends
        d > 0,
{
    (2 * n + d) / (2 * d)
}

/// Damage per second, in thousandths, from damage and seconds of combat that
/// are both in thousandths.
pub open spec fn dps_of(damage: nat, time_in_combat: nat) -> nat {
    if time_in_combat == 0 {
        0
    } else {
        capped(rounded_quotient(damage * (SCALE as nat), time_in_combat), u64::MAX as nat)
    }
}

/// Whole fame per `window` seconds, from fame and seconds in game that are
/// both in thousandths.
pub open spec fn fame_rate_of(fame: nat, seconds_in_game: nat, window: nat) -> nat {
    if seconds_in_game == 0 {
        0
    } else {
        capped(rounded_quotient(fame * window, seconds_in_game), u32::MAX as nat)
    }
}

/// Whole fame per minute.
pub open spec fn fame_per_minute_of(fame: nat, seconds_in_game: nat) -> nat {
    fame_rate_of(fame, seconds_in_game, MINUTE as nat)
}

/// Whole fame per hour.
pub open spec fn fame_per_hour_of(fame: nat, seconds_in_game: nat) -> nat {
    fame_rate_of(fame, seconds_in_game, HOUR as nat)
}

/// The rounded quotient is the whole number nearest to `n / d`: it lies
/// within a half of the exact quotient, and an exact half goes up.
pub proof fn lemma_rounded_quotient_is_nearest(n: nat, d: nat)
    requires
        d > 0,
    ensures
        2 * rounded_quotient(n, d) * d <= 2 * n + d,
        2 * n + d < 2 * (rounded_quotient(n, d) + 1) * d,
{
    let q = rounded_quotient(n, d);
    let m = 2 * n + d;
    let e = 2 * d;
    assert(q * e <= m < (q + 1) * e) by (nonlinear_arith)
        requires
            q == m / e,
            e > 0,
            m >= 0,
    ;
    assert(2 * q * d == q * e) by (nonlinear_arith)
        requires
            e == 2 * d,
    ;
    assert(2 * (q + 1) * d == (q + 1) * e) by (nonlinear_arith)
        requires
            e == 2 * d,
    ;
}

/// `n * factor / d`, rounded to the nearest whole number.
fn rounded_ratio(n: u64, factor: u64, d: u64) -> (q: u128)
    requires
        d > 0,
        factor <= HOUR,
    ensures
        q == rounded_quotient((n as nat) * (factor as nat), d as nat),
{
    assert(n * factor <= u64::MAX * 3600) by (nonlinear_arith)
        requires
            n <= u64::MAX,
            factor <= 3600,
    ;
    let scaled: u128 = (n as u128) * (factor as u128);
    (2 * scaled + (d as u128)) / (2 * (d as u128))
}

/// Damage per second; zero where no time was spent in combat.
pub fn dps(damage: u64, time_in_combat: u64) -> (r: u64)
    ensures
        r == dps_of(damage as nat, time_in_combat as nat),
        time_in_combat == 0 ==> r == 0,
{
    if time_in_combat == 0 {
        return 0;
    }
    let q = rounded_ratio(damage, SCALE, time_in_combat);
    if q > u64::MAX as u128 {
        u64::MAX
    } else {
        q as u64
    }
}

/// Fame per `window` seconds; zero where no time was spent in game.
fn fame_rate(fame: u64, seconds_in_game: u64, window: u64) -> (r: u32)
    requires
        window <= HOUR,
    ensures
        r == fame_rate_of(fame as nat, seconds_in_game as nat, window as nat),
{
    if seconds_in_game == 0 {
        return 0;
    }
    let q = rounded_ratio(fame, window, seconds_in_game);
    if q > u32::MAX as u128 {
        u32::MAX
    } else {
        q as u32
    }
}

/// Fame per minute; zero where no time was spent in game.
pub fn fame_per_minute(fame: u64, seconds_in_game: u64) -> (r: u32)
    ensures
        r == fame_per_minute_of(fame as nat, seconds_in_game as nat),
        seconds_in_game == 0 ==> r == 0,
{
    fame_rate(fame, seconds_in_game, MINUTE)
}

/// Fame per hour; zero where no time was spent in game.
pub fn fame_per_hour(fame: u64, seconds_in_game: u64) -> (r: u32)
    ensures
        r == fame_per_hour_of(fame as nat, seconds_in_game as nat),
        seconds_in_game == 0 ==> r == 0,
{
    fame_rate(fame, seconds_in_game, HOUR)
}

} // verus!

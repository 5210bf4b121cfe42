//! A rational fixed-point sine, used by the paddle's angle-based
//! deflection rule.  Angles are in milli-degrees.  The approximation
//! `sin d ~= 4 d (180 - d) / (40500 - d (180 - d))` (for `d` in degrees,
//! `0 <= d <= 180`) is exact at 0, 30, 90, 150 and 180 degrees and
//! within two parts in a thousand everywhere between, which the paddle
//! laws below rely on: a center hit leaves straight up at full speed,
//! and an edge hit leaves at exactly half the base speed vertically.

use vstd::arithmetic::div_mod::lemma_div_is_ordered;
use vstd::arithmetic::div_mod::lemma_div_multiples_vanish;
use vstd::arithmetic::div_mod::lemma_div_pos_is_pos;
use vstd::arithmetic::mul::lemma_mul_inequality;
use vstd::prelude::*;

verus! {

/// Milli-degrees in a half turn.
pub const HALF_TURN: i64 = 180_000;

/// The product `m * (180_000 - m)`, shared by the numerator and the
/// denominator of the sine approximation at `m` milli-degrees.
pub open spec fn sine_profile(m: int) -> int {
    m * (180_000 - m)
}

pub open spec fn sine_num(m: int) -> int {
    4 * sine_profile(m)
}

pub open spec fn sine_den(m: int) -> int {
    40_500_000_000 - sine_profile(m)
}

/// `scale` times the sine of `m` milli-degrees, rounded down.
pub open spec fn sine_scaled(scale: int, m: int) -> int {
    scale * sine_num(m) / sine_den(m)
}

/// For `0 <= m <= 180_000` the profile stays within `[0, 90_000^2]`, so
/// the denominator is positive and at least the numerator.
pub proof fn lemma_sine_profile_bounds(m: int)
    requires
        0 <= m <= 180_000,
    ensures
        0 <= sine_profile(m) <= 8_100_000_000,
        0 < sine_den(m) <= 40_500_000_000,
        0 <= sine_num(m) <= sine_den(m),
{
    assert(0 <= m * (180_000 - m) <= 8_100_000_000) by (nonlinear_arith)
        requires
            0 <= m <= 180_000,
    ;
}

/// The scaled sine lies in `[0, scale]`.
pub proof fn lemma_sine_scaled_bounds(scale: int, m: int)
    requires
        0 <= scale,
        0 <= m <= 180_000,
    ensures
        0 <= sine_scaled(scale, m) <= scale,
{
    lemma_sine_profile_bounds(m);
    lemma_mul_inequality(0, sine_num(m), scale);
    assert(scale * 0 == 0 && 0 * scale == 0);
    lemma_div_pos_is_pos(scale * sine_num(m), sine_den(m));
    lemma_mul_inequality(sine_num(m), sine_den(m), scale);
    lemma_div_is_ordered(scale * sine_num(m), sine_den(m) * scale, sine_den(m));
    lemma_div_multiples_vanish(scale, sine_den(m));
}

/// The sine of a quarter turn is exactly one: `sine_scaled` returns the
/// scale itself at 90 degrees.
pub proof fn lemma_sine_exact_quarter(scale: int)
    requires
        0 <= scale,
    ensures
        sine_scaled(scale, 90_000) == scale,
{
    assert(sine_num(90_000) == 32_400_000_000);
    assert(sine_den(90_000) == 32_400_000_000);
    assert(scale * 32_400_000_000 == 32_400_000_000 * scale) by (nonlinear_arith);
    lemma_div_multiples_vanish(scale, 32_400_000_000);
}

/// The sine of 30 or 150 degrees is exactly one half: for an even
/// scale, `sine_scaled` returns exactly half the scale there.
pub proof fn lemma_sine_exact_half(scale: int, m: int)
    requires
        0 <= scale,
        scale % 2 == 0,
        m == 30_000 || m == 150_000,
    ensures
        sine_scaled(scale, m) == scale / 2,
{
    assert(sine_profile(m) == 4_500_000_000);
    assert(sine_num(m) == 18_000_000_000);
    assert(sine_den(m) == 36_000_000_000);
    let h = scale / 2;
    assert(scale == 2 * h);
    assert(scale * 18_000_000_000 == 36_000_000_000 * h) by (nonlinear_arith)
        requires
            scale == 2 * h,
    ;
    lemma_div_multiples_vanish(h, 36_000_000_000);
}

/// The scaled sine of `m` milli-degrees, computed exactly as
/// `sine_scaled` states it.
pub fn sine_times(scale: i64, m: i64) -> (r: i64)
    requires
        0 <= scale,
        0 <= m <= HALF_TURN,
    ensures
        r == sine_scaled(scale as int, m as int),
        0 <= r <= scale,
{
    proof {
        lemma_sine_profile_bounds(m as int);
        lemma_sine_scaled_bounds(scale as int, m as int);
        lemma_mul_inequality(sine_num(m as int), 40_500_000_000, scale as int);
    }
    let mu = m as u128;
    let profile: u128 = mu * (180_000 - mu);
    let num: u128 = 4 * profile;
    let den: u128 = 40_500_000_000 - profile;
    proof {
        assert(num == sine_num(m as int));
        assert(den == sine_den(m as int));
        assert((scale as u128) * num == (scale as int) * sine_num(m as int)) by (nonlinear_arith)
            requires
                num == sine_num(m as int),
                0 <= scale,
                0 <= num,
        ;
    }
    proof {
        assert((scale as int) * (num as int) < 0x1_0000_0000_0000_0000_0000_0000_0000) by (nonlinear_arith)
            requires
                0 <= scale <= 0x7fff_ffff_ffff_ffff,
                0 <= num <= 40_500_000_000,
        ;
    }
    let r: u128 = (scale as u128) * num / den;
    r as i64
}

} // verus!

//! Rounded conversion between raw brightness units and percent of a maximum.

use crate::device::Device;
use vstd::prelude::*;

verus! {

/// Raw value that `percent` percent of `max` stands for, rounded to nearest.
pub open spec fn percent_to_value(percent: int, max: int) -> int {
    (percent * max + 50) / 100
}

/// Percent of `max` that the raw `value` stands for, rounded to nearest.
pub open spec fn value_to_percent(value: int, max: int) -> int {
    (value * 100 + max / 2) / max
}

/// Floor of `n / d` for a positive divisor, on machine integers.
fn floor_div(n: i128, d: i128) -> (r: i128)
    requires
        0 < d <= 0x7fff_ffff_ffff_ffff,
        -0x7fff_ffff_ffff_ffff_8000_0000_0000_0000 <= n <= 0x7fff_ffff_ffff_ffff_8000_0000_0000_0000,
    ensures
        r == n / d,
{
    if n >= 0 {
        n / d
    } else {
        let m: i128 = -n;
        let q: i128 = (m + d - 1) / d;
        proof {
            lemma_floor_of_negative(n as int, d as int, q as int);
        }
        -q
    }
}

proof fn lemma_floor_of_negative(n: int, d: int, q: int)
    requires
        0 < d,
        n < 0,
        q == (-n + d - 1) / d,
    ensures
        -q == n / d,
{
    let m = -n;
    assert(d * ((m + d - 1) / d) + (m + d - 1) % d == m + d - 1) by (nonlinear_arith)
        requires d > 0;
    assert(d * (n / d) + n % d == n) by (nonlinear_arith)
        requires d > 0;
    let r1 = (m + d - 1) % d;
    let r2 = n % d;
    assert(0 <= r1 < d);
    assert(0 <= r2 < d);
    // d * q = m + d - 1 - r1 and d * (n / d) = n - r2, so d * (q + n / d) = d - 1 - r1 - r2
    assert(d * (q + n / d) == d - 1 - r1 - r2) by (nonlinear_arith)
        requires
            d * q + r1 == -n + d - 1,
            d * (n / d) + r2 == n;
    assert(q + n / d == 0) by (nonlinear_arith)
        requires
            d > 0,
            d * (q + n / d) == d - 1 - r1 - r2,
            0 <= r1 < d,
            0 <= r2 < d;
}

/// `percent_to_value` on a percent that may lie outside the range of `i64`.
pub(crate) fn percent_to_value_wide(percent: i128, max: i64) -> (r: i128)
    requires
        0 < max,
        -0x1_0000_0000_0000_0000 <= percent <= 0x1_0000_0000_0000_0000,
    ensures
        r == percent_to_value(percent as int, max as int),
{
    assert(-0x7fff_ffff_ffff_ffff_0000_0000_0000_0000 <= percent * max
        <= 0x7fff_ffff_ffff_ffff_0000_0000_0000_0000) by (nonlinear_arith)
        requires
            0 < max <= 0x7fff_ffff_ffff_ffff,
            -0x1_0000_0000_0000_0000 <= percent <= 0x1_0000_0000_0000_0000;
    let scaled: i128 = percent * (max as i128) + 50;
    floor_div(scaled, 100)
}

/// `value_to_percent` computed without overflow.
pub(crate) fn value_to_percent_wide(value: i64, max: i64) -> (r: i128)
    requires
        0 < max,
    ensures
        r == value_to_percent(value as int, max as int),
        -0x40_0000_0000_0000_0000 <= r <= 0x40_0000_0000_0000_0000,
{
    let scaled: i128 = (value as i128) * 100 + (max as i128) / 2;
    let r = floor_div(scaled, max as i128);
    assert(-0x40_0000_0000_0000_0000 <= r <= 0x40_0000_0000_0000_0000) by (nonlinear_arith)
        requires
            0 < max,
            -0x40_0000_0000_0000_0000 <= scaled <= 0x40_0000_0000_0000_0000,
            r == scaled as int / max as int;
    r
}

/// A raw value in `[0, max]` is between 0 and 100 percent.
pub proof fn lemma_value_to_percent_range(value: int, max: int)
    requires
        0 <= value <= max,
        0 < max,
    ensures
        0 <= value_to_percent(value, max) <= 100,
{
    assert(0 <= (value * 100 + max / 2) / max <= 100) by (nonlinear_arith)
        requires
            0 <= value <= max,
            0 <= max / 2 < max;
}

/// A larger percent never stands for a smaller raw value.
pub proof fn lemma_percent_to_value_monotone(p: int, q: int, max: int)
    requires
        p <= q,
        0 < max,
    ensures
        percent_to_value(p, max) <= percent_to_value(q, max),
{
    assert(p * max + 50 <= q * max + 50) by (nonlinear_arith)
        requires
            p <= q,
            0 < max;
    assert((p * max + 50) / 100 <= (q * max + 50) / 100) by (nonlinear_arith)
        requires
            p * max + 50 <= q * max + 50;
}

/// Converting a raw value in `[0, max]` to a percent and back moves it by at
/// most one unit, for every maximum up to 300. (From 301 on it does not hold:
/// at a maximum of 301 the value 149 comes back as 151.)
pub proof fn lemma_percent_round_trip(v: int, max: int)
    requires
        0 <= v <= max,
        0 < max <= 300,
    ensures
        -1 <= percent_to_value(value_to_percent(v, max), max) - v <= 1,
{
    let h = max / 2;
    let n = v * 100 + h;
    let p = n / max;
    let r1 = n % max;
    assert(n == p * max + r1 && 0 <= r1 < max) by (nonlinear_arith)
        requires
            0 < max,
            p == n / max,
            r1 == n % max;
    let m = p * max + 50;
    let q = m / 100;
    let r2 = m % 100;
    assert(m == q * 100 + r2 && 0 <= r2 < 100);
    // 100 * (q - v) == h - r1 + 50 - r2
    assert(100 * (q - v) == h - r1 + 50 - r2);
    if q - v >= 2 {
        assert(h == 150 && r1 == 0 && r2 == 0);
        assert(max == 300);
        assert(v * 100 + 150 == p * 300);
    }
    assert(q - v >= -1);
}

/// Converting a raw value in `[0, max]` to a percent and back moves it by at
/// most `(max + 100) / 200` units, for every maximum.
pub proof fn lemma_percent_round_trip_error(v: int, max: int)
    requires
        0 <= v <= max,
        0 < max,
    ensures
        200 * (percent_to_value(value_to_percent(v, max), max) - v) <= max + 100,
        200 * (v - percent_to_value(value_to_percent(v, max), max)) <= max + 100,
{
    let h = max / 2;
    let n = v * 100 + h;
    let p = n / max;
    let r1 = n % max;
    assert(n == p * max + r1 && 0 <= r1 < max) by (nonlinear_arith)
        requires
            0 < max,
            p == n / max,
            r1 == n % max;
    let m = p * max + 50;
    let q = m / 100;
    let r2 = m % 100;
    assert(m == q * 100 + r2 && 0 <= r2 < 100);
    assert(100 * (q - v) == h - r1 + 50 - r2);
}

/// Raw value for `val` percent of the device's maximum brightness.
pub fn percent_to_val(val: i64, device: &Device) -> (r: i64)
    requires
        i64::MIN <= percent_to_value(val as int, device@.max) <= i64::MAX,
    ensures
        r == percent_to_value(val as int, device@.max),
{
    let max = device.get_max_brightness();
    percent_to_value_wide(val as i128, max) as i64
}

/// Percent of the device's maximum brightness that the raw value `val` stands for.
pub fn val_to_percent(val: i64, device: &Device) -> (r: i64)
    requires
        i64::MIN <= value_to_percent(val as int, device@.max) <= i64::MAX,
    ensures
        r == value_to_percent(val as int, device@.max),
{
    let max = device.get_max_brightness();
    value_to_percent_wide(val, max) as i64
}

} // verus!

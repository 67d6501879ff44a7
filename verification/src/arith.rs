//! Integer arithmetic behind the fixed-point formats: scaling by powers of
//! two, and division with a chosen rounding and saturation.

use vstd::prelude::*;

verus! {

/// How a quotient that is not an integer is brought to one.
#[derive(Clone, Copy, Debug, PartialEq, Eq, Structural)]
pub enum Rounding {
    /// The fraction is dropped: the quotient moves toward zero.
    TowardZero,
    /// The nearest integer is taken; a half moves away from zero.
    Nearest,
}

/// Absolute value.
pub open spec fn abs(x: int) -> int {
    if x < 0 {
        -x
    } else {
        x
    }
}

/// `v` held to the interval from `lo` to `hi`.
pub open spec fn clamp(v: int, lo: int, hi: int) -> int {
    if v < lo {
        lo
    } else if v > hi {
        hi
    } else {
        v
    }
}

/// The largest integer not above `n / 16`: what an arithmetic right shift by
/// four leaves of `n`.
pub open spec fn floor16(n: int) -> int {
    n / 16
}

/// The largest integer not above `n / 256`.
pub open spec fn floor256(n: int) -> int {
    n / 256
}

/// The quotient `n / d` as an integer, for `d` other than zero.
pub open spec fn quotient(n: int, d: int, mode: Rounding) -> int
    recommends
        d != 0,
{
    let magnitude = match mode {
        Rounding::TowardZero => abs(n) / abs(d),
        Rounding::Nearest => (2 * abs(n) + abs(d)) / (2 * abs(d)),
    };
    if (n < 0) == (d < 0) {
        magnitude
    } else {
        -magnitude
    }
}

/// The value a division by zero is given: the bound on the side of the
/// numerator's sign, and zero for zero by zero.
pub open spec fn rail(n: int, lo: int, hi: int) -> int {
    if n > 0 {
        hi
    } else if n < 0 {
        lo
    } else {
        0
    }
}

/// Division as the fixed-point formats define it: the rounded quotient held
/// to the interval from `lo` to `hi`, and the rail where `d` is zero.
pub open spec fn divide(n: int, d: int, mode: Rounding, lo: int, hi: int) -> int {
    if d == 0 {
        rail(n, lo, hi)
    } else {
        clamp(quotient(n, d, mode), lo, hi)
    }
}

/// A quotient to the nearest integer misses `n / d` by at most one half.
pub proof fn lemma_quotient_nearest(n: int, d: int)
    requires
        d != 0,
    ensures
        abs(2 * (quotient(n, d, Rounding::Nearest) * d) - 2 * n) <= abs(d),
{
    let m = (2 * abs(n) + abs(d)) / (2 * abs(d));
    let r = (2 * abs(n) + abs(d)) % (2 * abs(d));
    assert(2 * abs(n) + abs(d) == (2 * abs(d)) * m + r && 0 <= r < 2 * abs(d))
        by (nonlinear_arith)
        requires
            abs(d) > 0,
            m == (2 * abs(n) + abs(d)) / (2 * abs(d)),
            r == (2 * abs(n) + abs(d)) % (2 * abs(d)),
    ;
    let q = quotient(n, d, Rounding::Nearest);
    let e = abs(d) - r;
    assert(2 * (q * d) - 2 * n == e || 2 * (q * d) - 2 * n == -e) by (nonlinear_arith)
        requires
            2 * abs(n) + abs(d) == (2 * abs(d)) * m + r,
            e == abs(d) - r,
            (n < 0) == (d < 0) ==> q == m,
            (n < 0) != (d < 0) ==> q == -m,
            abs(n) == n || abs(n) == -n,
            (abs(n) == n) <==> n >= 0,
            abs(d) == d || abs(d) == -d,
            (abs(d) == d) <==> d >= 0,
            d != 0,
    ;
}

/// `m` is the quotient of `n` by a positive `d`, rounded down, where `n`
/// lies from `d * m` to just under `d * (m + 1)`.
pub proof fn lemma_floor_is(n: int, d: int, m: int)
    requires
        d > 0,
        d * m <= n < d * m + d,
    ensures
        n / d == m,
{
    assert(n / d == m) by (nonlinear_arith)
        requires
            d > 0,
            d * m <= n < d * m + d,
    ;
}

/// The magnitude of a 64-bit integer.
fn magnitude(v: i64) -> (m: u128)
    ensures
        m == abs(v as int),
{
    if v < 0 {
        (-(v as i128)) as u128
    } else {
        v as u128
    }
}

/// Computes the rounded quotient of two 64-bit integers.
pub fn rounded_quotient(n: i64, d: i64, mode: Rounding) -> (q: i128)
    requires
        d != 0,
    ensures
        q == quotient(n as int, d as int, mode),
{
    let an: u128 = magnitude(n);
    let ad: u128 = magnitude(d);
    let m: u128 = match mode {
        Rounding::TowardZero => an / ad,
        Rounding::Nearest => (2 * an + ad) / (2 * ad),
    };
    assert(m <= 2 * an + ad) by (nonlinear_arith)
        requires
            ad > 0,
            m == an / ad || m == (2 * an + ad) / (2 * ad),
    ;
    if (n < 0) == (d < 0) {
        m as i128
    } else {
        -(m as i128)
    }
}

/// Divides into a signed 16-bit result.
pub fn divide_i16(n: i64, d: i64, mode: Rounding) -> (r: i16)
    ensures
        r == divide(n as int, d as int, mode, i16::MIN as int, i16::MAX as int),
{
    if d == 0 {
        if n > 0 {
            i16::MAX
        } else if n < 0 {
            i16::MIN
        } else {
            0
        }
    } else {
        let q: i128 = rounded_quotient(n, d, mode);
        if q < -0x8000 {
            i16::MIN
        } else if q > 0x7fff {
            i16::MAX
        } else {
            q as i16
        }
    }
}

/// Divides into a signed 32-bit result.
pub fn divide_i32(n: i64, d: i64, mode: Rounding) -> (r: i32)
    ensures
        r == divide(n as int, d as int, mode, i32::MIN as int, i32::MAX as int),
{
    if d == 0 {
        if n > 0 {
            i32::MAX
        } else if n < 0 {
            i32::MIN
        } else {
            0
        }
    } else {
        let q: i128 = rounded_quotient(n, d, mode);
        if q < -0x8000_0000 {
            i32::MIN
        } else if q > 0x7fff_ffff {
            i32::MAX
        } else {
            q as i32
        }
    }
}

} // verus!

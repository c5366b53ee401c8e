//! Fixed-point scalars.
//!
//! A scalar is an `i64` that counts billionths: the real number `r` is held
//! as `r * ONE`. Lengths are in screen units, angles in radians, speeds in
//! units per millisecond. Results that leave the `i64` range saturate at its
//! ends, the fixed-point counterpart of running off to infinity.

use vstd::prelude::*;

verus! {

/// The scalar that stands for the real number one.
pub const ONE: i64 = 1_000_000_000;

/// Half a turn, in radians.
pub const PI: i64 = 3_141_592_654;

/// A quarter of a turn, in radians.
pub const HALF_PI: i64 = 1_570_796_327;

/// A whole turn, in radians.
pub const TWO_PI: i64 = 6_283_185_308;

/// `n` brought into the `i64` range: values beyond an end become that end.
pub open spec fn sat(n: int) -> int {
    if n < i64::MIN {
        i64::MIN as int
    } else if n > i64::MAX {
        i64::MAX as int
    } else {
        n
    }
}

/// The quotient of `n` by a positive `d`, rounded toward zero.
pub open spec fn div_trunc(n: int, d: int) -> int
    recommends
        d > 0,
{
    if n >= 0 {
        n / d
    } else {
        -((-n) / d)
    }
}

/// The quotient of `n` by a positive `d`, rounded down.
pub open spec fn div_floor(n: int, d: int) -> int
    recommends
        d > 0,
{
    n / d
}

/// The quotient of `n` by a positive `d`, rounded up.
pub open spec fn div_ceil(n: int, d: int) -> int
    recommends
        d > 0,
{
    -((-n) / d)
}

/// Narrows a wide intermediate result to a scalar, saturating.
pub fn saturate(n: i128) -> (r: i64)
    ensures
        r == sat(n as int),
{
    if n < i64::MIN as i128 {
        i64::MIN
    } else if n > i64::MAX as i128 {
        i64::MAX
    } else {
        n as i64
    }
}

/// Saturating sum of two scalars.
pub fn plus(a: i64, b: i64) -> (r: i64)
    ensures
        r == sat(a + b),
{
    saturate(a as i128 + b as i128)
}

/// Saturating difference of two scalars.
pub fn minus(a: i64, b: i64) -> (r: i64)
    ensures
        r == sat(a - b),
{
    saturate(a as i128 - b as i128)
}

/// Saturating negation: only `i64::MIN` has no exact negative.
pub fn negate(a: i64) -> (r: i64)
    ensures
        r == sat(-a),
{
    saturate(-(a as i128))
}

/// `p + v * k`, saturated once at the end: a position `p` carried along by a
/// velocity `v` for `k` milliseconds.
pub fn mul_add(p: i64, v: i64, k: u64) -> (r: i64)
    ensures
        r == sat(p + v * k),
{
    assert(-0x8000_0000_0000_0000_0000_0000_0000_0000 < v * k
        < 0x7fff_ffff_ffff_ffff_ffff_ffff_ffff_ffff) by (nonlinear_arith)
        requires
            -0x8000_0000_0000_0000 <= v <= 0x7fff_ffff_ffff_ffff,
            0 <= k <= 0xffff_ffff_ffff_ffff,
    ;
    let step: i128 = (v as i128) * (k as i128);
    if step >= 0x1_0000_0000_0000_0000 {
        i64::MAX
    } else if step <= -0x1_0000_0000_0000_0000 {
        i64::MIN
    } else {
        saturate(p as i128 + step)
    }
}

/// `a * b / d` rounded toward zero and saturated, for a positive `d`. With
/// `d == ONE` this is the fixed-point product of `a` and `b`; with
/// `b == ONE` it is the fixed-point quotient of `a` by `d`.
pub fn muldiv(a: i64, b: i64, d: u64) -> (r: i64)
    requires
        d > 0,
    ensures
        r == sat(div_trunc(a * b, d as int)),
{
    assert(-0x4000_0000_0000_0000_0000_0000_0000_0000 <= a * b
        <= 0x4000_0000_0000_0000_0000_0000_0000_0000) by (nonlinear_arith)
        requires
            -0x8000_0000_0000_0000 <= a <= 0x7fff_ffff_ffff_ffff,
            -0x8000_0000_0000_0000 <= b <= 0x7fff_ffff_ffff_ffff,
    ;
    let wide: i128 = (a as i128) * (b as i128);
    saturate(wide / (d as i128))
}

/// Whether `r` is the square root of `n` rounded down.
pub open spec fn is_sqrt_floor(n: int, r: int) -> bool {
    0 <= r && r * r <= n < (r + 1) * (r + 1)
}

/// The square root of a non-negative `n`, rounded down.
pub open spec fn sqrt_floor(n: int) -> int
    recommends
        n >= 0,
{
    choose|r: int| is_sqrt_floor(n, r)
}

/// A number has at most one rounded-down square root, so whatever meets
/// `is_sqrt_floor` is `sqrt_floor`.
pub proof fn lemma_sqrt_floor(n: int, r: int)
    requires
        is_sqrt_floor(n, r),
    ensures
        sqrt_floor(n) == r,
{
    let c = sqrt_floor(n);
    assert(is_sqrt_floor(n, c));
    assert(c == r) by (nonlinear_arith)
        requires
            0 <= r,
            0 <= c,
            r * r <= n < (r + 1) * (r + 1),
            c * c <= n < (c + 1) * (c + 1),
    ;
}

/// Every number that is not negative has a rounded-down square root, and
/// `sqrt_floor` is it.
pub proof fn lemma_sqrt_floor_exists(n: int)
    requires
        n >= 0,
    ensures
        is_sqrt_floor(n, sqrt_floor(n)),
    decreases n,
{
    if n == 0 {
        assert(is_sqrt_floor(0, 0));
    } else {
        lemma_sqrt_floor_exists(n - 1);
        let r = sqrt_floor(n - 1);
        if (r + 1) * (r + 1) <= n {
            assert(is_sqrt_floor(n, r + 1)) by (nonlinear_arith)
                requires
                    0 <= r,
                    r * r <= n - 1 < (r + 1) * (r + 1),
                    (r + 1) * (r + 1) <= n,
            ;
        } else {
            assert(is_sqrt_floor(n, r));
        }
    }
}

/// Square root of `n`, rounded down.
pub fn isqrt(n: u128) -> (r: u64)
    ensures
        is_sqrt_floor(n as int, r as int),
        r == sqrt_floor(n as int),
{
    let mut lo: u128 = 0;
    let mut hi: u128 = 0x1_0000_0000_0000_0000;
    assert(0x1_0000_0000_0000_0000int * 0x1_0000_0000_0000_0000int
        == 0x1_0000_0000_0000_0000_0000_0000_0000_0000int) by (nonlinear_arith);
    while hi - lo > 1
        invariant
            lo < hi <= 0x1_0000_0000_0000_0000,
            lo * lo <= n < hi * hi,
        decreases hi - lo,
    {
        let mid: u128 = lo + (hi - lo) / 2;
        assert(mid * mid <= 0xffff_ffff_ffff_ffff_ffff_ffff_ffff_ffff) by (nonlinear_arith)
            requires
                0 <= mid <= 0xffff_ffff_ffff_ffff,
        ;
        if mid * mid <= n {
            lo = mid;
        } else {
            hi = mid;
        }
    }
    proof {
        lemma_sqrt_floor(n as int, lo as int);
    }
    lo as u64
}

/// How many whole units lie at or below `n`: `n / ONE` rounded down.
pub fn floor_units(n: i128) -> (r: i128)
    ensures
        r == div_floor(n as int, ONE as int),
{
    let q = n / (ONE as i128);
    if n < 0 && q * (ONE as i128) != n {
        q - 1
    } else {
        q
    }
}

/// How many whole units it takes to reach `n`: `n / ONE` rounded up.
pub fn ceil_units(n: i128) -> (r: i128)
    ensures
        r == div_ceil(n as int, ONE as int),
{
    let q = n / (ONE as i128);
    if n > 0 && q * (ONE as i128) != n {
        q + 1
    } else {
        q
    }
}

} // verus!

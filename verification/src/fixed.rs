//! 16.16 fixed-point scalar arithmetic.
//!
//! A scalar is an `i64` carrying a real value scaled by [`SCALE`].  Products
//! and quotients truncate toward zero, exactly as the host's casts do, so the
//! specification functions here describe the executable results bit for bit.

use vstd::prelude::*;

verus! {

/// Number of fixed-point units per whole unit: scalars are 16.16 fixed point.
pub const SCALE: i64 = 65536;

/// Quotient of `a` by `b` truncated toward zero, for a positive divisor.
pub open spec fn tdiv(a: int, b: int) -> int {
    if a >= 0 {
        a / b
    } else {
        -((-a) / b)
    }
}

/// Fixed-point product: `a * b` rescaled by `SCALE`, truncated toward zero.
pub open spec fn fxmul(a: int, b: int) -> int {
    tdiv(a * b, SCALE as int)
}

/// Fixed-point quotient: `a / b` rescaled by `SCALE`, truncated toward zero.
pub open spec fn fxdiv(a: int, b: int) -> int {
    tdiv(a * (SCALE as int), b)
}

/// Fixed-point value rounded up to the next whole number of units.
pub open spec fn fxceil(a: int) -> int {
    if a >= 0 {
        (a + (SCALE as int) - 1) / (SCALE as int)
    } else {
        tdiv(a, SCALE as int)
    }
}

pub(crate) proof fn lemma_tdiv_bound(a: int, b: int, m: int)
    requires
        b >= 1,
        -(m * b) <= a <= m * b,
        m >= 0,
    ensures
        -m <= tdiv(a, b) <= m,
{
    assert(m * b == b * m) by (nonlinear_arith);
    if a >= 0 {
        vstd::arithmetic::div_mod::lemma_div_is_ordered(a, b * m, b);
        vstd::arithmetic::div_mod::lemma_div_multiples_vanish(m, b);
        vstd::arithmetic::div_mod::lemma_div_pos_is_pos(a, b);
    } else {
        vstd::arithmetic::div_mod::lemma_div_is_ordered(-a, b * m, b);
        vstd::arithmetic::div_mod::lemma_div_multiples_vanish(m, b);
        vstd::arithmetic::div_mod::lemma_div_pos_is_pos(-a, b);
    }
}

/// Truncating division of a possibly negative `i64`-ranged value held in an
/// `i128`, by a positive divisor.
pub(crate) fn tdiv_i128(a: i128, b: i128) -> (r: i128)
    requires
        b >= 1,
        (a as int) > -0x8000_0000_0000_0000_0000_0000_0000_0000,
    ensures
        r == tdiv(a as int, b as int),
        0 <= r <= a || a < 0 <= -r <= -a,
{
    proof {
        if a >= 0 {
            vstd::arithmetic::div_mod::lemma_div_pos_is_pos(a as int, b as int);
            vstd::arithmetic::div_mod::lemma_div_nonincreasing(a as int, b as int);
        } else {
            vstd::arithmetic::div_mod::lemma_div_pos_is_pos(-(a as int), b as int);
            vstd::arithmetic::div_mod::lemma_div_nonincreasing(-(a as int), b as int);
        }
    }
    if a >= 0 {
        a / b
    } else {
        -((-a) / b)
    }
}

/// Fixed-point multiplication; the result must fit the scalar range.
pub fn fx_mul(a: i64, b: i64) -> (r: i64)
    requires
        -0x7fff_ffff_ffff_ffff * (SCALE as int) <= a * b <= 0x7fff_ffff_ffff_ffff * (
        SCALE as int),
    ensures
        r == fxmul(a as int, b as int),
{
    let p: i128 = (a as i128) * (b as i128);
    let q: i128 = tdiv_i128(p, SCALE as i128);
    proof {
        lemma_tdiv_bound(p as int, SCALE as int, 0x7fff_ffff_ffff_ffff);
    }
    q as i64
}

/// Fixed-point division by a positive divisor; the result must fit the
/// scalar range.
pub fn fx_div(a: i64, b: i64) -> (r: i64)
    requires
        b >= 1,
        -0x7fff_ffff_ffff_ffff * (b as int) <= a * (SCALE as int) <= 0x7fff_ffff_ffff_ffff * (
        b as int),
    ensures
        r == fxdiv(a as int, b as int),
{
    let p: i128 = (a as i128) * (SCALE as i128);
    let q: i128 = tdiv_i128(p, b as i128);
    proof {
        lemma_tdiv_bound(p as int, b as int, 0x7fff_ffff_ffff_ffff);
    }
    q as i64
}

/// Round a nonnegative fixed-point scalar up to a whole number of units.
pub fn fx_ceil(a: i64) -> (r: i64)
    requires
        a >= 0,
    ensures
        r == fxceil(a as int),
        0 <= r <= a,
{
    proof {
        if a >= 1 {
            assert(a + (SCALE as int) - 1 <= (a as int) * (SCALE as int)) by (nonlinear_arith)
                requires
                    a >= 1,
                    SCALE == 65536,
            ;
            vstd::arithmetic::div_mod::lemma_div_is_ordered(
                a + (SCALE as int) - 1,
                (a as int) * (SCALE as int),
                SCALE as int,
            );
            assert((a as int) * (SCALE as int) == (SCALE as int) * (a as int)) by (nonlinear_arith);
            vstd::arithmetic::div_mod::lemma_div_multiples_vanish(a as int, SCALE as int);
        }
        vstd::arithmetic::div_mod::lemma_div_pos_is_pos(a + (SCALE as int) - 1, SCALE as int);
        vstd::arithmetic::div_mod::lemma_div_is_ordered(
            a + (SCALE as int) - 1,
            0x7fff_ffff_ffff_ffff + (SCALE as int) - 1,
            SCALE as int,
        );
        assert((0x7fff_ffff_ffff_ffff + (SCALE as int) - 1) / (SCALE as int)
            <= 0x7fff_ffff_ffff_ffff);
    }
    let p: i128 = a as i128 + (SCALE as i128 - 1);
    (p / (SCALE as i128)) as i64
}

/// Remainder of `a` by a positive `b` under division truncated toward
/// zero: it has the sign of `a` and magnitude below `b`.
pub open spec fn trem(a: int, b: int) -> int {
    a - tdiv(a, b) * b
}

/// The truncated remainder lies strictly within `(-b, b)` and keeps the
/// dividend's sign.
pub proof fn lemma_trem_bound(a: int, b: int)
    requires
        b >= 1,
    ensures
        -b < trem(a, b) < b,
        a >= 0 ==> trem(a, b) >= 0,
        a < 0 ==> trem(a, b) <= 0,
{
    if a >= 0 {
        vstd::arithmetic::div_mod::lemma_fundamental_div_mod(a, b);
        vstd::arithmetic::div_mod::lemma_mod_division_less_than_divisor(a, b);
        assert(b * (a / b) == (a / b) * b) by (nonlinear_arith);
    } else {
        vstd::arithmetic::div_mod::lemma_fundamental_div_mod(-a, b);
        vstd::arithmetic::div_mod::lemma_mod_division_less_than_divisor(-a, b);
        assert(b * ((-a) / b) == ((-a) / b) * b) by (nonlinear_arith);
        assert(-((-a) / b) * b == -(((-a) / b) * b)) by (nonlinear_arith);
    }
}

/// Truncated remainder by a positive divisor.
pub fn trem_i64(a: i64, b: i64) -> (r: i64)
    requires
        b >= 1,
    ensures
        r == trem(a as int, b as int),
        -b < r < b,
        a >= 0 ==> r >= 0,
        a < 0 ==> r <= 0,
{
    proof {
        lemma_trem_bound(a as int, b as int);
    }
    let q: i128 = tdiv_i128(a as i128, b as i128);
    (a as i128 - q * (b as i128)) as i64
}

/// Truncating division of one scalar by a positive one.
pub fn tdiv_i64(a: i64, b: i64) -> (r: i64)
    requires
        b >= 1,
    ensures
        r == tdiv(a as int, b as int),
        0 <= r <= a || a < 0 <= -r <= -a,
{
    tdiv_i128(a as i128, b as i128) as i64
}

/// A value clamped into `[lo, hi]`.
pub open spec fn sat_spec(v: int, lo: int, hi: int) -> int {
    if v < lo {
        lo
    } else if v > hi {
        hi
    } else {
        v
    }
}

/// Add with saturation: the sum clamped into `[lo, hi]`.
pub fn sat_add(a: i64, d: i64, lo: i64, hi: i64) -> (r: i64)
    requires
        lo <= hi,
    ensures
        r as int == sat_spec(a as int + d as int, lo as int, hi as int),
        lo <= r <= hi,
{
    let s: i128 = a as i128 + d as i128;
    if s < lo as i128 {
        lo
    } else if s > hi as i128 {
        hi
    } else {
        s as i64
    }
}

/// The integer square root, rounded down: the greatest `r` with
/// `r * r <= n` (and `0` for nonpositive `n`).
pub open spec fn sqrt_floor(n: int) -> int
    decreases n,
{
    if n <= 0 {
        0
    } else {
        let r = sqrt_floor(n - 1);
        if (r + 1) * (r + 1) <= n {
            r + 1
        } else {
            r
        }
    }
}

/// `sqrt_floor` is nonnegative, and is the greatest integer whose square
/// is at most `n`.
pub proof fn lemma_sqrt_floor_props(n: int)
    requires
        n >= 0,
    ensures
        sqrt_floor(n) >= 0,
        sqrt_floor(n) * sqrt_floor(n) <= n,
        (sqrt_floor(n) + 1) * (sqrt_floor(n) + 1) > n,
    decreases n,
{
    if n > 0 {
        lemma_sqrt_floor_props(n - 1);
        let r = sqrt_floor(n - 1);
        if (r + 1) * (r + 1) <= n {
            assert((r + 2) * (r + 2) > (r + 1) * (r + 1)) by (nonlinear_arith)
                requires
                    r >= 0,
            ;
        }
    }
}

/// Any `r` with `r * r <= n < (r + 1) * (r + 1)` is the square root.
pub proof fn lemma_sqrt_floor_unique(n: int, r: int)
    requires
        n >= 0,
        r >= 0,
        r * r <= n,
        (r + 1) * (r + 1) > n,
    ensures
        r == sqrt_floor(n),
{
    lemma_sqrt_floor_props(n);
    let s = sqrt_floor(n);
    if r < s {
        assert((r + 1) * (r + 1) <= s * s) by (nonlinear_arith)
            requires
                0 <= r < s,
        ;
    }
    if s < r {
        assert((s + 1) * (s + 1) <= r * r) by (nonlinear_arith)
            requires
                0 <= s < r,
        ;
    }
}

/// The square root never decreases.
pub proof fn lemma_sqrt_floor_monotone(m: int, n: int)
    requires
        0 <= m <= n,
    ensures
        sqrt_floor(m) <= sqrt_floor(n),
    decreases n,
{
    if m < n {
        lemma_sqrt_floor_monotone(m, n - 1);
    }
}

/// Integer square root: the greatest `r` with `r * r <= n`.
pub fn isqrt(n: u128) -> (r: u64)
    requires
        n < 0x4000_0000_0000_0000_0000_0000_0000_0000u128,
    ensures
        (r as int) * (r as int) <= n as int,
        (r as int + 1) * (r as int + 1) > n as int,
{
    let mut lo: u128 = 0;
    let mut hi: u128 = 0x8000_0000_0000_0000;
    proof {
        assert((0x8000_0000_0000_0000 as int) * (0x8000_0000_0000_0000 as int) > n as int)
            by (nonlinear_arith)
            requires n < 0x4000_0000_0000_0000_0000_0000_0000_0000u128;
    }
    while lo + 1 < hi
        invariant
            0 <= lo < hi <= 0x8000_0000_0000_0000,
            (lo as int) * (lo as int) <= n as int,
            (hi as int) * (hi as int) > n as int,
        decreases hi - lo,
    {
        let mid: u128 = lo + (hi - lo) / 2;
        proof {
            assert(lo < mid < hi);
            assert((mid as int) * (mid as int) <= 0x8000_0000_0000_0000 * 0x8000_0000_0000_0000)
                by (nonlinear_arith)
                requires 0 <= mid <= 0x8000_0000_0000_0000;
        }
        if mid * mid <= n {
            lo = mid;
        } else {
            hi = mid;
        }
    }
    proof {
        assert(lo < 0x1_0000_0000_0000_0000);
    }
    lo as u64
}

/// The integer cube root, rounded down: the greatest `r` with
/// `r * r * r <= n` (and `0` for nonpositive `n`).
pub open spec fn cbrt_floor(n: int) -> int
    decreases n,
{
    if n <= 0 {
        0
    } else {
        let r = cbrt_floor(n - 1);
        if (r + 1) * (r + 1) * (r + 1) <= n {
            r + 1
        } else {
            r
        }
    }
}

/// `cbrt_floor` is nonnegative, and is the greatest integer whose cube is
/// at most `n`.
pub proof fn lemma_cbrt_floor_props(n: int)
    requires
        n >= 0,
    ensures
        cbrt_floor(n) >= 0,
        cbrt_floor(n) * cbrt_floor(n) * cbrt_floor(n) <= n,
        (cbrt_floor(n) + 1) * (cbrt_floor(n) + 1) * (cbrt_floor(n) + 1) > n,
    decreases n,
{
    if n > 0 {
        lemma_cbrt_floor_props(n - 1);
        let r = cbrt_floor(n - 1);
        if (r + 1) * (r + 1) * (r + 1) <= n {
            assert((r + 2) * (r + 2) * (r + 2) > (r + 1) * (r + 1) * (r + 1)) by (nonlinear_arith)
                requires
                    r >= 0,
            ;
        }
    }
}

/// Any `r` whose cube is at most `n` while `(r + 1)`'s exceeds it is the
/// cube root.
pub proof fn lemma_cbrt_floor_unique(n: int, r: int)
    requires
        n >= 0,
        r >= 0,
        r * r * r <= n,
        (r + 1) * (r + 1) * (r + 1) > n,
    ensures
        r == cbrt_floor(n),
{
    lemma_cbrt_floor_props(n);
    let s = cbrt_floor(n);
    if r < s {
        assert((r + 1) * (r + 1) * (r + 1) <= s * s * s) by (nonlinear_arith)
            requires
                0 <= r < s,
        ;
    }
    if s < r {
        assert((s + 1) * (s + 1) * (s + 1) <= r * r * r) by (nonlinear_arith)
            requires
                0 <= s < r,
        ;
    }
}

/// Integer cube root: the greatest `r` with `r * r * r <= n`.
pub fn icbrt(n: u64) -> (r: u32)
    ensures
        r as int == cbrt_floor(n as int),
{
    let mut lo: u64 = 0;
    let mut hi: u64 = 0x30_0000;
    proof {
        assert(0x30_0000 * 0x30_0000 * 0x30_0000int > 0xffff_ffff_ffff_ffffint)
            by (nonlinear_arith);
    }
    while lo + 1 < hi
        invariant
            0 <= lo < hi <= 0x30_0000,
            (lo as int) * (lo as int) * (lo as int) <= n as int,
            (hi as int) * (hi as int) * (hi as int) > n as int,
        decreases hi - lo,
    {
        let mid: u64 = lo + (hi - lo) / 2;
        proof {
            assert(lo < mid < hi);
            assert((mid as int) * (mid as int) <= 0x30_0000 * 0x30_0000int && (mid as int) * (
            mid as int) * (mid as int) <= 0x30_0000 * 0x30_0000 * 0x30_0000int)
                by (nonlinear_arith)
                requires
                    0 <= mid <= 0x30_0000,
            ;
        }
        let c: u128 = (mid as u128) * (mid as u128) * (mid as u128);
        if c <= n as u128 {
            lo = mid;
        } else {
            hi = mid;
        }
    }
    proof {
        lemma_cbrt_floor_unique(n as int, lo as int);
    }
    lo as u32
}

} // verus!

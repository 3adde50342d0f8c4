//! Fixed-point scalars.
//!
//! Every length, angle and trigonometric ratio in this crate is carried as an
//! `i64` holding the quantity times [`FX_ONE`] (six decimal places).  All
//! derived values are defined by exact integer formulas over this encoding,
//! so each function's contract pins its result down completely.

use vstd::prelude::*;
use vstd::arithmetic::div_mod::{
    lemma_div_is_ordered, lemma_div_multiples_vanish, lemma_div_pos_is_pos,
    lemma_fundamental_div_mod, lemma_fundamental_div_mod_converse,
};

verus! {

/// One whole unit: fixed-point values carry six decimal places.
pub const FX_ONE: i64 = 1_000_000;

/// Product of two fixed-point values, scaled back down (exact floor).
pub open spec fn fx_mul_s(a: int, b: int) -> int {
    (a * b) / (FX_ONE as int)
}

/// Quotient of two fixed-point values, scaled up before dividing (exact floor).
pub open spec fn fx_div_s(a: int, b: int) -> int {
    (a * FX_ONE) / b
}

/// Floor division with a positive divisor, agreeing with `/` on `int`.
///
/// Rust's `/` on signed integers rounds toward zero; this rounds toward
/// negative infinity, which is what the specification-level `/` means for a
/// positive divisor.
pub fn div_floor_i128(n: i128, d: i128) -> (q: i128)
    requires
        d >= 1,
        i128::MIN < n,
    ensures
        q == n as int / d as int,
{
    let qt = n / d;
    let rt = n % d;
    proof {
        if n < 0 {
            let m = -(n as int);
            let mq = m / (d as int);
            let mr = m % (d as int);
            lemma_fundamental_div_mod(m, d as int);
            vstd::arithmetic::div_mod::lemma_mod_bound(m, d as int);
            assert(qt == -mq && rt == -mr);
            if mr == 0 {
                assert((-mq) * (d as int) == -((d as int) * mq)) by (nonlinear_arith);
                lemma_fundamental_div_mod_converse(n as int, d as int, -mq, 0);
            } else {
                assert((-mq - 1) * (d as int) == -((d as int) * mq) - (d as int))
                    by (nonlinear_arith);
                lemma_fundamental_div_mod_converse(n as int, d as int, -mq - 1, d - mr);
            }
        }
    }
    if rt != 0 && n < 0 {
        qt - 1
    } else {
        qt
    }
}

/// Fixed-point multiplication: computes `a * b / FX_ONE` exactly (floor).
pub fn fx_mul(a: i64, b: i64) -> (r: i64)
    requires
        -(i64::MAX as int) * FX_ONE <= a * b <= (i64::MAX as int) * FX_ONE,
    ensures
        r == fx_mul_s(a as int, b as int),
{
    let p: i128 = (a as i128) * (b as i128);
    proof {
        lemma_div_is_ordered(p as int, (i64::MAX as int) * FX_ONE, FX_ONE as int);
        lemma_div_multiples_vanish(i64::MAX as int, FX_ONE as int);
        lemma_div_is_ordered(-(i64::MAX as int) * FX_ONE, p as int, FX_ONE as int);
        lemma_div_multiples_vanish(-(i64::MAX as int), FX_ONE as int);
        assert((FX_ONE as int) * (i64::MAX as int) == (i64::MAX as int) * FX_ONE) by (nonlinear_arith);
        assert((FX_ONE as int) * (-(i64::MAX as int)) == -(i64::MAX as int) * FX_ONE) by (nonlinear_arith);
    }
    let q = div_floor_i128(p, FX_ONE as i128);
    q as i64
}

/// Fixed-point division: computes `a * FX_ONE / b` exactly (floor).
///
/// The bound on `a * FX_ONE` relative to `b` keeps the quotient inside
/// `i64`; callers discharge it from a bound of the form `|a| <= c * b`.
pub fn fx_div(a: i64, b: i64) -> (r: i64)
    requires
        b >= 1,
        -0x7fff_ffff_ffff * b <= a * FX_ONE <= 0x7fff_ffff_ffff * b,
    ensures
        r == fx_div_s(a as int, b as int),
        -0x7fff_ffff_ffff <= r <= 0x7fff_ffff_ffff,
{
    let p: i128 = (a as i128) * (FX_ONE as i128);
    proof {
        let t: int = 0x7fff_ffff_ffff;
        assert(p == (a as int) * 1_000_000);
        lemma_div_is_ordered(p as int, t * b, b as int);
        assert((b as int) * t == t * b) by (nonlinear_arith);
        lemma_div_multiples_vanish(t, b as int);
        lemma_div_is_ordered(-t * b, p as int, b as int);
        assert((b as int) * (-t) == -t * b) by (nonlinear_arith);
        lemma_div_multiples_vanish(-t, b as int);
    }
    let q = div_floor_i128(p, b as i128);
    q as i64
}

/// Products of nonnegative values respect componentwise upper bounds.
pub proof fn lemma_mul_nonneg_le(a: int, b: int, ca: int, cb: int)
    requires
        0 <= a <= ca,
        0 <= b <= cb,
    ensures
        0 <= a * b <= ca * cb,
{
    assert(0 <= a * b <= ca * cb) by (nonlinear_arith)
        requires
            0 <= a <= ca,
            0 <= b <= cb,
    ;
}

/// A fixed-point product of nonnegative values respects componentwise
/// upper bounds, both before and after scaling down.
pub proof fn lemma_fx_mul_mono(a: int, b: int, ca: int, cb: int)
    requires
        0 <= a <= ca,
        0 <= b <= cb,
    ensures
        0 <= a * b <= ca * cb,
        0 <= fx_mul_s(a, b) <= (ca * cb) / (FX_ONE as int),
{
    lemma_mul_nonneg_le(a, b, ca, cb);
    lemma_div_pos_is_pos(a * b, FX_ONE as int);
    lemma_div_is_ordered(a * b, ca * cb, FX_ONE as int);
}

/// Floor division of a negated nonnegative value: at worst one below the
/// negated quotient.
pub proof fn lemma_neg_div_floor(t: int, m: int)
    requires
        m >= 1,
        t >= 0,
    ensures
        (-t) / m >= -(t / m) - 1,
        (-t) / m <= 0,
{
    lemma_fundamental_div_mod(t, m);
    vstd::arithmetic::div_mod::lemma_mod_bound(t, m);
    let q = t / m;
    let r = t % m;
    if r == 0 {
        assert((-q) * m == -(m * q)) by (nonlinear_arith);
        lemma_fundamental_div_mod_converse(-t, m, -q, 0);
    } else {
        assert((-q - 1) * m == -(m * q) - m) by (nonlinear_arith);
        lemma_fundamental_div_mod_converse(-t, m, -q - 1, m - r);
    }
    lemma_div_pos_is_pos(t, m);
}

/// Signed fixed-point products respect componentwise magnitude bounds.
pub proof fn lemma_fx_mul_abs(a: int, b: int, ca: int, cb: int)
    requires
        -ca <= a <= ca,
        -cb <= b <= cb,
        0 <= ca,
        0 <= cb,
    ensures
        -(ca * cb) <= a * b <= ca * cb,
        -((ca * cb) / (FX_ONE as int)) - 1 <= fx_mul_s(a, b) <= (ca * cb) / (FX_ONE as int),
{
    assert(-(ca * cb) <= a * b <= ca * cb) by (nonlinear_arith)
        requires
            -ca <= a <= ca,
            -cb <= b <= cb,
            0 <= ca,
            0 <= cb,
    ;
    lemma_div_is_ordered(a * b, ca * cb, FX_ONE as int);
    lemma_div_is_ordered(-(ca * cb), a * b, FX_ONE as int);
    lemma_neg_div_floor(ca * cb, FX_ONE as int);
}

/// The integer square root, defined by recursion on the argument.
pub open spec fn isqrt_s(n: int) -> int
    decreases n,
{
    if n <= 0 {
        0
    } else {
        let r = isqrt_s(n - 1);
        if (r + 1) * (r + 1) <= n {
            r + 1
        } else {
            r
        }
    }
}

/// `isqrt_s(n)` really is the floor of the square root.
pub proof fn lemma_isqrt_props(n: int)
    requires
        n >= 0,
    ensures
        isqrt_s(n) >= 0,
        isqrt_s(n) * isqrt_s(n) <= n,
        n < (isqrt_s(n) + 1) * (isqrt_s(n) + 1),
    decreases n,
{
    if n == 0 {
        assert(isqrt_s(0) == 0);
    } else {
        lemma_isqrt_props(n - 1);
        let r = isqrt_s(n - 1);
        if (r + 1) * (r + 1) <= n {
            assert((r + 2) * (r + 2) > n) by (nonlinear_arith)
                requires
                    r >= 0,
                    n - 1 < (r + 1) * (r + 1),
                    (r + 1) * (r + 1) <= n,
            ;
        }
    }
}

/// Any value bracketing the argument between consecutive squares is the
/// integer square root.
pub proof fn lemma_isqrt_unique(n: int, r: int)
    requires
        n >= 0,
        r >= 0,
        r * r <= n,
        n < (r + 1) * (r + 1),
    ensures
        r == isqrt_s(n),
{
    lemma_isqrt_props(n);
    let s = isqrt_s(n);
    if r < s {
        assert((r + 1) * (r + 1) <= s * s) by (nonlinear_arith)
            requires
                0 <= r,
                r + 1 <= s,
        ;
    }
    if s < r {
        assert((s + 1) * (s + 1) <= r * r) by (nonlinear_arith)
            requires
                0 <= s,
                s + 1 <= r,
        ;
    }
}

/// Integer square root by bisection.
pub fn isqrt_u128(n: u128) -> (r: u64)
    requires
        n < 85070591730234615865843651857942052864,
    ensures
        r as int == isqrt_s(n as int),
        (r as int) * (r as int) <= n as int,
        (n as int) < ((r as int) + 1) * ((r as int) + 1),
{
    let mut lo: u128 = 0;
    let mut hi: u128 = 9223372036854775808;
    while lo + 1 < hi
        invariant
            lo < hi,
            hi <= 9223372036854775808,
            (lo as int) * (lo as int) <= n as int,
            (n as int) < (hi as int) * (hi as int),
            n < 85070591730234615865843651857942052864,
        decreases hi - lo,
    {
        let mid = lo + (hi - lo) / 2;
        proof {
            assert(lo < mid < hi);
            assert((mid as int) * (mid as int) < 85070591730234615865843651857942052864)
                by (nonlinear_arith)
                requires
                    0 <= (mid as int) < 9223372036854775808,
            ;
        }
        if mid * mid <= n {
            lo = mid;
        } else {
            hi = mid;
        }
    }
    proof {
        assert(hi == lo + 1);
        lemma_isqrt_unique(n as int, lo as int);
    }
    lo as u64
}

} // verus!

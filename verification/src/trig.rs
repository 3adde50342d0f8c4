//! Fixed-point circular functions.
//!
//! Angles are fixed-point radians ([`FX_ONE`](crate::fixed::FX_ONE) units per
//! radian).  Sine and cosine reduce the angle into one quadrant and evaluate
//! a truncated Taylor polynomial; the inverse functions use series tuned for
//! the arguments the gear geometry produces (arcsine near zero, arccosine
//! near one).  Every function's contract states the exact integer value it
//! returns, so callers reason about these approximations without slack.

use vstd::prelude::*;
use vstd::arithmetic::div_mod::{
    lemma_div_is_ordered, lemma_div_pos_is_pos, lemma_fundamental_div_mod,
    lemma_fundamental_div_mod_converse, lemma_mod_bound,
};
use crate::fixed::{FX_ONE, fx_mul_s, isqrt_s, isqrt_u128};

verus! {

/// A quarter turn, `pi / 2`, in fixed-point radians.
pub const HALF_PI_FX: i64 = 1_570_796;

/// Half a turn, `pi`, in fixed-point radians (twice [`HALF_PI_FX`]).
pub const PI_FX: i64 = 3_141_592;

/// A full turn, `2 * pi`, in fixed-point radians (four times [`HALF_PI_FX`]).
pub const TWO_PI_FX: i64 = 6_283_184;

/// Taylor polynomial for sine on one quadrant:
/// `x - x^3/3! + x^5/5! - x^7/7!` in fixed point.
pub open spec fn sin_quarter_s(x: int) -> int {
    let x2 = fx_mul_s(x, x);
    let x3 = fx_mul_s(x2, x);
    let x5 = fx_mul_s(x3, x2);
    let x7 = fx_mul_s(x5, x2);
    x - x3 / 6 + x5 / 120 - x7 / 5040
}

/// Taylor polynomial for cosine on one quadrant:
/// `1 - x^2/2! + x^4/4! - x^6/6! + x^8/8!` in fixed point.
pub open spec fn cos_quarter_s(x: int) -> int {
    let x2 = fx_mul_s(x, x);
    let x4 = fx_mul_s(x2, x2);
    let x6 = fx_mul_s(x4, x2);
    let x8 = fx_mul_s(x6, x2);
    FX_ONE - x2 / 2 + x4 / 24 - x6 / 720 + x8 / 40320
}

/// Restrict a ratio to `[-1, 1]` in fixed point.
pub open spec fn clamp_unit_s(v: int) -> int {
    if v > FX_ONE {
        FX_ONE as int
    } else if v < -(FX_ONE as int) {
        -(FX_ONE as int)
    } else {
        v
    }
}

/// An angle reduced into `[0, 2*pi)` by exact Euclidean remainder.
pub open spec fn norm_angle_s(a: int) -> int {
    a % (TWO_PI_FX as int)
}

/// Fixed-point sine of any angle: quadrant reduction, then the quarter-turn
/// polynomial, clamped into `[-1, 1]`.
pub open spec fn sin_fx_s(a: int) -> int {
    let b = norm_angle_s(a);
    let q = b / (HALF_PI_FX as int);
    let r = b % (HALF_PI_FX as int);
    clamp_unit_s(
        if q == 0 {
            sin_quarter_s(r)
        } else if q == 1 {
            cos_quarter_s(r)
        } else if q == 2 {
            -sin_quarter_s(r)
        } else {
            -cos_quarter_s(r)
        },
    )
}

/// Fixed-point cosine of any angle.
pub open spec fn cos_fx_s(a: int) -> int {
    let b = norm_angle_s(a);
    let q = b / (HALF_PI_FX as int);
    let r = b % (HALF_PI_FX as int);
    clamp_unit_s(
        if q == 0 {
            cos_quarter_s(r)
        } else if q == 1 {
            -sin_quarter_s(r)
        } else if q == 2 {
            -cos_quarter_s(r)
        } else {
            sin_quarter_s(r)
        },
    )
}

/// Series for arcsine on `[0, 1]`: `x + x^3/6 + 3*x^5/40` in fixed point.
/// Accurate for the small backlash ratios the tooth assembler feeds it.
pub open spec fn asin_fx_s(x: int) -> int {
    let x2 = fx_mul_s(x, x);
    let x3 = fx_mul_s(x2, x);
    let x5 = fx_mul_s(x3, x2);
    x + x3 / 6 + (3 * x5) / 40
}

/// Expansion of arccosine around one: with `u = 1 - x`,
/// `acos(x) ~ sqrt(2*u) * (1 + u/12)` in fixed point.  Exact at `x = 1` and
/// accurate nearby, which is where the pitch-point ratio lands.
pub open spec fn acos_fx_s(x: int) -> int {
    let u = FX_ONE - x;
    let s = isqrt_s(2 * u * FX_ONE);
    s + (s * u) / 12_000_000
}

/// The arcsine series is monotone, and strictly so: its leading term is the
/// argument itself and the correction terms never decrease.
pub proof fn lemma_asin_monotone(x1: int, x2: int)
    requires
        0 <= x1 <= x2 <= FX_ONE as int,
    ensures
        asin_fx_s(x1) <= asin_fx_s(x2),
        x1 < x2 ==> asin_fx_s(x1) < asin_fx_s(x2),
{
    let a2 = fx_mul_s(x1, x1);
    let b2 = fx_mul_s(x2, x2);
    assert(x1 * x1 <= x2 * x2) by (nonlinear_arith)
        requires
            0 <= x1 <= x2,
    ;
    lemma_div_is_ordered(x1 * x1, x2 * x2, FX_ONE as int);
    lemma_div_pos_is_pos(x1 * x1, FX_ONE as int);
    assert(x1 * x1 >= 0) by (nonlinear_arith);
    let a3 = fx_mul_s(a2, x1);
    let b3 = fx_mul_s(b2, x2);
    assert(a2 * x1 <= b2 * x2) by (nonlinear_arith)
        requires
            0 <= a2 <= b2,
            0 <= x1 <= x2,
    ;
    lemma_div_is_ordered(a2 * x1, b2 * x2, FX_ONE as int);
    lemma_div_pos_is_pos(a2 * x1, FX_ONE as int);
    assert(a2 * x1 >= 0) by (nonlinear_arith)
        requires
            0 <= a2,
            0 <= x1,
    ;
    let a5 = fx_mul_s(a3, a2);
    let b5 = fx_mul_s(b3, b2);
    assert(a3 * a2 <= b3 * b2) by (nonlinear_arith)
        requires
            0 <= a3 <= b3,
            0 <= a2 <= b2,
    ;
    lemma_div_is_ordered(a3 * a2, b3 * b2, FX_ONE as int);
    lemma_div_pos_is_pos(a3 * a2, FX_ONE as int);
    assert(a3 * a2 >= 0) by (nonlinear_arith)
        requires
            0 <= a3,
            0 <= a2,
    ;
    lemma_div_is_ordered(a3, b3, 6);
    lemma_div_is_ordered(3 * a5, 3 * b5, 40);
}

/// Reduce any angle into `[0, 2*pi)`, agreeing with the Euclidean remainder.
pub fn norm_angle(a: i64) -> (r: i64)
    ensures
        r == norm_angle_s(a as int),
        0 <= r < TWO_PI_FX,
{
    let m = a % TWO_PI_FX;
    proof {
        let t = TWO_PI_FX as int;
        if a < 0 {
            let n = -(a as int);
            let nq = n / t;
            let nr = n % t;
            lemma_fundamental_div_mod(n, t);
            lemma_mod_bound(n, t);
            assert(m == -nr);
            if nr == 0 {
                assert((-nq) * t == -(t * nq)) by (nonlinear_arith);
                lemma_fundamental_div_mod_converse(a as int, t, -nq, 0);
            } else {
                assert((-nq - 1) * t == -(t * nq) - t) by (nonlinear_arith);
                lemma_fundamental_div_mod_converse(a as int, t, -nq - 1, t - nr);
            }
        } else {
            lemma_mod_bound(a as int, t);
        }
    }
    if m < 0 {
        m + TWO_PI_FX
    } else {
        m
    }
}

/// Quarter-turn sine polynomial (executable form).
fn sin_quarter(x: i64) -> (r: i64)
    requires
        0 <= x <= HALF_PI_FX,
    ensures
        r == sin_quarter_s(x as int),
        -3_000_000 <= r <= 3_000_000,
{
    proof {
        crate::fixed::lemma_fx_mul_mono(x as int, x as int, HALF_PI_FX as int, HALF_PI_FX as int);
    }
    let x2 = (x * x) / FX_ONE;
    proof {
        crate::fixed::lemma_fx_mul_mono(x2 as int, x as int, 2_467_400, HALF_PI_FX as int);
    }
    let x3 = (x2 * x) / FX_ONE;
    proof {
        crate::fixed::lemma_fx_mul_mono(x3 as int, x2 as int, 3_875_784, 2_467_400);
    }
    let x5 = (x3 * x2) / FX_ONE;
    proof {
        crate::fixed::lemma_fx_mul_mono(x5 as int, x2 as int, 9_563_116, 2_467_400);
    }
    let x7 = (x5 * x2) / FX_ONE;
    x - x3 / 6 + x5 / 120 - x7 / 5040
}

/// Quarter-turn cosine polynomial (executable form).
fn cos_quarter(x: i64) -> (r: i64)
    requires
        0 <= x <= HALF_PI_FX,
    ensures
        r == cos_quarter_s(x as int),
        -3_000_000 <= r <= 3_000_000,
{
    proof {
        crate::fixed::lemma_fx_mul_mono(x as int, x as int, HALF_PI_FX as int, HALF_PI_FX as int);
    }
    let x2 = (x * x) / FX_ONE;
    proof {
        crate::fixed::lemma_fx_mul_mono(x2 as int, x2 as int, 2_467_400, 2_467_400);
    }
    let x4 = (x2 * x2) / FX_ONE;
    proof {
        crate::fixed::lemma_fx_mul_mono(x4 as int, x2 as int, 6_088_063, 2_467_400);
    }
    let x6 = (x4 * x2) / FX_ONE;
    proof {
        crate::fixed::lemma_fx_mul_mono(x6 as int, x2 as int, 15_021_705, 2_467_400);
    }
    let x8 = (x6 * x2) / FX_ONE;
    FX_ONE - x2 / 2 + x4 / 24 - x6 / 720 + x8 / 40320
}

/// Fixed-point sine, defined for every `i64` angle.
pub fn sin_fx(a: i64) -> (r: i64)
    ensures
        r == sin_fx_s(a as int),
        -FX_ONE <= r <= FX_ONE,
{
    let b = norm_angle(a);
    let q = b / HALF_PI_FX;
    let r0 = b % HALF_PI_FX;
    let v = if q == 0 {
        sin_quarter(r0)
    } else if q == 1 {
        cos_quarter(r0)
    } else if q == 2 {
        -sin_quarter(r0)
    } else {
        -cos_quarter(r0)
    };
    if v > FX_ONE {
        FX_ONE
    } else if v < -FX_ONE {
        -FX_ONE
    } else {
        v
    }
}

/// Fixed-point cosine, defined for every `i64` angle.
pub fn cos_fx(a: i64) -> (r: i64)
    ensures
        r == cos_fx_s(a as int),
        -FX_ONE <= r <= FX_ONE,
{
    let b = norm_angle(a);
    let q = b / HALF_PI_FX;
    let r0 = b % HALF_PI_FX;
    let v = if q == 0 {
        cos_quarter(r0)
    } else if q == 1 {
        -sin_quarter(r0)
    } else if q == 2 {
        -cos_quarter(r0)
    } else {
        sin_quarter(r0)
    };
    if v > FX_ONE {
        FX_ONE
    } else if v < -FX_ONE {
        -FX_ONE
    } else {
        v
    }
}

/// Fixed-point arcsine on `[0, 1]`.
pub fn asin_fx(x: i64) -> (r: i64)
    requires
        0 <= x <= FX_ONE,
    ensures
        r == asin_fx_s(x as int),
        0 <= r <= 1_250_000,
{
    proof {
        crate::fixed::lemma_fx_mul_mono(x as int, x as int, FX_ONE as int, FX_ONE as int);
    }
    let x2 = (x * x) / FX_ONE;
    proof {
        crate::fixed::lemma_fx_mul_mono(x2 as int, x as int, FX_ONE as int, FX_ONE as int);
    }
    let x3 = (x2 * x) / FX_ONE;
    proof {
        crate::fixed::lemma_fx_mul_mono(x3 as int, x2 as int, FX_ONE as int, FX_ONE as int);
    }
    let x5 = (x3 * x2) / FX_ONE;
    x + x3 / 6 + (3 * x5) / 40
}

/// Fixed-point arccosine on `[-1, 1]`.
pub fn acos_fx(x: i64) -> (r: i64)
    requires
        -FX_ONE <= x <= FX_ONE,
    ensures
        r == acos_fx_s(x as int),
        0 <= r <= 2_400_000,
{
    let u = FX_ONE - x;
    let s64 = isqrt_u128(2 * (u as u128) * (FX_ONE as u128));
    proof {
        let arg = 2 * (u as int) * (FX_ONE as int);
        assert(arg <= 4_000_000_000_000);
        if s64 as int > 2_000_000 {
            assert((s64 as int) * (s64 as int) > 4_000_000_000_000) by (nonlinear_arith)
                requires
                    s64 as int >= 2_000_001,
            ;
        }
        crate::fixed::lemma_mul_nonneg_le(s64 as int, u as int, 2_000_000, 2_000_000);
    }
    let s = s64 as i64;
    s + (s * u) / 12_000_000
}

} // verus!

//! The involute sampler.
//!
//! One flank of a tooth follows the circle involute
//! `x = b*(cos t + t*sin t)`, `y = b*(sin t - t*cos t)` for the base radius
//! `b`.  The curve parameter runs from the innermost valid radius out to
//! the tip: `t_max = sqrt((outer/b)^2 - 1)`, and `t_min` is the analogous
//! value for the root radius when the root circle lies outside the base
//! circle, or zero in the undercut case where the involute cannot reach
//! the root.  The sampler emits a fixed number of linearly spaced samples.
//!
//! The opposite flank of a tooth is the same curve evaluated at the
//! negated parameter; since cosine is even and sine odd, that is exactly
//! the mirror image of the sampled flank across the x axis, which is how
//! the tooth assembler obtains it.

use vstd::prelude::*;
use vstd::arithmetic::div_mod::{
    lemma_div_is_ordered, lemma_div_multiples_vanish, lemma_div_pos_is_pos,
};
use crate::fixed::{
    FX_ONE, fx_mul, fx_mul_s, isqrt_s, isqrt_u128, lemma_fx_mul_abs, lemma_isqrt_props,
    lemma_mul_nonneg_le,
};
use crate::geometry::ResolvedGearGeometry;
use crate::geometry::wf_geometry;
use crate::point::{Point2D, in_bounds};
use crate::trig::{cos_fx, cos_fx_s, sin_fx, sin_fx_s};

verus! {

/// Default sampling resolution for one flank.  A tunable accuracy/cost
/// trade-off, not a correctness requirement: anything from about twenty
/// steps up produces a visually smooth flank.
pub const DEFAULT_INVOLUTE_STEPS: usize = 100;

/// Ceiling division for nonnegative operands.
pub open spec fn ceil_div_s(a: int, b: int) -> int {
    (a + b - 1) / b
}

/// Smallest integer whose square reaches `n`.
pub open spec fn isqrt_ceil_s(n: int) -> int {
    if isqrt_s(n) * isqrt_s(n) < n {
        isqrt_s(n) + 1
    } else {
        isqrt_s(n)
    }
}

/// `(r^2 - b^2) * FX_ONE^2`: the numerator of `((r/b)^2 - 1)` scaled so its
/// square root lands in fixed-point radians.
pub open spec fn ratio_sq_num_s(r: int, b: int) -> int {
    (r * r - b * b) * 1_000_000_000_000
}

/// Where the involute reaches the tip circle: `sqrt((outer/b)^2 - 1)`,
/// rounded down.
pub open spec fn theta_max_s(g: ResolvedGearGeometry) -> int {
    isqrt_s(
        ratio_sq_num_s(g.outer_radius as int, g.base_radius as int) / (
        (g.base_radius as int) * (g.base_radius as int)),
    )
}

/// Where the involute crosses the pitch circle: `sqrt((pitch/b)^2 - 1)`,
/// rounded down.
pub open spec fn theta_pitch_s(g: ResolvedGearGeometry) -> int {
    isqrt_s(
        ratio_sq_num_s(g.pitch_radius as int, g.base_radius as int) / (
        (g.base_radius as int) * (g.base_radius as int)),
    )
}

/// Where the flank starts: `sqrt((root/b)^2 - 1)` rounded up when the root
/// circle lies strictly outside the base circle, and exactly zero otherwise
/// (the undercut case: the root circle itself closes the gap).
pub open spec fn theta_min_s(g: ResolvedGearGeometry) -> int {
    if g.root_radius > g.base_radius {
        isqrt_ceil_s(
            ceil_div_s(
                ratio_sq_num_s(g.root_radius as int, g.base_radius as int),
                (g.base_radius as int) * (g.base_radius as int),
            ),
        )
    } else {
        0
    }
}

/// The sampled parameter range, empty rather than negative.
pub open spec fn theta_span_s(g: ResolvedGearGeometry) -> int {
    if theta_max_s(g) >= theta_min_s(g) {
        theta_max_s(g) - theta_min_s(g)
    } else {
        0
    }
}

/// The `i`-th of `steps` linearly spaced parameter values.
pub open spec fn theta_sample_s(g: ResolvedGearGeometry, steps: int, i: int) -> int {
    theta_min_s(g) + (i * theta_span_s(g)) / steps
}

/// One involute point in fixed-point coordinates.
pub open spec fn involute_s(b: int, t: int) -> (int, int) {
    (
        fx_mul_s(b, cos_fx_s(t) + fx_mul_s(t, sin_fx_s(t))),
        fx_mul_s(b, sin_fx_s(t) - fx_mul_s(t, cos_fx_s(t))),
    )
}

/// Bound used throughout: for a well-formed geometry every ratio argument
/// stays at most `1023 * FX_ONE^2`, so every theta is under `32 * FX_ONE`.
proof fn lemma_ratio_sq_bounds(r: int, b: int)
    requires
        1 <= b,
        b <= r,
        r <= 32 * b,
    ensures
        0 <= ratio_sq_num_s(r, b),
        ratio_sq_num_s(r, b) / (b * b) <= 1_023_000_000_000_000,
        ceil_div_s(ratio_sq_num_s(r, b), b * b) <= 1_023_000_000_000_001,
        b * b >= 1,
{
    assert(b * b >= 1 && b * b <= r * r && r * r <= 1024 * (b * b)) by (nonlinear_arith)
        requires
            1 <= b,
            b <= r,
            r <= 32 * b,
    ;
    let bb = b * b;
    let num = ratio_sq_num_s(r, b);
    assert(num == (r * r - bb) * 1_000_000_000_000);
    assert(num <= 1023 * bb * 1_000_000_000_000 && num >= 0) by (nonlinear_arith)
        requires
            0 <= r * r - bb <= 1023 * bb,
            num == (r * r - bb) * 1_000_000_000_000,
    ;
    lemma_div_is_ordered(num, 1023 * bb * 1_000_000_000_000, bb);
    assert(1023 * bb * 1_000_000_000_000 == bb * 1_023_000_000_000_000) by (nonlinear_arith);
    lemma_div_multiples_vanish(1_023_000_000_000_000, bb);
    lemma_div_is_ordered(num + bb - 1, 1023 * bb * 1_000_000_000_000 + bb, bb);
    assert(1023 * bb * 1_000_000_000_000 + bb == bb * 1_023_000_000_000_001) by (nonlinear_arith);
    lemma_div_multiples_vanish(1_023_000_000_000_001, bb);
}

/// A square-root argument of at most `1023 * FX_ONE^2` yields a theta of
/// at most `32 * FX_ONE`.
proof fn lemma_theta_small(n: int)
    requires
        0 <= n <= 1_023_000_000_000_001,
    ensures
        isqrt_s(n) <= 31_984_371,
        isqrt_ceil_s(n) <= 31_984_372,
{
    lemma_isqrt_props(n);
    let s = isqrt_s(n);
    if s > 31_984_371 {
        assert(s * s > 1_023_000_000_000_001) by (nonlinear_arith)
            requires
                s >= 31_984_372,
        ;
    }
}

/// The undercut switch: the flank's starting parameter is positive exactly
/// when the root circle lies strictly outside the base circle.
pub proof fn lemma_undercut_switch(g: ResolvedGearGeometry)
    requires
        wf_geometry(g),
    ensures
        g.root_radius > g.base_radius ==> theta_min_s(g) >= 1,
        g.root_radius <= g.base_radius ==> theta_min_s(g) == 0,
{
    if g.root_radius > g.base_radius {
        let b = g.base_radius as int;
        let r = g.root_radius as int;
        let bb = b * b;
        let num = ratio_sq_num_s(r, b);
        assert(b * b >= 1 && r * r - b * b >= 1) by (nonlinear_arith)
            requires
                1 <= b,
                b < r,
        ;
        assert(num >= 1_000_000_000_000) by (nonlinear_arith)
            requires
                r * r - b * b >= 1,
                num == (r * r - b * b) * 1_000_000_000_000,
        ;
        let arg = ceil_div_s(num, bb);
        assert(num + bb - 1 >= bb);
        lemma_div_is_ordered(bb, num + bb - 1, bb);
        assert(bb == bb * 1) by (nonlinear_arith);
        lemma_div_multiples_vanish(1, bb);
        assert(arg >= 1);
        lemma_isqrt_props(arg);
        let s = isqrt_s(arg);
        if s == 0 {
            assert(isqrt_ceil_s(arg) == 1);
        } else {
            assert(isqrt_ceil_s(arg) >= 1);
        }
    }
}

/// Compute `t_max` for a well-formed geometry.
pub fn theta_max(g: &ResolvedGearGeometry) -> (r: i64)
    requires
        wf_geometry(*g),
    ensures
        r == theta_max_s(*g),
        0 <= r <= 32_000_000,
{
    let b = g.base_radius as u128;
    let o = g.outer_radius as u128;
    proof {
        lemma_ratio_sq_bounds(g.outer_radius as int, g.base_radius as int);
        lemma_mul_nonneg_le(g.outer_radius as int, g.outer_radius as int, 0x200_0000_0000, 0x200_0000_0000);
        lemma_mul_nonneg_le(g.base_radius as int, g.base_radius as int, 0x200_0000_0000, 0x200_0000_0000);
    }
    let bb = b * b;
    let oo = o * o;
    let num = (oo - bb) * 1_000_000_000_000u128;
    let arg = num / bb;
    proof {
        lemma_theta_small(arg as int);
    }
    let s = isqrt_u128(arg);
    s as i64
}

/// Compute the involute parameter at the pitch circle.
pub fn theta_pitch(g: &ResolvedGearGeometry) -> (r: i64)
    requires
        wf_geometry(*g),
    ensures
        r == theta_pitch_s(*g),
        0 <= r <= 32_000_000,
{
    let b = g.base_radius as u128;
    let p = g.pitch_radius as u128;
    proof {
        lemma_ratio_sq_bounds(g.pitch_radius as int, g.base_radius as int);
        lemma_mul_nonneg_le(g.pitch_radius as int, g.pitch_radius as int, 0x200_0000_0000, 0x200_0000_0000);
        lemma_mul_nonneg_le(g.base_radius as int, g.base_radius as int, 0x200_0000_0000, 0x200_0000_0000);
    }
    let bb = b * b;
    let pp = p * p;
    let num = (pp - bb) * 1_000_000_000_000u128;
    let arg = num / bb;
    proof {
        lemma_theta_small(arg as int);
    }
    let s = isqrt_u128(arg);
    s as i64
}

/// Compute `t_min` for a well-formed geometry: positive above the base
/// circle, zero in the undercut case.
pub fn theta_min(g: &ResolvedGearGeometry) -> (r: i64)
    requires
        wf_geometry(*g),
    ensures
        r == theta_min_s(*g),
        0 <= r <= 32_000_000,
        g.root_radius > g.base_radius ==> r >= 1,
        g.root_radius <= g.base_radius ==> r == 0,
{
    proof {
        lemma_undercut_switch(*g);
    }
    if g.root_radius > g.base_radius {
        let b = g.base_radius as u128;
        let rt = g.root_radius as u128;
        proof {
            lemma_ratio_sq_bounds(g.root_radius as int, g.base_radius as int);
            lemma_mul_nonneg_le(g.root_radius as int, g.root_radius as int, 0x200_0000_0000, 0x200_0000_0000);
            lemma_mul_nonneg_le(g.base_radius as int, g.base_radius as int, 0x200_0000_0000, 0x200_0000_0000);
        }
        let bb = b * b;
        let rr = rt * rt;
        let num = (rr - bb) * 1_000_000_000_000u128;
        let arg = (num + (bb - 1)) / bb;
        proof {
            lemma_theta_small(arg as int);
        }
        let s = isqrt_u128(arg);
        let s2 = (s as u128) * (s as u128);
        if s2 < arg {
            (s + 1) as i64
        } else {
            s as i64
        }
    } else {
        0
    }
}

/// One point of the involute of the base circle.
pub fn involute_point(base: i64, theta: i64) -> (p: Point2D)
    requires
        1 <= base <= 0x200_0000_0000,
        0 <= theta <= 32_000_000,
    ensures
        p@ == involute_s(base as int, theta as int),
        in_bounds(p@, 35 * base),
{
    let c = cos_fx(theta);
    let s = sin_fx(theta);
    proof {
        lemma_fx_mul_abs(theta as int, s as int, 32_000_000, FX_ONE as int);
        lemma_fx_mul_abs(theta as int, c as int, 32_000_000, FX_ONE as int);
        assert((32_000_000 * (FX_ONE as int)) / (FX_ONE as int) == 32_000_000) by {
            lemma_div_multiples_vanish(32_000_000, FX_ONE as int);
            assert(32_000_000 * (FX_ONE as int) == (FX_ONE as int) * 32_000_000)
                by (nonlinear_arith);
        }
    }
    let ts = fx_mul(theta, s);
    let tc = fx_mul(theta, c);
    let xf = c + ts;
    let yf = s - tc;
    proof {
        lemma_fx_mul_abs(base as int, xf as int, 0x200_0000_0000, 34_000_001);
        lemma_fx_mul_abs(base as int, yf as int, 0x200_0000_0000, 34_000_001);
        lemma_involute_coord_bound(base as int, xf as int);
        lemma_involute_coord_bound(base as int, yf as int);
    }
    let x = fx_mul(base, xf);
    let y = fx_mul(base, yf);
    Point2D { x, y }
}

/// A flank factor of magnitude at most `34*FX_ONE + 1` keeps the scaled
/// coordinate within `35` base radii.
proof fn lemma_involute_coord_bound(base: int, f: int)
    requires
        1 <= base,
        -34_000_001 <= f <= 34_000_001,
    ensures
        -(35 * base) <= fx_mul_s(base, f) <= 35 * base,
{
    assert(base * f <= base * 34_000_001 && base * f >= -(base * 34_000_001))
        by (nonlinear_arith)
        requires
            1 <= base,
            -34_000_001 <= f <= 34_000_001,
    ;
    lemma_div_is_ordered(base * f, base * 34_000_001, FX_ONE as int);
    lemma_div_is_ordered(-(base * 34_000_001), base * f, FX_ONE as int);
    assert(base * 34_000_001 + (FX_ONE as int) - 1 <= base * 35_000_000) by (nonlinear_arith)
        requires
            1 <= base,
    ;
    lemma_div_is_ordered(base * 34_000_001, base * 35_000_000, FX_ONE as int);
    assert(base * 35_000_000 == (FX_ONE as int) * (35 * base)) by (nonlinear_arith);
    lemma_div_multiples_vanish(35 * base, FX_ONE as int);
    crate::fixed::lemma_neg_div_floor(base * 34_000_001, FX_ONE as int);
    assert((base * 34_000_001) / (FX_ONE as int) + 1 <= 35 * base) by {
        assert(base * 34_000_001 <= (FX_ONE as int) * (35 * base) - 1) by (nonlinear_arith)
            requires
                1 <= base,
        ;
        lemma_div_is_ordered(base * 34_000_001, (FX_ONE as int) * (35 * base) - 1, FX_ONE as int);
        assert(((FX_ONE as int) * (35 * base) - 1) / (FX_ONE as int) <= 35 * base - 1) by {
            assert((FX_ONE as int) * (35 * base) - 1 == (FX_ONE as int) * (35 * base - 1)
                + ((FX_ONE as int) - 1)) by (nonlinear_arith);
            vstd::arithmetic::div_mod::lemma_fundamental_div_mod_converse(
                (FX_ONE as int) * (35 * base) - 1,
                FX_ONE as int,
                35 * base - 1,
                (FX_ONE as int) - 1,
            );
        }
    }
}

/// Sample one positive flank: `steps` involute points from `t_min` to
/// `t_max`, linearly spaced, innermost first.
pub fn sample_flank(g: &ResolvedGearGeometry, steps: usize) -> (v: Vec<Point2D>)
    requires
        wf_geometry(*g),
        1 <= steps <= 10_000,
    ensures
        v@.len() == steps,
        forall|i: int|
            0 <= i < steps ==> (#[trigger] v@[i])@ == involute_s(
                g.base_radius as int,
                theta_sample_s(*g, steps as int, i),
            ),
        forall|i: int|
            0 <= i < steps ==> in_bounds((#[trigger] v@[i])@, 35 * (g.base_radius as int)),
{
    let t_min = theta_min(g);
    let t_max = theta_max(g);
    let span = if t_max >= t_min {
        t_max - t_min
    } else {
        0
    };
    assert(span == theta_span_s(*g));
    let mut v: Vec<Point2D> = Vec::new();
    let mut i: usize = 0;
    while i < steps
        invariant
            wf_geometry(*g),
            1 <= steps <= 10_000,
            0 <= i <= steps,
            t_min == theta_min_s(*g),
            0 <= t_min <= 32_000_000,
            span == theta_span_s(*g),
            0 <= span <= 32_000_000,
            t_min + span <= 32_000_000,
            v@.len() == i,
            forall|j: int|
                0 <= j < i ==> (#[trigger] v@[j])@ == involute_s(
                    g.base_radius as int,
                    theta_sample_s(*g, steps as int, j),
                ),
            forall|j: int|
                0 <= j < i ==> in_bounds((#[trigger] v@[j])@, 35 * (g.base_radius as int)),
        decreases steps - i,
    {
        proof {
            lemma_mul_nonneg_le(i as int, span as int, 10_000, 32_000_000);
            lemma_div_pos_is_pos((i as int) * (span as int), steps as int);
            assert((i as int) * (span as int) <= (steps as int) * (span as int))
                by (nonlinear_arith)
                requires
                    0 <= i <= steps,
                    0 <= span,
            ;
            lemma_div_is_ordered(
                (i as int) * (span as int),
                (steps as int) * (span as int),
                steps as int,
            );
            lemma_div_multiples_vanish(span as int, steps as int);
        }
        let offset = ((i as i64) * span) / (steps as i64);
        let t = t_min + offset;
        let p = involute_point(g.base_radius, t);
        v.push(p);
        i += 1;
    }
    v
}

} // verus!

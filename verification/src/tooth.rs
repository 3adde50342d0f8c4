//! The tooth assembler.
//!
//! One closed tooth outline combines a positive-parameter flank, its
//! mirrored opposite, and root-circle connector points, rotated so the
//! tooth sits symmetrically about its pitch point with a small extra
//! rotation opening the backlash gap.
//!
//! The angular correction is
//! `pitch_correction = acos(involute(t_pitch).x / pitch_radius)
//!                     - asin((backlash/2) / pitch_radius)`:
//! the arccosine term aligns the involute's pitch point to angle zero, the
//! arcsine term gives half the backlash its angular width.  At the pitch
//! circle the two flanks then sit at the arcsine angle and at
//! `tooth_angular_pitch/2` minus that angle, so the angular tooth
//! thickness there is `tooth_angular_pitch/2 - 2 * asin-term` — which is
//! how the backlash multiplier thins a tooth.

use vstd::prelude::*;
use vstd::arithmetic::div_mod::{lemma_div_is_ordered, lemma_div_pos_is_pos};
use crate::curve::{involute_s, sample_flank, theta_pitch, theta_pitch_s, theta_sample_s};
use crate::fixed::{FX_ONE, fx_div, fx_div_s};
use crate::geometry::{GearError, GearSpec, ResolvedGearGeometry, wf_geometry};
use crate::point::{Point2D, in_bounds, mirror_s, rot_s, rotate_point};
use crate::trig::{acos_fx, acos_fx_s, asin_fx, asin_fx_s, lemma_asin_monotone};

verus! {

/// Every point of an assembled tooth stays within this coordinate bound.
pub const TOOTH_BOUND: i64 = 0x1_0000_0000_0000;

/// The x coordinate of the involute at the pitch circle, as a fraction of
/// the pitch radius: the arccosine argument of the pitch alignment.
pub open spec fn pitch_ratio_s(g: ResolvedGearGeometry) -> int {
    fx_div_s(involute_s(g.base_radius as int, theta_pitch_s(g)).0, g.pitch_radius as int)
}

/// Half the backlash allowance as a fraction of the pitch radius: the
/// arcsine argument of the backlash rotation.
pub open spec fn backlash_ratio_s(g: ResolvedGearGeometry) -> int {
    fx_div_s((g.backlash_allowance as int) / 2, g.pitch_radius as int)
}

/// Exactly the geometries the assembler accepts: both inverse-trig
/// arguments inside `[-1, 1]`.
pub open spec fn assemble_ok_s(g: ResolvedGearGeometry) -> bool {
    &&& -(FX_ONE as int) <= pitch_ratio_s(g) <= FX_ONE as int
    &&& backlash_ratio_s(g) <= FX_ONE as int
}

/// The angular correction centering a tooth on its pitch point, net of
/// backlash.
pub open spec fn pitch_correction_s(g: ResolvedGearGeometry) -> int {
    acos_fx_s(pitch_ratio_s(g)) - asin_fx_s(backlash_ratio_s(g))
}

/// Angular thickness of one tooth at the pitch circle.
pub open spec fn tooth_thickness_s(g: ResolvedGearGeometry) -> int {
    (g.tooth_angular_pitch as int) / 2 - 2 * asin_fx_s(backlash_ratio_s(g))
}

/// The `k`-th point of the closed tooth outline (`2 * steps + 2` points):
/// a root point, the rising flank, the mirrored falling flank, and two
/// root points closing toward the next tooth.
pub open spec fn tooth_point_s(g: ResolvedGearGeometry, steps: int, k: int) -> (int, int) {
    let pc = pitch_correction_s(g);
    let ta = g.tooth_angular_pitch as int;
    let root = (g.root_radius as int, 0int);
    if k == 0 {
        rot_s(root, -pc)
    } else if k < steps {
        rot_s(involute_s(g.base_radius as int, theta_sample_s(g, steps, k)), -pc)
    } else if k < 2 * steps {
        rot_s(
            mirror_s(involute_s(g.base_radius as int, theta_sample_s(g, steps, 2 * steps - 1 - k))),
            ta / 2 + pc,
        )
    } else if k == 2 * steps {
        rot_s(root, ta / 2 + pc)
    } else {
        rot_s(root, ta - pc)
    }
}

/// Assemble one tooth outline, centered at angular position zero.
///
/// Fails with [`GearError::GeometryDomainError`] exactly when an
/// inverse-trigonometric argument falls outside `[-1, 1]` (a backlash
/// allowance larger than the pitch diameter, or a pitch-point ratio pushed
/// out of range).  On success the outline has `2 * steps + 2` points in
/// the documented order and no partial outline is ever produced.
pub fn assemble_tooth(g: &ResolvedGearGeometry, steps: usize) -> (r: Result<
    Vec<Point2D>,
    GearError,
>)
    requires
        wf_geometry(*g),
        1 <= steps <= 10_000,
    ensures
        r is Ok <==> assemble_ok_s(*g),
        match r {
            Ok(v) => {
                &&& v@.len() == 2 * steps + 2
                &&& forall|k: int|
                    0 <= k < v@.len() ==> (#[trigger] v@[k])@ == tooth_point_s(
                        *g,
                        steps as int,
                        k,
                    )
                &&& forall|k: int|
                    0 <= k < v@.len() ==> in_bounds((#[trigger] v@[k])@, TOOTH_BOUND as int)
            },
            Err(e) => e == GearError::GeometryDomainError,
        },
{
    let flank = sample_flank(g, steps);
    let tp = theta_pitch(g);
    let pp = crate::curve::involute_point(g.base_radius, tp);
    proof {
        assert((pp.x as int) * (FX_ONE as int) <= 0x7fff_ffff_ffff * (g.pitch_radius as int)
            && (pp.x as int) * (FX_ONE as int) >= -0x7fff_ffff_ffff * (g.pitch_radius as int))
            by (nonlinear_arith)
            requires
                -(35 * (g.base_radius as int)) <= pp.x as int <= 35 * (g.base_radius as int),
                1 <= g.base_radius as int <= g.pitch_radius as int,
        ;
    }
    let ratio_x = fx_div(pp.x, g.pitch_radius);
    if ratio_x > FX_ONE || ratio_x < -FX_ONE {
        return Err(GearError::GeometryDomainError);
    }
    proof {
        lemma_backlash_fxdiv_pre(*g);
    }
    let half_backlash = g.backlash_allowance / 2;
    let ratio_b = fx_div(half_backlash, g.pitch_radius);
    proof {
        assert((half_backlash as int) * (FX_ONE as int) >= 0) by (nonlinear_arith)
            requires
                0 <= half_backlash as int,
        ;
        lemma_div_pos_is_pos((half_backlash as int) * (FX_ONE as int), g.pitch_radius as int);
    }
    if ratio_b > FX_ONE {
        return Err(GearError::GeometryDomainError);
    }
    let pc = acos_fx(ratio_x) - asin_fx(ratio_b);
    let ta = g.tooth_angular_pitch;
    let half_ta = ta / 2;
    let root_point = Point2D { x: g.root_radius, y: 0 };

    proof {
        lemma_outline_bounds(*g);
    }

    let mut v: Vec<Point2D> = Vec::new();
    let first = rotate_point(root_point, -pc);
    proof {
        crate::point::lemma_rot_bounds(root_point@, -(pc as int), g.root_radius as int);
    }
    v.push(first);

    let mut i: usize = 1;
    while i < steps
        invariant
            wf_geometry(*g),
            1 <= steps <= 10_000,
            1 <= i <= steps,
            v@.len() == i,
            assemble_ok_s(*g),
            pc == pitch_correction_s(*g),
            -4_000_000 <= pc <= 4_000_000,
            flank@.len() == steps,
            forall|j: int|
                0 <= j < steps ==> (#[trigger] flank@[j])@ == involute_s(
                    g.base_radius as int,
                    theta_sample_s(*g, steps as int, j),
                ),
            forall|j: int|
                0 <= j < steps ==> in_bounds((#[trigger] flank@[j])@, 35 * (g.base_radius as int)),
            forall|k: int|
                0 <= k < i ==> (#[trigger] v@[k])@ == tooth_point_s(*g, steps as int, k),
            forall|k: int|
                0 <= k < i ==> in_bounds((#[trigger] v@[k])@, TOOTH_BOUND as int),
        decreases steps - i,
    {
        let p = flank[i];
        let q = rotate_point(p, -pc);
        proof {
            crate::point::lemma_rot_bounds(p@, -(pc as int), 35 * (g.base_radius as int));
        }
        v.push(q);
        i += 1;
    }

    let mut j: usize = 0;
    while j < steps
        invariant
            wf_geometry(*g),
            1 <= steps <= 10_000,
            0 <= j <= steps,
            v@.len() == steps + j,
            assemble_ok_s(*g),
            pc == pitch_correction_s(*g),
            -4_000_000 <= pc <= 4_000_000,
            half_ta == (g.tooth_angular_pitch as int) / 2,
            flank@.len() == steps,
            forall|j2: int|
                0 <= j2 < steps ==> (#[trigger] flank@[j2])@ == involute_s(
                    g.base_radius as int,
                    theta_sample_s(*g, steps as int, j2),
                ),
            forall|j2: int|
                0 <= j2 < steps ==> in_bounds(
                    (#[trigger] flank@[j2])@,
                    35 * (g.base_radius as int),
                ),
            forall|k: int|
                0 <= k < steps + j ==> (#[trigger] v@[k])@ == tooth_point_s(*g, steps as int, k),
            forall|k: int|
                0 <= k < steps + j ==> in_bounds((#[trigger] v@[k])@, TOOTH_BOUND as int),
        decreases steps - j,
    {
        let p = flank[steps - 1 - j].mirror();
        let q = rotate_point(p, half_ta + pc);
        proof {
            crate::point::lemma_rot_bounds(p@, half_ta as int + pc as int, 35 * (
            g.base_radius as int));
            assert(2 * (steps as int) - 1 - ((steps as int) + j as int) == (steps as int) - 1
                - j as int);
        }
        v.push(q);
        j += 1;
    }

    let closing = rotate_point(root_point, half_ta + pc);
    proof {
        crate::point::lemma_rot_bounds(root_point@, half_ta as int + pc as int, g.root_radius as int);
    }
    v.push(closing);
    let next_root = rotate_point(root_point, ta - pc);
    proof {
        crate::point::lemma_rot_bounds(root_point@, ta as int - pc as int, g.root_radius as int);
    }
    v.push(next_root);

    Ok(v)
}

/// Half the backlash allowance is nonnegative and small enough next to the
/// pitch radius for the fixed-point division to stay in range.
proof fn lemma_backlash_fxdiv_pre(g: ResolvedGearGeometry)
    requires
        wf_geometry(g),
    ensures
        0 <= (g.backlash_allowance as int) / 2,
        ((g.backlash_allowance as int) / 2) * (FX_ONE as int) <= 0x7fff_ffff_ffff * (
        g.pitch_radius as int),
        ((g.backlash_allowance as int) / 2) * (FX_ONE as int) >= -0x7fff_ffff_ffff * (
        g.pitch_radius as int),
{
    let hb = (g.backlash_allowance as int) / 2;
    lemma_div_pos_is_pos(g.backlash_allowance as int, 2);
    vstd::arithmetic::div_mod::lemma_fundamental_div_mod(g.backlash_allowance as int, 2);
    vstd::arithmetic::div_mod::lemma_mod_bound(g.backlash_allowance as int, 2);
    assert(2 * hb <= 11 * (g.module as int));
    assert(hb * (FX_ONE as int) <= 0x7fff_ffff_ffff * (g.pitch_radius as int) && hb * (
    FX_ONE as int) >= -0x7fff_ffff_ffff * (g.pitch_radius as int)) by (nonlinear_arith)
        requires
            0 <= hb,
            2 * hb <= 11 * (g.module as int),
            g.module as int <= 2 * (g.pitch_radius as int) + 1,
            1 <= g.module as int,
            1 <= g.pitch_radius as int,
    ;
}

/// The coordinate bounds that every outline point satisfies: a flank point
/// within `35` base radii doubles under rotation, and the root points stay
/// within twice the root radius, all below [`TOOTH_BOUND`].
proof fn lemma_outline_bounds(g: ResolvedGearGeometry)
    requires
        wf_geometry(g),
    ensures
        2 * (35 * (g.base_radius as int)) + 2 <= TOOTH_BOUND as int,
        2 * (g.root_radius as int) + 2 <= TOOTH_BOUND as int,
        35 * (g.base_radius as int) <= crate::point::POINT_BOUND as int,
        g.root_radius as int <= crate::point::POINT_BOUND as int,
{
}

/// Angular tooth thickness at the pitch circle, when the backlash ratio is
/// in the arcsine's domain.
pub fn tooth_thickness_at_pitch(g: &ResolvedGearGeometry) -> (r: Result<i64, GearError>)
    requires
        wf_geometry(*g),
    ensures
        r is Ok <==> backlash_ratio_s(*g) <= FX_ONE as int,
        match r {
            Ok(t) => t == tooth_thickness_s(*g),
            Err(e) => e == GearError::GeometryDomainError,
        },
{
    proof {
        lemma_backlash_fxdiv_pre(*g);
    }
    let half_backlash = g.backlash_allowance / 2;
    let ratio_b = fx_div(half_backlash, g.pitch_radius);
    proof {
        assert((half_backlash as int) * (FX_ONE as int) >= 0) by (nonlinear_arith)
            requires
                0 <= half_backlash as int,
        ;
        lemma_div_pos_is_pos((half_backlash as int) * (FX_ONE as int), g.pitch_radius as int);
    }
    if ratio_b > FX_ONE {
        return Err(GearError::GeometryDomainError);
    }
    Ok(g.tooth_angular_pitch / 2 - 2 * asin_fx(ratio_b))
}

/// A larger backlash multiplier yields a larger backlash allowance for
/// the same module, which is how the multiplier reaches the thickness
/// lemmas below through the resolver's `backlash_allowance` formula.
pub proof fn lemma_backlash_allowance_monotone(bm1: int, bm2: int, module: int)
    requires
        0 <= bm1 <= bm2,
        0 <= module,
    ensures
        crate::fixed::fx_mul_s(bm1, module) <= crate::fixed::fx_mul_s(bm2, module),
{
    assert(bm1 * module <= bm2 * module) by (nonlinear_arith)
        requires
            0 <= bm1 <= bm2,
            0 <= module,
    ;
    lemma_div_is_ordered(bm1 * module, bm2 * module, FX_ONE as int);
}

/// Backlash correction is monotone: a larger backlash allowance never
/// thickens a tooth at the pitch circle, other parameters held fixed.
pub proof fn lemma_backlash_monotone(g1: ResolvedGearGeometry, g2: ResolvedGearGeometry)
    requires
        wf_geometry(g1),
        wf_geometry(g2),
        g1.pitch_radius == g2.pitch_radius,
        g1.tooth_angular_pitch == g2.tooth_angular_pitch,
        g1.backlash_allowance <= g2.backlash_allowance,
        backlash_ratio_s(g2) <= FX_ONE as int,
    ensures
        backlash_ratio_s(g1) <= backlash_ratio_s(g2),
        tooth_thickness_s(g1) >= tooth_thickness_s(g2),
{
    lemma_div_is_ordered(g1.backlash_allowance as int, g2.backlash_allowance as int, 2);
    let h1 = (g1.backlash_allowance as int) / 2;
    let h2 = (g2.backlash_allowance as int) / 2;
    assert(h1 * (FX_ONE as int) <= h2 * (FX_ONE as int)) by (nonlinear_arith)
        requires
            h1 <= h2,
    ;
    lemma_div_is_ordered(h1 * (FX_ONE as int), h2 * (FX_ONE as int), g1.pitch_radius as int);
    lemma_div_pos_is_pos(g1.backlash_allowance as int, 2);
    assert(h1 * (FX_ONE as int) >= 0) by (nonlinear_arith)
        requires
            h1 >= 0,
    ;
    lemma_div_pos_is_pos(h1 * (FX_ONE as int), g1.pitch_radius as int);
    lemma_asin_monotone(backlash_ratio_s(g1), backlash_ratio_s(g2));
}

/// Backlash correction at the level of the input spec: of two specs
/// identical except for the backlash multiplier, the one with the larger
/// multiplier never has the thicker tooth at the pitch circle.  (The
/// decrease is strict whenever the larger multiplier moves the fixed-point
/// backlash ratio at all; see the strict lemma below.)
pub proof fn lemma_backlash_multiplier_monotone(sp1: GearSpec, sp2: GearSpec, scale: int)
    requires
        sp2.teeth == sp1.teeth,
        sp2.pitch_density == sp1.pitch_density,
        sp2.pressure_angle_degrees == sp1.pressure_angle_degrees,
        sp2.clearance_multiplier == sp1.clearance_multiplier,
        sp1.backlash_multiplier <= sp2.backlash_multiplier,
        sp1.teeth <= crate::geometry::TEETH_MAX,
        0 <= sp1.pressure_angle_degrees <= 90_000_000,
        0 <= sp1.clearance_multiplier <= 10_000_000,
        0 <= sp1.backlash_multiplier,
        sp2.backlash_multiplier <= 10_000_000,
        crate::geometry::resolve_ok_s(sp1, scale),
        backlash_ratio_s(crate::geometry::resolved_geometry_s(sp2, scale)) <= FX_ONE as int,
    ensures
        crate::geometry::resolve_ok_s(sp2, scale),
        tooth_thickness_s(crate::geometry::resolved_geometry_s(sp1, scale)) >= tooth_thickness_s(
            crate::geometry::resolved_geometry_s(sp2, scale),
        ),
{
    // acceptance does not read the backlash multiplier
    assert(crate::geometry::resolve_ok_s(sp2, scale));
    crate::geometry::lemma_resolve_ok_wf(sp1, scale);
    crate::geometry::lemma_resolve_ok_wf(sp2, scale);
    let g1 = crate::geometry::resolved_geometry_s(sp1, scale);
    let g2 = crate::geometry::resolved_geometry_s(sp2, scale);
    let m = crate::geometry::module_s(sp1, scale);
    lemma_backlash_allowance_monotone(
        sp1.backlash_multiplier as int,
        sp2.backlash_multiplier as int,
        m,
    );
    // both allowances fit i64, so the ordering survives the struct fields
    crate::fixed::lemma_fx_mul_mono(sp1.backlash_multiplier as int, m, 10_000_000, 0x8000_0000);
    crate::fixed::lemma_fx_mul_mono(sp2.backlash_multiplier as int, m, 10_000_000, 0x8000_0000);
    lemma_backlash_monotone(g1, g2);
}

/// Backlash correction is strictly monotone: whenever a larger allowance
/// moves the backlash ratio at all, the tooth gets strictly thinner at the
/// pitch circle.
pub proof fn lemma_backlash_strictly_monotone(g1: ResolvedGearGeometry, g2: ResolvedGearGeometry)
    requires
        wf_geometry(g1),
        wf_geometry(g2),
        g1.tooth_angular_pitch == g2.tooth_angular_pitch,
        0 <= backlash_ratio_s(g1),
        backlash_ratio_s(g1) < backlash_ratio_s(g2),
        backlash_ratio_s(g2) <= FX_ONE as int,
    ensures
        tooth_thickness_s(g1) > tooth_thickness_s(g2),
{
    lemma_asin_monotone(backlash_ratio_s(g1), backlash_ratio_s(g2));
}

} // verus!

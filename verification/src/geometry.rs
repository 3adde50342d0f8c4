//! Gear parameters and the derived geometry.
//!
//! The resolver turns a [`GearSpec`] plus a caller-supplied linear scale
//! (units per unit module) into the derived radii and angles of standard
//! involute gearing.  Every derived quantity is an exact integer formula
//! over the fixed-point inputs, and the resolver's contract states
//! precisely which inputs it rejects as [`GearError::InvalidSpec`].

use vstd::prelude::*;
use vstd::arithmetic::div_mod::{
    lemma_div_is_ordered, lemma_div_is_ordered_by_denominator, lemma_div_multiples_vanish,
    lemma_div_pos_is_pos, lemma_fundamental_div_mod, lemma_fundamental_div_mod_converse,
    lemma_mod_bound,
};
use crate::fixed::{FX_ONE, div_floor_i128, fx_mul, fx_mul_s};
use crate::trig::{PI_FX, TWO_PI_FX, cos_fx, cos_fx_s};

verus! {

/// Largest accepted tooth count; the generator is specified for gears of a
/// few hundred teeth.
pub const TEETH_MAX: u32 = 1024;

/// Largest accepted module (one tooth-pitch unit) in fixed-point units.
pub const MODULE_MAX: i64 = 0x8000_0000;

/// Why a gear computation was rejected.
#[derive(Clone, Copy, PartialEq, Eq, Structural, Debug)]
pub enum GearError {
    /// Non-positive teeth or pitch density, or a degenerate resolved radius.
    InvalidSpec,
    /// An inverse-trigonometric argument fell outside `[-1, 1]`.
    GeometryDomainError,
}

/// The input parameters of one gear, immutable per computation.
///
/// `pitch_density` is the diametric pitch: teeth per unit of pitch
/// diameter.  All fixed-point fields carry [`FX_ONE`] units.
#[derive(Clone, Copy, PartialEq, Eq, Structural, Debug)]
pub struct GearSpec {
    /// Count of teeth.
    pub teeth: u32,
    /// Teeth per unit pitch diameter (diametric pitch convention).
    pub pitch_density: i64,
    /// Involute pressure angle, in degrees.
    pub pressure_angle_degrees: i64,
    /// Fraction of the module added as dedendum clearance.
    pub clearance_multiplier: i64,
    /// Fraction of the module reserved as circumferential backlash.
    pub backlash_multiplier: i64,
}

/// The derived geometry of one gear, computed once per draw.
#[derive(Clone, Copy, PartialEq, Eq, Structural, Debug)]
pub struct ResolvedGearGeometry {
    /// Count of teeth, copied from the spec.
    pub teeth: u32,
    /// Linear size of one tooth-pitch unit: `scale / pitch_density`.
    pub module: i64,
    /// Half the pitch diameter `teeth * module`.
    pub pitch_radius: i64,
    /// Half the base diameter `pitch_diameter * cos(pressure_angle)`.
    pub base_radius: i64,
    /// Half the root diameter `pitch_diameter - 2 * dedendum`.
    pub root_radius: i64,
    /// Half the outer diameter `pitch_diameter + 2 * addendum`.
    pub outer_radius: i64,
    /// Angle between corresponding points on adjacent teeth: `2*pi / teeth`.
    pub tooth_angular_pitch: i64,
    /// Circumferential backlash allowance `backlash_multiplier * module`.
    pub backlash_allowance: i64,
}

/// `scale / pitch_density` in fixed point.
pub open spec fn module_s(sp: GearSpec, scale: int) -> int {
    (scale * FX_ONE) / (sp.pitch_density as int)
}

/// The pressure angle converted from degrees to fixed-point radians.
pub open spec fn pressure_angle_rad_s(sp: GearSpec) -> int {
    fx_mul_s(sp.pressure_angle_degrees as int, PI_FX as int) / 180
}

/// `teeth * module`.
pub open spec fn pitch_diameter_s(sp: GearSpec, scale: int) -> int {
    (sp.teeth as int) * module_s(sp, scale)
}

/// `pitch_diameter * cos(pressure_angle)`.
pub open spec fn base_diameter_s(sp: GearSpec, scale: int) -> int {
    fx_mul_s(pitch_diameter_s(sp, scale), cos_fx_s(pressure_angle_rad_s(sp)))
}

/// `clearance_multiplier * module`.
pub open spec fn clearance_s(sp: GearSpec, scale: int) -> int {
    fx_mul_s(sp.clearance_multiplier as int, module_s(sp, scale))
}

/// `clearance + module`: radial depth below the pitch circle.
pub open spec fn dedendum_s(sp: GearSpec, scale: int) -> int {
    clearance_s(sp, scale) + module_s(sp, scale)
}

/// `backlash_multiplier * module`.
pub open spec fn backlash_allowance_s(sp: GearSpec, scale: int) -> int {
    fx_mul_s(sp.backlash_multiplier as int, module_s(sp, scale))
}

/// `pitch_diameter - 2 * dedendum`.
pub open spec fn root_diameter_s(sp: GearSpec, scale: int) -> int {
    pitch_diameter_s(sp, scale) - 2 * dedendum_s(sp, scale)
}

/// `pitch_diameter + 2 * addendum`, the addendum being one module.
pub open spec fn outer_diameter_s(sp: GearSpec, scale: int) -> int {
    pitch_diameter_s(sp, scale) + 2 * module_s(sp, scale)
}

/// Half the pitch diameter.
pub open spec fn pitch_radius_s(sp: GearSpec, scale: int) -> int {
    pitch_diameter_s(sp, scale) / 2
}

/// Half the base diameter.
pub open spec fn base_radius_s(sp: GearSpec, scale: int) -> int {
    base_diameter_s(sp, scale) / 2
}

/// Half the root diameter.
pub open spec fn root_radius_s(sp: GearSpec, scale: int) -> int {
    root_diameter_s(sp, scale) / 2
}

/// Half the outer diameter.
pub open spec fn outer_radius_s(sp: GearSpec, scale: int) -> int {
    outer_diameter_s(sp, scale) / 2
}

/// `2*pi / teeth` in fixed-point radians.
pub open spec fn tooth_angular_pitch_s(sp: GearSpec) -> int {
    (TWO_PI_FX as int) / (sp.teeth as int)
}

/// Exactly the specs the resolver accepts: positive teeth and pitch
/// density, a representable positive module, positive root and base radii,
/// and a base circle not vanishingly small next to the outer circle.
pub open spec fn resolve_ok_s(sp: GearSpec, scale: int) -> bool {
    &&& sp.teeth >= 1
    &&& sp.pitch_density >= 1
    &&& 1 <= module_s(sp, scale) <= MODULE_MAX as int
    &&& root_diameter_s(sp, scale) >= 2
    &&& base_diameter_s(sp, scale) >= 2
    &&& outer_radius_s(sp, scale) <= 32 * base_radius_s(sp, scale)
}

/// The bounds and orderings that every resolved geometry satisfies; all
/// later components require them.
pub open spec fn wf_geometry(g: ResolvedGearGeometry) -> bool {
    &&& 1 <= g.teeth <= TEETH_MAX
    &&& 1 <= g.module <= MODULE_MAX
    &&& g.module <= 2 * g.pitch_radius + 1
    &&& 1 <= g.base_radius <= g.pitch_radius
    &&& 1 <= g.root_radius < g.pitch_radius < g.outer_radius
    &&& g.outer_radius <= 32 * g.base_radius
    &&& g.pitch_radius <= 0x100_0000_0000
    &&& g.outer_radius <= 0x200_0000_0000
    &&& 0 <= g.backlash_allowance <= 11 * g.module
    &&& 1 <= g.tooth_angular_pitch <= TWO_PI_FX
    &&& g.tooth_angular_pitch == (TWO_PI_FX as int) / (g.teeth as int)
}

/// The geometry the resolver returns on success, assembled from the spec
/// formulas (each value fits `i64` whenever [`resolve_ok_s`] holds).
pub open spec fn resolved_geometry_s(sp: GearSpec, scale: int) -> ResolvedGearGeometry {
    ResolvedGearGeometry {
        teeth: sp.teeth,
        module: module_s(sp, scale) as i64,
        pitch_radius: pitch_radius_s(sp, scale) as i64,
        base_radius: base_radius_s(sp, scale) as i64,
        root_radius: root_radius_s(sp, scale) as i64,
        outer_radius: outer_radius_s(sp, scale) as i64,
        tooth_angular_pitch: tooth_angular_pitch_s(sp) as i64,
        backlash_allowance: backlash_allowance_s(sp, scale) as i64,
    }
}

/// Resolve a gear specification into its derived geometry.
///
/// `scale` is the caller's linear scale factor (display units per unit
/// module); the generator never hardcodes a display unit.  Fails with
/// [`GearError::InvalidSpec`] exactly when the spec is degenerate:
/// non-positive teeth or pitch density, a module that is zero or too large
/// to represent, a non-positive root or base radius, or a base circle
/// smaller than a thirty-second of the outer radius.
pub fn resolve(sp: &GearSpec, scale: i64) -> (r: Result<ResolvedGearGeometry, GearError>)
    requires
        sp.teeth <= TEETH_MAX,
        0 <= sp.pressure_angle_degrees <= 90_000_000,
        0 <= sp.clearance_multiplier <= 10_000_000,
        0 <= sp.backlash_multiplier <= 10_000_000,
    ensures
        r is Ok <==> resolve_ok_s(*sp, scale as int),
        match r {
            Ok(g) => {
                &&& g.teeth == sp.teeth
                &&& g.module == module_s(*sp, scale as int)
                &&& g.pitch_radius == pitch_radius_s(*sp, scale as int)
                &&& g.base_radius == base_radius_s(*sp, scale as int)
                &&& g.root_radius == root_radius_s(*sp, scale as int)
                &&& g.outer_radius == outer_radius_s(*sp, scale as int)
                &&& g.tooth_angular_pitch == tooth_angular_pitch_s(*sp)
                &&& g.backlash_allowance == backlash_allowance_s(*sp, scale as int)
                &&& g == resolved_geometry_s(*sp, scale as int)
                &&& wf_geometry(g)
            },
            Err(e) => e == GearError::InvalidSpec,
        },
{
    if sp.teeth == 0 {
        return Err(GearError::InvalidSpec);
    }
    if sp.pitch_density < 1 {
        return Err(GearError::InvalidSpec);
    }
    proof {
        assert(-170141183460469231731687303715884105728 < (scale as int) * 1_000_000
            < 170141183460469231731687303715884105727);
    }
    let m128 = div_floor_i128((scale as i128) * 1_000_000i128, sp.pitch_density as i128);
    if m128 < 1 || m128 > MODULE_MAX as i128 {
        return Err(GearError::InvalidSpec);
    }
    let module = m128 as i64;

    let pa_rad = fx_mul(sp.pressure_angle_degrees, PI_FX) / 180;
    proof {
        crate::fixed::lemma_fx_mul_mono(
            sp.pressure_angle_degrees as int,
            PI_FX as int,
            90_000_000,
            PI_FX as int,
        );
        lemma_div_pos_is_pos(fx_mul_s(sp.pressure_angle_degrees as int, PI_FX as int), 180);
    }
    let cos_pa = cos_fx(pa_rad);

    proof {
        assert((sp.teeth as int) * (module as int) <= 1024 * 0x8000_0000) by (nonlinear_arith)
            requires
                1 <= sp.teeth <= 1024,
                1 <= module <= 0x8000_0000,
        ;
        assert((sp.teeth as int) * (module as int) >= 1) by (nonlinear_arith)
            requires
                1 <= sp.teeth,
                1 <= module,
        ;
    }
    let pitch_d = (sp.teeth as i64) * module;
    proof {
        crate::fixed::lemma_fx_mul_abs(
            pitch_d as int,
            cos_pa as int,
            0x200_0000_0000,
            FX_ONE as int,
        );
        assert((0x200_0000_0000 * (FX_ONE as int)) / (FX_ONE as int) == 0x200_0000_0000) by {
            lemma_div_multiples_vanish(0x200_0000_0000, FX_ONE as int);
            assert(0x200_0000_0000 * (FX_ONE as int) == (FX_ONE as int) * 0x200_0000_0000)
                by (nonlinear_arith);
        }
    }
    let base_d = fx_mul(pitch_d, cos_pa);
    proof {
        crate::fixed::lemma_fx_mul_mono(
            sp.clearance_multiplier as int,
            module as int,
            10_000_000,
            MODULE_MAX as int,
        );
        lemma_ten_times_module(sp.clearance_multiplier as int, module as int);
        crate::fixed::lemma_fx_mul_mono(
            sp.backlash_multiplier as int,
            module as int,
            10_000_000,
            MODULE_MAX as int,
        );
        lemma_ten_times_module(sp.backlash_multiplier as int, module as int);
    }
    let clearance = fx_mul(sp.clearance_multiplier, module);
    let backlash_allowance = fx_mul(sp.backlash_multiplier, module);
    let dedendum = clearance + module;
    let root_d = pitch_d - 2 * dedendum;
    let outer_d = pitch_d + 2 * module;

    if root_d < 2 {
        return Err(GearError::InvalidSpec);
    }
    if base_d < 2 {
        return Err(GearError::InvalidSpec);
    }

    let pitch_radius = pitch_d / 2;
    let base_radius = base_d / 2;
    let root_radius = root_d / 2;
    let outer_radius = outer_d / 2;
    proof {
        lemma_div_pos_is_pos(pitch_d as int, 2);
        lemma_div_pos_is_pos(base_d as int, 2);
        lemma_div_pos_is_pos(root_d as int, 2);
        lemma_div_pos_is_pos(outer_d as int, 2);
        assert(base_radius >= 1 && root_radius >= 1);
        lemma_half_plus_whole(pitch_d as int, module as int);
        lemma_half_plus_whole(pitch_d as int, -(dedendum as int));
        // base_d <= pitch_d, because the cosine ratio is at most one
        assert((pitch_d as int) * (cos_pa as int) <= (pitch_d as int) * (FX_ONE as int))
            by (nonlinear_arith)
            requires
                0 <= pitch_d,
                cos_pa <= FX_ONE,
        ;
        lemma_div_is_ordered(
            (pitch_d as int) * (cos_pa as int),
            (pitch_d as int) * (FX_ONE as int),
            FX_ONE as int,
        );
        lemma_div_multiples_vanish(pitch_d as int, FX_ONE as int);
        assert((pitch_d as int) * (FX_ONE as int) == (FX_ONE as int) * (pitch_d as int))
            by (nonlinear_arith);
        lemma_div_is_ordered(base_d as int, pitch_d as int, 2);
        lemma_div_is_ordered(pitch_d as int, 0x200_0000_0000, 2);
        // module <= 2 * pitch_radius + 1, since the pitch diameter holds at
        // least one whole module
        assert(pitch_d as int >= module as int) by (nonlinear_arith)
            requires
                1 <= sp.teeth,
                1 <= module,
                pitch_d == (sp.teeth as int) * (module as int),
        ;
        lemma_div_is_ordered(module as int, pitch_d as int, 2);
        lemma_fundamental_div_mod(module as int, 2);
        lemma_mod_bound(module as int, 2);
    }

    if outer_radius > 32 * base_radius {
        return Err(GearError::InvalidSpec);
    }

    let tooth_angular_pitch = TWO_PI_FX / (sp.teeth as i64);
    proof {
        lemma_div_is_ordered_by_denominator(TWO_PI_FX as int, sp.teeth as int, 1024);
        lemma_div_is_ordered_by_denominator(TWO_PI_FX as int, 1, sp.teeth as int);
        lemma_div_multiples_vanish(TWO_PI_FX as int, 1);
    }

    Ok(
        ResolvedGearGeometry {
            teeth: sp.teeth,
            module,
            pitch_radius,
            base_radius,
            root_radius,
            outer_radius,
            tooth_angular_pitch,
            backlash_allowance,
        },
    )
}

/// A multiplier of at most ten keeps a fixed-point product under ten times
/// the other factor.
proof fn lemma_ten_times_module(mult: int, module: int)
    requires
        0 <= mult <= 10_000_000,
        1 <= module,
    ensures
        fx_mul_s(mult, module) <= 10 * module,
{
    assert(mult * module <= 10_000_000 * module) by (nonlinear_arith)
        requires
            0 <= mult <= 10_000_000,
            1 <= module,
    ;
    lemma_div_is_ordered(mult * module, 10_000_000 * module, FX_ONE as int);
    assert(10_000_000 * module == (FX_ONE as int) * (10 * module)) by (nonlinear_arith);
    lemma_div_multiples_vanish(10 * module, FX_ONE as int);
}

/// Halving after adding twice a value is adding the value after halving.
proof fn lemma_half_plus_whole(d: int, k: int)
    ensures
        (d + 2 * k) / 2 == d / 2 + k,
{
    lemma_fundamental_div_mod(d, 2);
    lemma_mod_bound(d, 2);
    assert((d / 2 + k) * 2 == 2 * (d / 2) + 2 * k) by (nonlinear_arith);
    lemma_fundamental_div_mod_converse(d + 2 * k, 2, d / 2 + k, d % 2);
}

/// Every accepted spec yields a well-formed geometry, without running the
/// resolver: the bounds and orderings of [`wf_geometry`] follow from
/// [`resolve_ok_s`] and the resolver's input ranges alone.
pub proof fn lemma_resolve_ok_wf(sp: GearSpec, scale: int)
    requires
        resolve_ok_s(sp, scale),
        sp.teeth <= TEETH_MAX,
        0 <= sp.pressure_angle_degrees <= 90_000_000,
        0 <= sp.clearance_multiplier <= 10_000_000,
        0 <= sp.backlash_multiplier <= 10_000_000,
    ensures
        wf_geometry(resolved_geometry_s(sp, scale)),
{
    let m = module_s(sp, scale);
    let pd = pitch_diameter_s(sp, scale);
    let c = cos_fx_s(pressure_angle_rad_s(sp));
    assert(1 <= pd <= 1024 * 0x8000_0000) by (nonlinear_arith)
        requires
            1 <= sp.teeth as int <= 1024,
            1 <= m <= 0x8000_0000,
            pd == (sp.teeth as int) * m,
    ;
    lemma_div_pos_is_pos(pd, 2);
    lemma_div_is_ordered(pd, 0x200_0000_0000, 2);
    // the cosine ratio is clamped, so the base circle fits inside pitch
    assert(c <= FX_ONE as int);
    assert(pd * c <= pd * FX_ONE) by (nonlinear_arith)
        requires
            0 <= pd,
            c <= FX_ONE as int,
    ;
    lemma_div_is_ordered(pd * c, pd * FX_ONE, FX_ONE as int);
    assert(pd * FX_ONE == (FX_ONE as int) * pd) by (nonlinear_arith);
    lemma_div_multiples_vanish(pd, FX_ONE as int);
    lemma_div_is_ordered(base_diameter_s(sp, scale), pd, 2);
    // positive base and root radii from the accepted diameters
    lemma_div_is_ordered(2, base_diameter_s(sp, scale), 2);
    lemma_div_is_ordered(2, root_diameter_s(sp, scale), 2);
    // strict ordering of the radii
    lemma_radii_ordered(sp, scale);
    // the outer radius adds one module to the pitch radius
    lemma_half_plus_whole(pd, m);
    // backlash allowance: nonnegative and at most ten modules
    crate::fixed::lemma_fx_mul_mono(sp.backlash_multiplier as int, m, 10_000_000, 0x8000_0000);
    lemma_ten_times_module(sp.backlash_multiplier as int, m);
    // one module never exceeds the pitch diameter
    assert(pd >= m) by (nonlinear_arith)
        requires
            1 <= sp.teeth as int,
            1 <= m,
            pd == (sp.teeth as int) * m,
    ;
    lemma_div_is_ordered(m, pd, 2);
    lemma_fundamental_div_mod(m, 2);
    lemma_mod_bound(m, 2);
    // the angular pitch of one tooth
    lemma_div_is_ordered_by_denominator(TWO_PI_FX as int, sp.teeth as int, 1024);
    lemma_div_is_ordered_by_denominator(TWO_PI_FX as int, 1, sp.teeth as int);
    lemma_div_multiples_vanish(TWO_PI_FX as int, 1);
    lemma_div_pos_is_pos(TWO_PI_FX as int, sp.teeth as int);
}

/// For every spec the resolver accepts, the derived radii are strictly
/// ordered: the root radius below the pitch radius below the outer
/// radius, because the addendum is a whole module and the dedendum at
/// least one.
pub proof fn lemma_radii_ordered(sp: GearSpec, scale: int)
    requires
        resolve_ok_s(sp, scale),
        0 <= sp.clearance_multiplier,
    ensures
        root_radius_s(sp, scale) < pitch_radius_s(sp, scale),
        pitch_radius_s(sp, scale) < outer_radius_s(sp, scale),
        root_radius_s(sp, scale) < outer_radius_s(sp, scale),
{
    let m = module_s(sp, scale);
    let pd = pitch_diameter_s(sp, scale);
    assert((sp.clearance_multiplier as int) * m >= 0) by (nonlinear_arith)
        requires
            0 <= sp.clearance_multiplier as int,
            1 <= m,
    ;
    lemma_div_pos_is_pos((sp.clearance_multiplier as int) * m, FX_ONE as int);
    let ded = dedendum_s(sp, scale);
    lemma_half_plus_whole(pd, -ded);
    lemma_half_plus_whole(pd, m);
}

} // verus!

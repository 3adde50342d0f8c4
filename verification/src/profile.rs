//! The profile tiler and path emitter.
//!
//! The tiler replicates one tooth outline around the whole gear: tooth `i`
//! is the base outline rotated by `i * tooth_angular_pitch`, then
//! translated by the gear's center offset (rotation strictly before
//! translation).  The emitter flattens the tiled points into drawing
//! instructions: one `MoveTo` for the first point of the gear's outline,
//! one `LineTo` for every point after it.

use vstd::prelude::*;
use vstd::arithmetic::div_mod::lemma_fundamental_div_mod_converse;
use crate::fixed::lemma_mul_nonneg_le;
use crate::geometry::{
    GearError, GearSpec, ResolvedGearGeometry, TEETH_MAX, resolve, resolve_ok_s,
    resolved_geometry_s, wf_geometry,
};
use crate::point::{Point2D, in_bounds, rot_s, translate_s};
use crate::tooth::{TOOTH_BOUND, assemble_ok_s, assemble_tooth, tooth_point_s};

verus! {

/// Which side of the mesh a gear sits on.
#[derive(Clone, Copy, PartialEq, Eq, Structural, Debug)]
pub enum Side {
    Left,
    Right,
}

/// Placement of one gear relative to its meshing partner: a side plus the
/// horizontal center offset `-pitch_radius` (left) or `+pitch_radius`
/// (right), so two meshing pitch circles touch at the origin.
#[derive(Clone, Copy, PartialEq, Eq, Structural, Debug)]
pub struct GearPlacement {
    pub side: Side,
    pub center_offset: i64,
}

/// The horizontal center offset of a gear on the given side.
pub open spec fn center_offset_s(side: Side, pitch_radius: int) -> int {
    match side {
        Side::Left => -pitch_radius,
        Side::Right => pitch_radius,
    }
}

/// Build the placement for one gear of the given pitch radius.
pub fn gear_placement(side: Side, pitch_radius: i64) -> (r: GearPlacement)
    requires
        0 <= pitch_radius,
    ensures
        r.side == side,
        r.center_offset == center_offset_s(side, pitch_radius as int),
{
    let center_offset = match side {
        Side::Left => -pitch_radius,
        Side::Right => pitch_radius,
    };
    GearPlacement { side, center_offset }
}

/// Two meshing gears placed this way have their centers exactly the sum of
/// their pitch radii apart, so the pitch circles are tangent at the origin.
pub proof fn lemma_pitch_circles_tangent(left_pitch_radius: int, right_pitch_radius: int)
    ensures
        center_offset_s(Side::Right, right_pitch_radius) - center_offset_s(
            Side::Left,
            left_pitch_radius,
        ) == left_pitch_radius + right_pitch_radius,
{
}

/// One drawing instruction for an external renderer.
#[derive(Clone, Copy, PartialEq, Eq, Structural, Debug)]
pub enum PathInstruction {
    /// Start a new subpath at the point.
    MoveTo(Point2D),
    /// Continue the current subpath to the point.
    LineTo(Point2D),
}

/// The point an instruction carries.
pub open spec fn instr_point_s(ins: PathInstruction) -> (int, int) {
    match ins {
        PathInstruction::MoveTo(p) => p@,
        PathInstruction::LineTo(p) => p@,
    }
}

/// Whether an instruction starts a subpath.
pub open spec fn instr_is_move_s(ins: PathInstruction) -> bool {
    ins is MoveTo
}

/// The `idx`-th point of the tiled gear outline: point `idx % (2*steps+2)`
/// of tooth `idx / (2*steps+2)`, rotated by that tooth's angle and then
/// translated by the center offset.
pub open spec fn tiled_point_s(
    g: ResolvedGearGeometry,
    steps: int,
    off: (int, int),
    idx: int,
) -> (int, int) {
    let len = 2 * steps + 2;
    let i = idx / len;
    let k = idx % len;
    translate_s(rot_s(tooth_point_s(g, steps, k), i * (g.tooth_angular_pitch as int)), off)
}

/// Replicate a tooth outline around the gear.
///
/// Tooth `i` is the base outline rotated by `i * tooth_angular_pitch`;
/// the translation by the center offset comes after the rotation, and the
/// per-tooth point order is preserved exactly.
pub fn tile_profile(
    g: &ResolvedGearGeometry,
    tooth: &Vec<Point2D>,
    steps: usize,
    offset: Point2D,
) -> (out: Vec<Point2D>)
    requires
        wf_geometry(*g),
        1 <= steps <= 10_000,
        tooth@.len() == 2 * steps + 2,
        forall|k: int|
            0 <= k < tooth@.len() ==> (#[trigger] tooth@[k])@ == tooth_point_s(
                *g,
                steps as int,
                k,
            ),
        forall|k: int|
            0 <= k < tooth@.len() ==> in_bounds((#[trigger] tooth@[k])@, TOOTH_BOUND as int),
        in_bounds(offset@, 0x200_0000_0000),
    ensures
        out@.len() == (g.teeth as int) * (2 * steps + 2),
        forall|idx: int|
            0 <= idx < out@.len() ==> (#[trigger] out@[idx])@ == tiled_point_s(
                *g,
                steps as int,
                offset@,
                idx,
            ),
        forall|idx: int|
            0 <= idx < out@.len() ==> in_bounds((#[trigger] out@[idx])@, 0x4_0000_0000_0000),
{
    let len = 2 * steps + 2;
    let mut out: Vec<Point2D> = Vec::new();
    let mut i: usize = 0;
    proof {
        lemma_mul_nonneg_le(g.teeth as int, len as int, 1024, 20_002);
    }
    while i < g.teeth as usize
        invariant
            wf_geometry(*g),
            1 <= steps <= 10_000,
            len == 2 * steps + 2,
            0 <= i <= g.teeth,
            tooth@.len() == len,
            forall|k: int|
                0 <= k < tooth@.len() ==> (#[trigger] tooth@[k])@ == tooth_point_s(
                    *g,
                    steps as int,
                    k,
                ),
            forall|k: int|
                0 <= k < tooth@.len() ==> in_bounds((#[trigger] tooth@[k])@, TOOTH_BOUND as int),
            in_bounds(offset@, 0x200_0000_0000),
            out@.len() == i * len,
            (g.teeth as int) * (len as int) <= 1024 * 20_002,
            forall|idx: int|
                0 <= idx < out@.len() ==> (#[trigger] out@[idx])@ == tiled_point_s(
                    *g,
                    steps as int,
                    offset@,
                    idx,
                ),
            forall|idx: int|
                0 <= idx < out@.len() ==> in_bounds((#[trigger] out@[idx])@, 0x4_0000_0000_0000),
        decreases g.teeth - i,
    {
        proof {
            lemma_mul_nonneg_le(i as int, len as int, 1023, 20_002);
            assert((i as int) * (len as int) + (len as int) == ((i as int) + 1) * (len as int))
                by (nonlinear_arith);
            assert(((i as int) + 1) * (len as int) <= (g.teeth as int) * (len as int))
                by (nonlinear_arith)
                requires
                    (i as int) + 1 <= g.teeth as int,
                    0 <= len as int,
            ;
        }
        proof {
            lemma_mul_nonneg_le(i as int, g.tooth_angular_pitch as int, 1023, 6_283_184);
        }
        let angle = (i as i64) * g.tooth_angular_pitch;
        let mut k: usize = 0;
        while k < len
            invariant
                wf_geometry(*g),
                1 <= steps <= 10_000,
                len == 2 * steps + 2,
                0 <= i < g.teeth,
                0 <= k <= len,
                tooth@.len() == len,
                angle == (i as int) * (g.tooth_angular_pitch as int),
                0 <= angle <= 1023 * 6_283_184,
                forall|k2: int|
                    0 <= k2 < tooth@.len() ==> (#[trigger] tooth@[k2])@ == tooth_point_s(
                        *g,
                        steps as int,
                        k2,
                    ),
                forall|k2: int|
                    0 <= k2 < tooth@.len() ==> in_bounds(
                        (#[trigger] tooth@[k2])@,
                        TOOTH_BOUND as int,
                    ),
                in_bounds(offset@, 0x200_0000_0000),
                out@.len() == i * len + k,
                (i as int) * (len as int) + (len as int) <= 1024 * 20_002,
                forall|idx: int|
                    0 <= idx < out@.len() ==> (#[trigger] out@[idx])@ == tiled_point_s(
                        *g,
                        steps as int,
                        offset@,
                        idx,
                    ),
                forall|idx: int|
                    0 <= idx < out@.len() ==> in_bounds(
                        (#[trigger] out@[idx])@,
                        0x4_0000_0000_0000,
                    ),
            decreases len - k,
        {
            let p = tooth[k];
            let rotated = crate::point::rotate_point(p, angle);
            proof {
                crate::point::lemma_rot_bounds(p@, angle as int, TOOTH_BOUND as int);
            }
            let placed = rotated.add(offset);
            proof {
                lemma_fundamental_div_mod_converse(
                    (i as int) * (len as int) + (k as int),
                    len as int,
                    i as int,
                    k as int,
                );
            }
            out.push(placed);
            k += 1;
        }
        i += 1;
    }
    out
}

/// Emit drawing instructions for a tiled outline: `MoveTo` the first
/// point, `LineTo` every point after it, in order.  Deterministic and
/// total: same points in, same instructions out.
pub fn emit_path(points: &Vec<Point2D>) -> (out: Vec<PathInstruction>)
    requires
        points@.len() >= 1,
    ensures
        out@.len() == points@.len(),
        out@[0] == PathInstruction::MoveTo(points@[0]),
        forall|k: int|
            1 <= k < out@.len() ==> #[trigger] out@[k] == PathInstruction::LineTo(points@[k]),
{
    let mut out: Vec<PathInstruction> = Vec::new();
    out.push(PathInstruction::MoveTo(points[0]));
    let mut k: usize = 1;
    while k < points.len()
        invariant
            1 <= k <= points@.len(),
            out@.len() == k,
            out@[0] == PathInstruction::MoveTo(points@[0]),
            forall|k2: int|
                1 <= k2 < k ==> #[trigger] out@[k2] == PathInstruction::LineTo(points@[k2]),
        decreases points@.len() - k,
    {
        out.push(PathInstruction::LineTo(points[k]));
        k += 1;
    }
    out
}

/// Exactly the inputs for which a full gear outline can be generated: the
/// spec resolves, and both inverse-trig arguments stay in domain.
pub open spec fn gear_ok_s(sp: GearSpec, scale: int) -> bool {
    resolve_ok_s(sp, scale) && assemble_ok_s(resolved_geometry_s(sp, scale))
}

/// What the emitted outline of one gear looks like: one instruction per
/// tiled point, `MoveTo` first, each instruction carrying the tiled point
/// at its index.
pub open spec fn path_matches_s(
    path: Seq<PathInstruction>,
    sp: GearSpec,
    scale: int,
    side: Side,
    steps: int,
) -> bool {
    let g = resolved_geometry_s(sp, scale);
    let off = (center_offset_s(side, g.pitch_radius as int), 0int);
    &&& path.len() == (g.teeth as int) * (2 * steps + 2)
    &&& forall|idx: int|
        0 <= idx < path.len() ==> instr_is_move_s(#[trigger] path[idx]) == (idx == 0)
    &&& forall|idx: int|
        0 <= idx < path.len() ==> instr_point_s(#[trigger] path[idx]) == tiled_point_s(
            g,
            steps,
            off,
            idx,
        )
}

/// Generate the full outline of one gear as drawing instructions.
///
/// Resolves the spec, assembles one tooth, tiles it `teeth` times, and
/// emits the path; the center offset is `-pitch_radius` for a left gear
/// and `+pitch_radius` for a right gear.  Fails with
/// [`GearError::InvalidSpec`] exactly when the spec does not resolve, and
/// with [`GearError::GeometryDomainError`] exactly when it resolves but an
/// inverse-trigonometric argument leaves `[-1, 1]`; no partial outline is
/// ever returned.
pub fn gear_outline(sp: &GearSpec, scale: i64, side: Side, steps: usize) -> (r: Result<
    Vec<PathInstruction>,
    GearError,
>)
    requires
        sp.teeth <= TEETH_MAX,
        0 <= sp.pressure_angle_degrees <= 90_000_000,
        0 <= sp.clearance_multiplier <= 10_000_000,
        0 <= sp.backlash_multiplier <= 10_000_000,
        1 <= steps <= 10_000,
    ensures
        r is Ok <==> gear_ok_s(*sp, scale as int),
        match r {
            Ok(path) => path_matches_s(path@, *sp, scale as int, side, steps as int),
            Err(e) => {
                &&& (e == GearError::InvalidSpec <==> !resolve_ok_s(*sp, scale as int))
                &&& (e == GearError::GeometryDomainError <==> resolve_ok_s(*sp, scale as int)
                    && !assemble_ok_s(resolved_geometry_s(*sp, scale as int)))
            },
        },
{
    let g = match resolve(sp, scale) {
        Ok(g) => g,
        Err(e) => {
            return Err(e);
        },
    };
    let tooth = match assemble_tooth(&g, steps) {
        Ok(t) => t,
        Err(e) => {
            return Err(e);
        },
    };
    let placement = gear_placement(side, g.pitch_radius);
    let offset = Point2D { x: placement.center_offset, y: 0 };
    let tiled = tile_profile(&g, &tooth, steps, offset);
    proof {
        lemma_mul_nonneg_le(1, 4, g.teeth as int, 2 * (steps as int) + 2);
    }
    let path = emit_path(&tiled);
    Ok(path)
}

/// Generate both outlines of a meshing pair: the left gear offset by its
/// own pitch radius to the left, the right gear by its own pitch radius to
/// the right, at a shared scale.  The first failing gear aborts the pair.
pub fn mesh_outlines(left: &GearSpec, right: &GearSpec, scale: i64, steps: usize) -> (r: Result<
    (Vec<PathInstruction>, Vec<PathInstruction>),
    GearError,
>)
    requires
        left.teeth <= TEETH_MAX,
        right.teeth <= TEETH_MAX,
        0 <= left.pressure_angle_degrees <= 90_000_000,
        0 <= right.pressure_angle_degrees <= 90_000_000,
        0 <= left.clearance_multiplier <= 10_000_000,
        0 <= right.clearance_multiplier <= 10_000_000,
        0 <= left.backlash_multiplier <= 10_000_000,
        0 <= right.backlash_multiplier <= 10_000_000,
        1 <= steps <= 10_000,
    ensures
        r is Ok <==> gear_ok_s(*left, scale as int) && gear_ok_s(*right, scale as int),
        match r {
            Ok(pair) => path_matches_s(pair.0@, *left, scale as int, Side::Left, steps as int)
                && path_matches_s(pair.1@, *right, scale as int, Side::Right, steps as int),
            Err(e) => !gear_ok_s(*left, scale as int) || !gear_ok_s(*right, scale as int),
        },
{
    let left_path = match gear_outline(left, scale, Side::Left, steps) {
        Ok(p) => p,
        Err(e) => {
            return Err(e);
        },
    };
    let right_path = match gear_outline(right, scale, Side::Right, steps) {
        Ok(p) => p,
        Err(e) => {
            return Err(e);
        },
    };
    Ok((left_path, right_path))
}

/// Congruent teeth in an emitted outline: the path is exactly `teeth`
/// copies of the one tooth outline, copy `i` being the base outline
/// rotated by `i` tooth pitches before the common translation — so tooth
/// `i + 1` is built from the same points as tooth `i`, one tooth pitch
/// further around.
pub proof fn lemma_path_teeth_congruent(
    path: Seq<PathInstruction>,
    sp: GearSpec,
    scale: int,
    side: Side,
    steps: int,
    i: int,
    k: int,
)
    requires
        path_matches_s(path, sp, scale, side, steps),
        1 <= steps,
        0 <= i < resolved_geometry_s(sp, scale).teeth,
        0 <= k < 2 * steps + 2,
    ensures
        instr_point_s(path[i * (2 * steps + 2) + k]) == translate_s(
            rot_s(
                tooth_point_s(resolved_geometry_s(sp, scale), steps, k),
                i * (resolved_geometry_s(sp, scale).tooth_angular_pitch as int),
            ),
            (
                center_offset_s(side, resolved_geometry_s(sp, scale).pitch_radius as int),
                0int,
            ),
        ),
        instr_is_move_s(path[i * (2 * steps + 2) + k]) == (i == 0 && k == 0),
{
    let g = resolved_geometry_s(sp, scale);
    let len = 2 * steps + 2;
    let idx = i * len + k;
    assert(0 <= idx && idx + 1 <= (g.teeth as int) * len) by (nonlinear_arith)
        requires
            0 <= i < g.teeth,
            0 <= k < len,
            idx == i * len + k,
    ;
    lemma_teeth_congruent(g, steps, (center_offset_s(side, g.pitch_radius as int), 0int), i, k);
    assert(idx == 0 <==> (i == 0 && k == 0)) by (nonlinear_arith)
        requires
            0 <= i,
            0 <= k < len,
            idx == i * len + k,
            0 < len,
    ;
}

/// Congruent teeth: point `k` of tooth `i` is point `k` of the base tooth
/// outline rotated by `i` tooth pitches (and shifted by the common center
/// offset), so rotating the whole path by one tooth pitch maps each
/// tooth's points onto the next tooth's construction.
pub proof fn lemma_teeth_congruent(
    g: ResolvedGearGeometry,
    steps: int,
    off: (int, int),
    i: int,
    k: int,
)
    requires
        1 <= steps,
        0 <= i < g.teeth,
        0 <= k < 2 * steps + 2,
    ensures
        tiled_point_s(g, steps, off, i * (2 * steps + 2) + k) == translate_s(
            rot_s(tooth_point_s(g, steps, k), i * (g.tooth_angular_pitch as int)),
            off,
        ),
{
    lemma_fundamental_div_mod_converse(i * (2 * steps + 2) + k, 2 * steps + 2, i, k);
}

} // verus!

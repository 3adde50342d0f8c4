use involute::geometry::{GearError, GearSpec, resolve};
use involute::point::{Point2D, rotate_point};
use involute::profile::{
    GearPlacement, PathInstruction, Side, emit_path, gear_outline, gear_placement, mesh_outlines,
    tile_profile,
};
use involute::tooth::assemble_tooth;

fn spec_with(teeth: u32, backlash_multiplier: i64) -> GearSpec {
    GearSpec {
        teeth,
        pitch_density: 12_000_000,
        pressure_angle_degrees: 20_000_000,
        clearance_multiplier: 167_000,
        backlash_multiplier,
    }
}

fn instr_point(i: &PathInstruction) -> Point2D {
    match i {
        PathInstruction::MoveTo(p) => *p,
        PathInstruction::LineTo(p) => *p,
    }
}

#[test]
fn the_emitted_path_moves_once_and_then_only_draws() {
    let steps = involute::curve::DEFAULT_INVOLUTE_STEPS;
    assert_eq!(steps, 100);
    let path = gear_outline(&spec_with(50, 50_000), 1_000_000, Side::Left, steps).unwrap();
    // fifty teeth, each tooth 2*100 + 2 points
    assert_eq!(path.len(), 50 * 202);
    for (idx, ins) in path.iter().enumerate() {
        match ins {
            PathInstruction::MoveTo(_) => assert_eq!(idx, 0),
            PathInstruction::LineTo(_) => assert!(idx > 0),
        }
    }
}

#[test]
fn the_left_gear_outline_starts_at_the_documented_points() {
    let path = gear_outline(&spec_with(50, 50_000), 1_000_000, Side::Left, 100).unwrap();
    assert_eq!(instr_point(&path[0]), Point2D { x: -97_732, y: -27_784 });
    assert_eq!(instr_point(&path[1]), Point2D { x: -96_679, y: -24_374 });
    assert_eq!(instr_point(&path[100]), Point2D { x: 78_510, y: 99_392 });
    assert_eq!(instr_point(&path[201]), Point2D { x: -109_625, y: 221_375 });
    assert_eq!(instr_point(&path[10_099]), Point2D { x: -97_588, y: -27_848 });
}

#[test]
fn every_tooth_is_the_base_tooth_rotated_by_its_tooth_angle() {
    let sp = spec_with(50, 50_000);
    let g = resolve(&sp, 1_000_000).unwrap();
    let tooth = assemble_tooth(&g, 100).unwrap();
    let path = gear_outline(&sp, 1_000_000, Side::Left, 100).unwrap();
    let len = tooth.len();
    for i in [0usize, 1, 7, 49] {
        let angle = (i as i64) * g.tooth_angular_pitch;
        for k in [0usize, 1, 50, 150, len - 1] {
            let rotated = rotate_point(tooth[k], angle);
            let placed = Point2D { x: rotated.x - g.pitch_radius, y: rotated.y };
            assert_eq!(instr_point(&path[i * len + k]), placed);
        }
    }
}

#[test]
fn tiling_preserves_per_tooth_point_order() {
    let sp = spec_with(10, 50_000);
    let g = resolve(&sp, 1_000_000).unwrap();
    let tooth = assemble_tooth(&g, 20).unwrap();
    let offset = Point2D { x: 0, y: 0 };
    let tiled = tile_profile(&g, &tooth, 20, offset);
    assert_eq!(tiled.len(), 10 * 42);
    // tooth zero is the untouched outline: rotation by zero and a zero
    // offset leave the x axis cosine untouched only up to rounding, so
    // compare against an explicit zero rotation
    for k in 0..42 {
        let same = rotate_point(tooth[k], 0);
        assert_eq!(tiled[k], same);
    }
}

#[test]
fn the_right_gear_is_offset_by_its_own_pitch_radius() {
    let path = gear_outline(&spec_with(10, 50_000), 1_000_000, Side::Right, 100).unwrap();
    assert_eq!(path.len(), 10 * 202);
    // first point: the root point rotated by the (negative) pitch
    // correction, shifted right by the pitch radius 416665
    assert_eq!(instr_point(&path[0]), Point2D { x: 736_017, y: -3_213 });
}

#[test]
fn a_three_tooth_gear_at_minimum_resolution_still_closes() {
    // the smallest accepted sampling: one flank sample per side, four
    // points per tooth
    let sp = spec_with(3, 50_000);
    let g = resolve(&sp, 1_000_000).unwrap();
    let tooth = assemble_tooth(&g, 1).unwrap();
    assert_eq!(tooth.len(), 4);
    assert_eq!(tooth[0], Point2D { x: 27_749, y: 45 });
    assert_eq!(tooth[1], Point2D { x: 58_896, y: 101_627 });
    assert_eq!(tooth[2], Point2D { x: 13_914, y: 24_009 });
    assert_eq!(tooth[3], Point2D { x: -13_915, y: 24_009 });
    let path = gear_outline(&sp, 1_000_000, Side::Left, 1).unwrap();
    assert_eq!(path.len(), 12);
}

#[test]
fn emit_path_draws_every_point_in_order() {
    let pts = vec![
        Point2D { x: 1, y: 2 },
        Point2D { x: 3, y: 4 },
        Point2D { x: 5, y: 6 },
    ];
    let path = emit_path(&pts);
    assert_eq!(path.len(), 3);
    assert_eq!(path[0], PathInstruction::MoveTo(Point2D { x: 1, y: 2 }));
    assert_eq!(path[1], PathInstruction::LineTo(Point2D { x: 3, y: 4 }));
    assert_eq!(path[2], PathInstruction::LineTo(Point2D { x: 5, y: 6 }));
}

#[test]
fn meshing_gears_touch_at_the_origin() {
    // teeth = 50 left, teeth = 10 right, same pitch density: centers sit a
    // full sum of pitch radii apart, pitch circles tangent at the origin.
    let left = resolve(&spec_with(50, 50_000), 1_000_000).unwrap();
    let right = resolve(&spec_with(10, 50_000), 1_000_000).unwrap();
    let lp: GearPlacement = gear_placement(Side::Left, left.pitch_radius);
    let rp: GearPlacement = gear_placement(Side::Right, right.pitch_radius);
    assert_eq!(lp.center_offset, -2_083_325);
    assert_eq!(rp.center_offset, 416_665);
    assert_eq!(rp.center_offset - lp.center_offset, left.pitch_radius + right.pitch_radius);
}

#[test]
fn a_meshing_pair_renders_both_gears() {
    let (l, r) = mesh_outlines(
        &spec_with(50, 50_000),
        &spec_with(10, 50_000),
        1_000_000,
        100,
    )
        .unwrap();
    assert_eq!(l.len(), 50 * 202);
    assert_eq!(r.len(), 10 * 202);
    assert!(matches!(l[0], PathInstruction::MoveTo(_)));
    assert!(matches!(r[0], PathInstruction::MoveTo(_)));
}

#[test]
fn outline_errors_keep_their_kinds() {
    // an invalid spec fails before any geometry exists
    let r = gear_outline(&spec_with(0, 50_000), 1_000_000, Side::Left, 100);
    assert_eq!(r, Err(GearError::InvalidSpec));
    // a resolvable spec with an oversized backlash fails in the assembler
    let r = gear_outline(&spec_with(4, 10_000_000), 1_000_000, Side::Left, 100);
    assert_eq!(r, Err(GearError::GeometryDomainError));
    // and the pair aborts on the first failing gear
    let r = mesh_outlines(&spec_with(50, 50_000), &spec_with(0, 50_000), 1_000_000, 100);
    assert_eq!(r, Err(GearError::InvalidSpec));
}

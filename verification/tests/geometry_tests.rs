use involute::geometry::{GearError, GearSpec, resolve};

fn spec_with(teeth: u32, pitch_density: i64, backlash_multiplier: i64) -> GearSpec {
    GearSpec {
        teeth,
        pitch_density,
        pressure_angle_degrees: 20_000_000,
        clearance_multiplier: 167_000,
        backlash_multiplier,
    }
}

#[test]
fn fifty_tooth_gear_resolves_to_the_documented_geometry() {
    // teeth = 50, diametric pitch = 12, pressure angle = 20 degrees,
    // clearance 0.167, backlash 0.05, scale = 1: module ~ 0.0833,
    // pitch radius ~ 2.083.
    let g = resolve(&spec_with(50, 12_000_000, 50_000), 1_000_000).unwrap();
    assert_eq!(g.teeth, 50);
    assert_eq!(g.module, 83_333);
    assert_eq!(g.pitch_radius, 2_083_325);
    assert_eq!(g.base_radius, 1_957_685);
    assert_eq!(g.root_radius, 1_986_076);
    assert_eq!(g.outer_radius, 2_166_658);
    assert_eq!(g.tooth_angular_pitch, 125_663);
    assert_eq!(g.backlash_allowance, 4_166);
}

#[test]
fn ten_tooth_gear_resolves_with_undercut_geometry() {
    let g = resolve(&spec_with(10, 12_000_000, 50_000), 1_000_000).unwrap();
    assert_eq!(g.module, 83_333);
    assert_eq!(g.pitch_radius, 416_665);
    assert_eq!(g.base_radius, 391_537);
    assert_eq!(g.root_radius, 319_416);
    assert_eq!(g.outer_radius, 499_998);
    assert_eq!(g.tooth_angular_pitch, 628_318);
    // the root circle dips below the base circle: the undercut case
    assert!(g.root_radius < g.base_radius);
}

#[test]
fn radii_are_strictly_ordered_for_valid_specs() {
    for teeth in [8u32, 10, 24, 50, 120] {
        let g = resolve(&spec_with(teeth, 12_000_000, 50_000), 1_000_000).unwrap();
        assert!(g.root_radius < g.pitch_radius);
        assert!(g.pitch_radius < g.outer_radius);
        assert!(g.root_radius < g.outer_radius);
        assert!(g.base_radius <= g.pitch_radius);
        assert!(g.root_radius > 0 && g.base_radius > 0);
    }
}

#[test]
fn zero_teeth_is_an_invalid_spec() {
    let r = resolve(&spec_with(0, 12_000_000, 50_000), 1_000_000);
    assert_eq!(r, Err(GearError::InvalidSpec));
}

#[test]
fn zero_pitch_density_is_an_invalid_spec() {
    let r = resolve(&spec_with(50, 0, 50_000), 1_000_000);
    assert_eq!(r, Err(GearError::InvalidSpec));
}

#[test]
fn negative_pitch_density_is_an_invalid_spec() {
    let r = resolve(&spec_with(50, -3_000_000, 50_000), 1_000_000);
    assert_eq!(r, Err(GearError::InvalidSpec));
}

#[test]
fn zero_scale_gives_a_degenerate_module_and_is_rejected() {
    let r = resolve(&spec_with(50, 12_000_000, 50_000), 0);
    assert_eq!(r, Err(GearError::InvalidSpec));
}

#[test]
fn too_few_teeth_drive_the_root_radius_negative() {
    // With a 0.167 clearance the dedendum is 1.167 modules; two teeth put
    // the root diameter below zero, which must be rejected before drawing.
    let r = resolve(&spec_with(2, 12_000_000, 50_000), 1_000_000);
    assert_eq!(r, Err(GearError::InvalidSpec));
}

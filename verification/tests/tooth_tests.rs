use involute::curve::{involute_point, sample_flank, theta_max, theta_min, theta_pitch};
use involute::geometry::{GearError, GearSpec, resolve};
use involute::tooth::{assemble_tooth, tooth_thickness_at_pitch};

fn resolve_gear(teeth: u32, backlash_multiplier: i64) -> involute::geometry::ResolvedGearGeometry {
    let sp = GearSpec {
        teeth,
        pitch_density: 12_000_000,
        pressure_angle_degrees: 20_000_000,
        clearance_multiplier: 167_000,
        backlash_multiplier,
    };
    resolve(&sp, 1_000_000).unwrap()
}

#[test]
fn theta_bounds_for_a_fifty_tooth_gear() {
    let g = resolve_gear(50, 50_000);
    assert_eq!(theta_min(&g), 170_924);
    assert_eq!(theta_max(&g), 474_219);
    assert_eq!(theta_pitch(&g), 363_970);
}

#[test]
fn undercut_switch_as_the_root_circle_crosses_the_base_circle() {
    // Fifty teeth: root above base, so the flank starts strictly above zero.
    let wide = resolve_gear(50, 50_000);
    assert!(wide.root_radius > wide.base_radius);
    assert!(theta_min(&wide) > 0);
    // Ten teeth: root at or below base, so the flank starts exactly at zero.
    let narrow = resolve_gear(10, 50_000);
    assert!(narrow.root_radius <= narrow.base_radius);
    assert_eq!(theta_min(&narrow), 0);
}

#[test]
fn the_innermost_involute_point_sits_on_the_base_circle() {
    let g = resolve_gear(10, 50_000);
    // theta = 0: the involute starts exactly on the base circle
    let p = involute_point(g.base_radius, 0);
    assert_eq!(p.x, g.base_radius);
    assert_eq!(p.y, 0);
}

#[test]
fn flank_samples_are_ordered_outward() {
    let g = resolve_gear(50, 50_000);
    let flank = sample_flank(&g, 100);
    assert_eq!(flank.len(), 100);
    // radius grows monotonically along the flank
    for w in flank.windows(2) {
        let r0 = w[0].x as i128 * w[0].x as i128 + w[0].y as i128 * w[0].y as i128;
        let r1 = w[1].x as i128 * w[1].x as i128 + w[1].y as i128 * w[1].y as i128;
        assert!(r0 <= r1);
    }
}

#[test]
fn one_tooth_outline_has_two_flanks_and_two_closing_points() {
    let g = resolve_gear(50, 50_000);
    let tooth = assemble_tooth(&g, 100).unwrap();
    assert_eq!(tooth.len(), 202);
    let tooth_small = assemble_tooth(&g, 20).unwrap();
    assert_eq!(tooth_small.len(), 42);
}

#[test]
fn backlash_thins_the_tooth_at_the_pitch_circle() {
    let thin = resolve_gear(50, 100_000);
    let thick = resolve_gear(50, 50_000);
    let t_thick = tooth_thickness_at_pitch(&thick).unwrap();
    let t_thin = tooth_thickness_at_pitch(&thin).unwrap();
    assert_eq!(t_thick, 60_833);
    assert_eq!(t_thin, 58_833);
    assert!(t_thin < t_thick);
}

#[test]
fn oversized_backlash_is_a_geometry_domain_error() {
    // Four teeth with the full ten-module backlash: half the allowance
    // exceeds the pitch radius, so the arcsine argument leaves [-1, 1].
    let g = resolve_gear(4, 10_000_000);
    assert_eq!(tooth_thickness_at_pitch(&g), Err(GearError::GeometryDomainError));
    match assemble_tooth(&g, 100) {
        Err(GearError::GeometryDomainError) => {},
        other => panic!("expected a geometry domain error, got {:?}", other.map(|v| v.len())),
    }
}

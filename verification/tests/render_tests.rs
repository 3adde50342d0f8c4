use involute::geometry::{GearSpec, resolve};
use involute::render::{DebugConfig, debug_circles, grid_line_positions, print_layout};

fn fifty_tooth_geometry() -> involute::geometry::ResolvedGearGeometry {
    let sp = GearSpec {
        teeth: 50,
        pitch_density: 12_000_000,
        pressure_angle_degrees: 20_000_000,
        clearance_multiplier: 167_000,
        backlash_multiplier: 50_000,
    };
    resolve(&sp, 1_000_000).unwrap()
}

#[test]
fn the_default_debug_config_draws_no_overlays() {
    let cfg = DebugConfig::default();
    assert!(!cfg.show_base_circle);
    assert!(!cfg.show_inner_circle);
    assert!(!cfg.show_outer_circle);
    assert!(!cfg.show_pitch_circle);
    let g = fifty_tooth_geometry();
    assert_eq!(debug_circles(&cfg, &g, -g.pitch_radius).len(), 0);
}

#[test]
fn enabled_overlays_come_out_in_drawing_order() {
    let g = fifty_tooth_geometry();
    let cfg = DebugConfig {
        show_base_circle: true,
        show_inner_circle: false,
        show_outer_circle: true,
        show_pitch_circle: true,
    };
    let circles = debug_circles(&cfg, &g, -g.pitch_radius);
    assert_eq!(circles.len(), 3);
    assert_eq!(circles[0].radius, g.base_radius);
    assert_eq!(circles[1].radius, g.outer_radius);
    assert_eq!(circles[2].radius, g.pitch_radius);
    for c in &circles {
        assert_eq!(c.center.x, -g.pitch_radius);
        assert_eq!(c.center.y, 0);
    }
}

#[test]
fn grid_lines_fall_every_half_inch_around_the_center() {
    // a 900 pixel extent at 96 pixels per inch: 48 pixel spacing, first
    // line 18 pixels in, nineteen lines in all
    let lines = grid_line_positions(900, 96);
    assert_eq!(lines.len(), 19);
    assert_eq!(lines[0], 18);
    assert_eq!(lines[1], 66);
    assert_eq!(lines[18], 18 + 18 * 48);
}

#[test]
fn the_print_page_is_landscape_letter_minus_margins() {
    let l = print_layout(300);
    assert_eq!(l.width_px, 3_225);
    assert_eq!(l.height_px, 2_475);
    assert_eq!(l.translate_x_pt, 603_000_000);
    assert_eq!(l.translate_y_pt, 9_000_000);
    assert_eq!(l.page_width_mm, 215_900_000);
    assert_eq!(l.page_height_mm, 279_400_000);
    assert_eq!(l.rotate_degrees, 90);
}

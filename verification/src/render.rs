//! Caller-side rendering configuration and the pure parts of the drawing
//! chrome: which debug circles to draw, where the background grid lines
//! fall, and the fixed geometry of the printable page.
//!
//! None of this touches the involute computation; it is the data a
//! rendering backend consumes alongside the emitted gear path.

use vstd::prelude::*;
use vstd::arithmetic::div_mod::{
    lemma_div_is_ordered, lemma_div_pos_is_pos, lemma_fundamental_div_mod, lemma_mod_bound,
};
use crate::fixed::lemma_mul_nonneg_le;
use crate::geometry::ResolvedGearGeometry;
use crate::point::Point2D;

verus! {

/// Presentation-layer toggles: each enabled flag asks the renderer to draw
/// one reference circle of the resolved geometry.
#[derive(Clone, Copy, PartialEq, Eq, Structural, Debug)]
pub struct DebugConfig {
    /// Draw the base circle.
    pub show_base_circle: bool,
    /// Draw the root (inner) circle.
    pub show_inner_circle: bool,
    /// Draw the outer (tip) circle.
    pub show_outer_circle: bool,
    /// Draw the pitch circle.
    pub show_pitch_circle: bool,
}

impl Default for DebugConfig {
    /// All overlays off.
    fn default() -> (d: DebugConfig)
        ensures
            !d.show_base_circle,
            !d.show_inner_circle,
            !d.show_outer_circle,
            !d.show_pitch_circle,
    {
        DebugConfig {
            show_base_circle: false,
            show_inner_circle: false,
            show_outer_circle: false,
            show_pitch_circle: false,
        }
    }
}

/// One reference circle for the renderer: a center and a radius.
#[derive(Clone, Copy, PartialEq, Eq, Structural, Debug)]
pub struct DebugCircle {
    pub center: Point2D,
    pub radius: i64,
}

/// The radii requested by a configuration, in drawing order: base, root,
/// outer, pitch.
pub open spec fn debug_radii_s(cfg: DebugConfig, g: ResolvedGearGeometry) -> Seq<int> {
    let base: Seq<int> = if cfg.show_base_circle {
        seq![g.base_radius as int]
    } else {
        seq![]
    };
    let inner: Seq<int> = if cfg.show_inner_circle {
        seq![g.root_radius as int]
    } else {
        seq![]
    };
    let outer: Seq<int> = if cfg.show_outer_circle {
        seq![g.outer_radius as int]
    } else {
        seq![]
    };
    let pitch: Seq<int> = if cfg.show_pitch_circle {
        seq![g.pitch_radius as int]
    } else {
        seq![]
    };
    base + inner + outer + pitch
}

/// The reference circles a configuration asks for, each centered on the
/// gear's center `(offset_x, 0)`.
pub fn debug_circles(cfg: &DebugConfig, g: &ResolvedGearGeometry, offset_x: i64) -> (v: Vec<
    DebugCircle,
>)
    ensures
        v@.len() == debug_radii_s(*cfg, *g).len(),
        forall|i: int|
            0 <= i < v@.len() ==> {
                &&& (#[trigger] v@[i]).center.x == offset_x
                &&& v@[i].center.y == 0
                &&& v@[i].radius as int == debug_radii_s(*cfg, *g)[i]
            },
{
    let center = Point2D { x: offset_x, y: 0 };
    let mut v: Vec<DebugCircle> = Vec::new();
    if cfg.show_base_circle {
        v.push(DebugCircle { center, radius: g.base_radius });
    }
    if cfg.show_inner_circle {
        v.push(DebugCircle { center, radius: g.root_radius });
    }
    if cfg.show_outer_circle {
        v.push(DebugCircle { center, radius: g.outer_radius });
    }
    if cfg.show_pitch_circle {
        v.push(DebugCircle { center, radius: g.pitch_radius });
    }
    v
}

/// Grid spacing in pixels: half an inch at the given pixel density.
pub open spec fn grid_spacing_s(ppi: int) -> int {
    ppi / 2
}

/// First grid line: the screen center folded back by whole grid steps.
pub open spec fn grid_offset_s(extent: int, ppi: int) -> int {
    (extent / 2) % grid_spacing_s(ppi)
}

/// The coordinates of the background grid lines along one axis: every
/// half-inch step from the folded-back center offset up to `extent`
/// past it, inclusive.
pub fn grid_line_positions(extent: u32, ppi: u32) -> (v: Vec<u32>)
    requires
        2 <= ppi <= 1_000_000,
        extent <= 1_000_000,
    ensures
        v@.len() == extent as int / grid_spacing_s(ppi as int) + 1,
        forall|k: int|
            0 <= k < v@.len() ==> (#[trigger] v@[k]) as int == grid_offset_s(
                extent as int,
                ppi as int,
            ) + k * grid_spacing_s(ppi as int),
{
    let spacing = ppi / 2;
    let offset = (extent / 2) % spacing;
    proof {
        lemma_mod_bound((extent / 2) as int, spacing as int);
        lemma_div_pos_is_pos(extent as int, spacing as int);
        lemma_div_is_ordered(extent as int, 1_000_000, spacing as int);
    }
    let count = extent / spacing + 1;
    let mut v: Vec<u32> = Vec::new();
    let mut k: u32 = 0;
    while k < count
        invariant
            2 <= ppi <= 1_000_000,
            extent <= 1_000_000,
            spacing == grid_spacing_s(ppi as int),
            1 <= spacing <= 500_000,
            offset == grid_offset_s(extent as int, ppi as int),
            0 <= offset < spacing,
            count == extent as int / (spacing as int) + 1,
            count <= 1_000_001,
            0 <= k <= count,
            v@.len() == k,
            forall|k2: int|
                0 <= k2 < k ==> (#[trigger] v@[k2]) as int == (offset as int) + k2 * (
                spacing as int),
        decreases count - k,
    {
        proof {
            let e = extent as int;
            let s = spacing as int;
            let q = e / s;
            lemma_fundamental_div_mod(e, s);
            lemma_mod_bound(e, s);
            assert(q * s == s * q) by (nonlinear_arith);
            assert((k as int) * s <= q * s) by (nonlinear_arith)
                requires
                    0 <= k as int <= q,
                    0 <= s,
            ;
        }
        v.push(offset + k * spacing);
        k += 1;
    }
    v
}

/// The fixed geometry of the printable page: landscape letter paper,
/// eleven by eight and a half inches less a quarter-inch margin, rendered
/// at the caller's dots-per-inch and rotated a quarter turn on export.
#[derive(Clone, Copy, PartialEq, Eq, Structural, Debug)]
pub struct PrintLayout {
    /// Raster width: `dpi * (11 - 1/4)` pixels.
    pub width_px: u32,
    /// Raster height: `dpi * (8.5 - 1/4)` pixels.
    pub height_px: u32,
    /// Horizontal placement on the page, in fixed-point printer's points:
    /// `72 * (8.5 - 1/8)`.
    pub translate_x_pt: i64,
    /// Vertical placement on the page, in fixed-point printer's points:
    /// `72 * 1/8`.
    pub translate_y_pt: i64,
    /// Page width in fixed-point millimetres: `25.4 * 8.5`.
    pub page_width_mm: i64,
    /// Page height in fixed-point millimetres: `25.4 * 11`.
    pub page_height_mm: i64,
    /// Counterclockwise rotation applied to the raster on export.
    pub rotate_degrees: u32,
}

/// Compute the print-page layout for a raster at the given density.
pub fn print_layout(dpi: u32) -> (l: PrintLayout)
    requires
        dpi <= 10_000_000,
    ensures
        l.width_px as int == 43 * (dpi as int) / 4,
        l.height_px as int == 33 * (dpi as int) / 4,
        l.translate_x_pt == 603_000_000,
        l.translate_y_pt == 9_000_000,
        l.page_width_mm == 215_900_000,
        l.page_height_mm == 279_400_000,
        l.rotate_degrees == 90,
{
    PrintLayout {
        width_px: 43 * dpi / 4,
        height_px: 33 * dpi / 4,
        translate_x_pt: 603_000_000,
        translate_y_pt: 9_000_000,
        page_width_mm: 215_900_000,
        page_height_mm: 279_400_000,
        rotate_degrees: 90,
    }
}

} // verus!

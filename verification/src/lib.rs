//! Involute gear profile generation over fixed-point scalars.
//!
//! The crate turns a small set of gear parameters into the exact sequence of
//! 2D path points describing a gear's outline: resolve the derived radii,
//! sample the involute flank, assemble one tooth, tile it around the gear,
//! and emit drawing instructions for a renderer to consume.
//!
//! All quantities are fixed-point integers carrying six decimal places
//! ([`fixed::FX_ONE`] per unit), so every contract states the exact value a
//! function computes.

pub mod curve;
pub mod fixed;
pub mod geometry;
pub mod point;
pub mod profile;
pub mod render;
pub mod tooth;
pub mod trig;

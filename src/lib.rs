//! A layered drawing surface: a stack of independently drawable pixel
//! layers, each kept on two backends (a raster surface for strokes and
//! copies, an accelerated surface for shader effects) that are synchronized
//! after every operation, plus the HSV color model of the color wheel.
//!
//! Positions and sizes are integer pixels; saturation, value and wheel
//! points are fixed-point with `color::UNIT` standing for 1.0, and hue counts
//! `color::SECTOR` per 60 degrees.
use vstd::prelude::*;

pub mod color;
pub mod geometry;
pub mod layer_manager;
pub mod shaders;
pub mod surface;
pub mod virtual_context;
pub mod wheel;

verus! {

} // verus!

use vstd::prelude::*;

use crate::color::Color;
use crate::geometry::{Rectangle, Vector2};
use crate::surface::{Composite, Fill, Surface};

verus! {

/// The two-color checkerboard program. Each program of the accelerated
/// backend keeps the size of the surface it renders to.
pub struct CheckerboardShader {
    pub width: u16,
    pub height: u16,
}

impl CheckerboardShader {
    pub fn new(width: u16, height: u16) -> (s: CheckerboardShader)
        ensures
            s.width == width,
            s.height == height,
    {
        CheckerboardShader { width, height }
    }

    pub fn set_size(&mut self, width: u16, height: u16)
        ensures
            final(self).width == width,
            final(self).height == height,
    {
        self.width = width;
        self.height = height;
    }

    /// Covers the whole target with cells of `cell_size` pixels, alternating
    /// the opaque versions of `color_a` and `color_b`.
    pub fn draw(&self, target: &mut Surface, cell_size: u16, color_a: Color, color_b: Color)
        requires
            old(target).wf(),
            old(target)@.width == self.width,
            old(target)@.height == self.height,
            cell_size > 0,
        ensures
            final(target).wf(),
            final(target)@ == old(target)@.filled(
                Fill::Checker { cell: cell_size, a: color_a, b: color_b },
            ),
    {
        target.fill(Fill::Checker { cell: cell_size, a: color_a, b: color_b });
    }
}

/// The HSV color wheel program.
pub struct HsvCircleShader {
    pub width: u16,
    pub height: u16,
}

impl HsvCircleShader {
    pub fn new(width: u16, height: u16) -> (s: HsvCircleShader)
        ensures
            s.width == width,
            s.height == height,
    {
        HsvCircleShader { width, height }
    }

    pub fn set_size(&mut self, width: u16, height: u16)
        ensures
            final(self).width == width,
            final(self).height == height,
    {
        self.width = width;
        self.height = height;
    }

    /// Blends the color wheel with center `(x, y)` and radius `r` onto the
    /// target.
    pub fn draw(&self, target: &mut Surface, x: i16, y: i16, r: u16)
        requires
            old(target).wf(),
            old(target)@.width == self.width,
            old(target)@.height == self.height,
        ensures
            final(target).wf(),
            final(target)@ == old(target)@.filled(Fill::Wheel { x, y, r }),
    {
        target.fill(Fill::Wheel { x, y, r });
    }
}

/// The program that copies an image into a rectangle of the target.
pub struct CopyImageShader {
    pub width: u16,
    pub height: u16,
}

impl CopyImageShader {
    pub fn new(width: u16, height: u16) -> (s: CopyImageShader)
        ensures
            s.width == width,
            s.height == height,
    {
        CopyImageShader { width, height }
    }

    pub fn set_size(&mut self, width: u16, height: u16)
        ensures
            final(self).width == width,
            final(self).height == height,
    {
        self.width = width;
        self.height = height;
    }

    /// Copies `image`, stretched, over the rectangle at `(x, y)` of size
    /// `width` by `height`, replacing what the target held there.
    pub fn draw(
        &self,
        target: &mut Surface,
        x: i32,
        y: i32,
        width: i32,
        height: i32,
        image: &Surface,
    )
        requires
            old(target).wf(),
            image.wf(),
            old(target)@.width == self.width,
            old(target)@.height == self.height,
        ensures
            final(target).wf(),
            final(target)@ == old(target)@.blitted(
                image@,
                Rectangle { coord: Vector2 { x, y }, size: Vector2 { x: width, y: height } },
                Composite::Copy,
            ),
    {
        target.blit(image, Rectangle::new(x, y, width, height), Composite::Copy);
    }
}

} // verus!

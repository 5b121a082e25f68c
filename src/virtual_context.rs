use vstd::prelude::*;

use crate::color::Color;
use crate::geometry::Rectangle;
use crate::shaders::{CheckerboardShader, CopyImageShader, HsvCircleShader};
use crate::surface::{
    checker_color, full_rect, lemma_full_copy, lemma_index_coords,
    Composite, Fill, Shape, Surface, SurfaceView,
};

verus! {

/// Which backend produced the latest content, and so which way the next
/// synchronization copies.
#[derive(Clone, Copy, Debug, PartialEq, Eq, Structural)]
pub enum Backend {
    /// The raster surface is authoritative: copy it to the accelerated one.
    Raster,
    /// The accelerated surface is authoritative: copy it to the raster one.
    Accelerated,
}

/// One logical drawing surface kept on two backends: a raster surface for
/// strokes, fills and copies, and an accelerated surface where the shader
/// programs run. Every drawing operation targets one backend and ends with
/// one synchronization toward the other.
pub struct VirtualContext {
    raster: Surface,
    accelerated: Surface,
    hsv_circle: HsvCircleShader,
    copy_image: CopyImageShader,
    checkerboard: CheckerboardShader,
    latest: Backend,
}

/// After a checkerboard fill, each pixel is the opaque version of one of the
/// two colors, chosen by the parity of `x / cell + y / cell` alone, whatever
/// the surface held before.
pub proof fn lemma_checkerboard_pixel(
    before: SurfaceView,
    cell: u16,
    color_a: Color,
    color_b: Color,
    x: int,
    y: int,
)
    requires
        before.wf(),
        cell > 0,
        0 <= x < before.width,
        0 <= y < before.height,
    ensures
        before.filled(Fill::Checker { cell, a: color_a, b: color_b }).at(x, y) == checker_color(
            cell as int,
            color_a,
            color_b,
            x,
            y,
        ),
{
    lemma_index_coords(before.width as int, before.height as int, x, y);
}

/// A checkerboard fill replaces everything: two surfaces of one size end up
/// equal whatever they held before.
pub proof fn lemma_checkerboard_replaces(
    first: SurfaceView,
    second: SurfaceView,
    cell: u16,
    color_a: Color,
    color_b: Color,
)
    requires
        first.wf(),
        second.wf(),
        first.width == second.width,
        first.height == second.height,
    ensures
        first.filled(Fill::Checker { cell, a: color_a, b: color_b }) == second.filled(
            Fill::Checker { cell, a: color_a, b: color_b },
        ),
{
    assert(first.filled(Fill::Checker { cell, a: color_a, b: color_b }).pixels =~= second.filled(
        Fill::Checker { cell, a: color_a, b: color_b },
    ).pixels);
}

/// Clearing twice with one color leaves the same surface as clearing once.
pub proof fn lemma_clear_idempotent(before: SurfaceView, color: Color)
    ensures
        before.filled(Fill::Flat(color)).filled(Fill::Flat(color)) == before.filled(
            Fill::Flat(color),
        ),
{
    assert(before.filled(Fill::Flat(color)).filled(Fill::Flat(color)).pixels =~= before.filled(
        Fill::Flat(color),
    ).pixels);
}

/// A drawing operation on a context.
#[derive(Clone, Copy, Debug, PartialEq, Eq, Structural)]
pub enum DrawOp {
    Clear(Color),
    Line { x0: i16, y0: i16, x1: i16, y1: i16, width: u16, color: Color },
    FillCircle { x: i16, y: i16, r: u16, color: Color },
    DrawCircle { x: i16, y: i16, r: u16, width: u16 },
    Checkerboard { cell_size: u16, color_a: Color, color_b: Color },
    HsvCircle { x: i16, y: i16, r: u16 },
}

impl DrawOp {
    /// A checkerboard needs a positive cell size.
    pub open spec fn valid(self) -> bool {
        match self {
            DrawOp::Checkerboard { cell_size, .. } => cell_size > 0,
            _ => true,
        }
    }
}

/// The surface after one operation.
pub open spec fn draw_result(op: DrawOp, s: SurfaceView) -> SurfaceView {
    match op {
        DrawOp::Clear(c) => s.filled(Fill::Flat(c)),
        DrawOp::Line { x0, y0, x1, y1, width, color } => s.filled(
            Fill::Paint(Shape::Segment { x0, y0, x1, y1, width }, color),
        ),
        DrawOp::FillCircle { x, y, r, color } => s.filled(
            Fill::Paint(Shape::Disc { cx: x, cy: y, r }, color),
        ),
        DrawOp::DrawCircle { x, y, r, width } => s.filled(
            Fill::Paint(Shape::Ring { cx: x, cy: y, r, width }, Color { r: 0, g: 0, b: 0, a: 255 }),
        ),
        DrawOp::Checkerboard { cell_size, color_a, color_b } => s.filled(
            Fill::Checker { cell: cell_size, a: color_a, b: color_b },
        ),
        DrawOp::HsvCircle { x, y, r } => s.filled(Fill::Wheel { x, y, r }),
    }
}

/// The surface after a sequence of operations, first to last.
pub open spec fn draw_all(ops: Seq<DrawOp>, s: SurfaceView) -> SurfaceView
    decreases ops.len(),
{
    if ops.len() == 0 {
        s
    } else {
        draw_result(ops.last(), draw_all(ops.drop_last(), s))
    }
}

impl VirtualContext {
    /// Both surfaces agree pixel for pixel, and both surfaces and every
    /// program agree on one size. Every public operation keeps this.
    pub closed spec fn wf(&self) -> bool {
        &&& self.sized()
        &&& self.raster@ == self.accelerated@
    }

    /// Both surfaces and every program agree on one size; the pixels may
    /// differ while one operation runs.
    closed spec fn sized(&self) -> bool {
        &&& self.raster.wf()
        &&& self.accelerated.wf()
        &&& self.accelerated@.width == self.raster@.width
        &&& self.accelerated@.height == self.raster@.height
        &&& self.hsv_circle.width == self.raster@.width
        &&& self.hsv_circle.height == self.raster@.height
        &&& self.copy_image.width == self.raster@.width
        &&& self.copy_image.height == self.raster@.height
        &&& self.checkerboard.width == self.raster@.width
        &&& self.checkerboard.height == self.raster@.height
    }

    /// The raster surface: what readers of the context see.
    pub closed spec fn surface(&self) -> SurfaceView {
        self.raster@
    }

    /// The accelerated surface.
    pub closed spec fn accelerated_surface(&self) -> SurfaceView {
        self.accelerated@
    }

    /// The backend that produced the latest content.
    pub closed spec fn latest(&self) -> Backend {
        self.latest
    }

    pub proof fn lemma_wf(&self)
        requires
            self.wf(),
        ensures
            self.surface().wf(),
            self.accelerated_surface().wf(),
            self.accelerated_surface() == self.surface(),
    {
    }

    /// A context whose two surfaces have the given size, every pixel
    /// transparent black.
    pub fn new(width: u16, height: u16) -> (c: VirtualContext)
        ensures
            c.wf(),
            c.surface() == Surface::new_view(width, height),
            c.latest() == Backend::Raster,
    {
        VirtualContext {
            raster: Surface::new(width, height),
            accelerated: Surface::new(width, height),
            hsv_circle: HsvCircleShader::new(width, height),
            copy_image: CopyImageShader::new(width, height),
            checkerboard: CheckerboardShader::new(width, height),
            latest: Backend::Raster,
        }
    }

    /// Raster to accelerated: the raster pixels replace the accelerated ones.
    fn flush_2d_to_gl(&mut self)
        requires
            old(self).sized(),
        ensures
            final(self).sized(),
            final(self).raster@ == old(self).raster@,
            final(self).accelerated@ == old(self).raster@,
            final(self).latest == old(self).latest,
    {
        let w = self.raster.width();
        let h = self.raster.height();
        proof {
            lemma_full_copy(self.accelerated@, self.raster@);
        }
        self.copy_image.draw(&mut self.accelerated, 0, 0, w as i32, h as i32, &self.raster);
    }

    /// Accelerated to raster: the accelerated pixels replace the raster
    /// ones, so nothing the accelerated pass left untouched is blended twice.
    fn flush_gl_to_2d(&mut self)
        requires
            old(self).sized(),
        ensures
            final(self).sized(),
            final(self).accelerated@ == old(self).accelerated@,
            final(self).raster@ == old(self).accelerated@,
            final(self).latest == old(self).latest,
    {
        let w = self.accelerated.width();
        let h = self.accelerated.height();
        proof {
            lemma_full_copy(self.raster@, self.accelerated@);
        }
        self.raster.blit(&self.accelerated, Rectangle::new(0, 0, w as i32, h as i32), Composite::Copy);
    }

    /// Makes the other backend agree with the one that produced the latest
    /// content: exactly one copy, in one direction.
    fn synchronize(&mut self)
        requires
            old(self).sized(),
        ensures
            final(self).sized(),
            final(self).latest == old(self).latest,
            old(self).latest == Backend::Raster ==> final(self).raster@ == old(self).raster@
                && final(self).accelerated@ == old(self).raster@,
            old(self).latest == Backend::Accelerated ==> final(self).accelerated@ == old(self).accelerated@ && final(self).raster@ == old(self).accelerated@,
    {
        match self.latest {
            Backend::Raster => self.flush_2d_to_gl(),
            Backend::Accelerated => self.flush_gl_to_2d(),
        }
    }

    /// Runs a fill on the raster surface, then synchronizes.
    fn raster_fill(&mut self, f: Fill)
        requires
            old(self).wf(),
            f.valid(),
        ensures
            final(self).wf(),
            final(self).surface() == old(self).surface().filled(f),
            final(self).latest() == Backend::Raster,
    {
        self.raster.fill(f);
        self.latest = Backend::Raster;
        self.synchronize();
    }

    /// Fills the whole surface with `color`, replacing what it held.
    pub fn clear(&mut self, color: Color)
        requires
            old(self).wf(),
        ensures
            final(self).wf(),
            final(self).surface() == old(self).surface().filled(Fill::Flat(color)),
            final(self).latest() == Backend::Raster,
    {
        self.raster_fill(Fill::Flat(color));
    }

    /// Strokes the segment from `(x0, y0)` to `(x1, y1)` with the given width
    /// and color.
    pub fn line(&mut self, x0: i16, y0: i16, x1: i16, y1: i16, width: u16, color: Color)
        requires
            old(self).wf(),
        ensures
            final(self).wf(),
            final(self).surface() == old(self).surface().filled(
                Fill::Paint(Shape::Segment { x0, y0, x1, y1, width }, color),
            ),
            final(self).latest() == Backend::Raster,
    {
        self.raster_fill(Fill::Paint(Shape::Segment { x0, y0, x1, y1, width }, color));
    }

    /// Fills the disk with center `(x, y)` and radius `r`.
    pub fn fill_circle(&mut self, x: i16, y: i16, r: u16, color: Color)
        requires
            old(self).wf(),
        ensures
            final(self).wf(),
            final(self).surface() == old(self).surface().filled(
                Fill::Paint(Shape::Disc { cx: x, cy: y, r }, color),
            ),
            final(self).latest() == Backend::Raster,
    {
        self.raster_fill(Fill::Paint(Shape::Disc { cx: x, cy: y, r }, color));
    }

    /// Strokes the circle with center `(x, y)` and radius `r` in black, with
    /// the given line width.
    pub fn draw_circle(&mut self, x: i16, y: i16, r: u16, width: u16)
        requires
            old(self).wf(),
        ensures
            final(self).wf(),
            final(self).surface() == old(self).surface().filled(
                Fill::Paint(
                    Shape::Ring { cx: x, cy: y, r, width },
                    Color { r: 0, g: 0, b: 0, a: 255 },
                ),
            ),
            final(self).latest() == Backend::Raster,
    {
        self.raster_fill(Fill::Paint(Shape::Ring { cx: x, cy: y, r, width }, Color::black()));
    }

    /// Draws `image` at the origin, at its own size, blended over this
    /// surface.
    pub fn draw_image(&mut self, image: &Surface)
        requires
            old(self).wf(),
            image.wf(),
        ensures
            final(self).wf(),
            final(self).surface() == old(self).surface().blitted(
                image@,
                full_rect(image@),
                Composite::SourceOver,
            ),
            final(self).latest() == Backend::Raster,
    {
        let w = image.width();
        let h = image.height();
        self.draw_image_bounded(image, Rectangle::new(0, 0, w as i32, h as i32));
    }

    /// Draws `image` stretched over `bounds`, blended over this surface.
    pub fn draw_image_bounded(&mut self, image: &Surface, bounds: Rectangle)
        requires
            old(self).wf(),
            image.wf(),
        ensures
            final(self).wf(),
            final(self).surface() == old(self).surface().blitted(
                image@,
                bounds,
                Composite::SourceOver,
            ),
            final(self).latest() == Backend::Raster,
    {
        self.raster.blit(image, bounds, Composite::SourceOver);
        self.latest = Backend::Raster;
        self.synchronize();
    }

    /// Renders the checkerboard with the accelerated backend, then copies the
    /// result to the raster surface.
    pub fn checkerboard(&mut self, cell_size: u16, color_a: Color, color_b: Color)
        requires
            old(self).wf(),
            cell_size > 0,
        ensures
            final(self).wf(),
            final(self).surface() == old(self).surface().filled(
                Fill::Checker { cell: cell_size, a: color_a, b: color_b },
            ),
            forall|x: int, y: int|
                0 <= x < final(self).surface().width && 0 <= y < final(self).surface().height
                    ==> #[trigger] final(self).surface().at(x, y) == checker_color(
                    cell_size as int,
                    color_a,
                    color_b,
                    x,
                    y,
                ),
            final(self).latest() == Backend::Accelerated,
    {
        self.checkerboard.draw(&mut self.accelerated, cell_size, color_a, color_b);
        self.latest = Backend::Accelerated;
        self.synchronize();
        proof {
            assert forall|x: int, y: int|
                0 <= x < self.surface().width && 0 <= y < self.surface().height implies #[trigger] self.surface().at(
                x,
                y,
            ) == checker_color(cell_size as int, color_a, color_b, x, y) by {
                lemma_checkerboard_pixel(
                    old(self).accelerated@,
                    cell_size,
                    color_a,
                    color_b,
                    x,
                    y,
                );
            }
        }
    }

    /// Renders the color wheel with center `(x, y)` and radius `r` with the
    /// accelerated backend, then copies the result to the raster surface.
    /// Pixels outside the wheel keep their values.
    pub fn hsv_circle(&mut self, x: i16, y: i16, r: u16)
        requires
            old(self).wf(),
        ensures
            final(self).wf(),
            final(self).surface() == old(self).surface().filled(
                Fill::Wheel { x, y, r },
            ),
            final(self).latest() == Backend::Accelerated,
    {
        self.hsv_circle.draw(&mut self.accelerated, x, y, r);
        self.latest = Backend::Accelerated;
        self.synchronize();
    }

    /// Runs one drawing operation.
    pub fn apply(&mut self, op: DrawOp)
        requires
            old(self).wf(),
            op.valid(),
        ensures
            final(self).wf(),
            final(self).surface() == draw_result(op, old(self).surface()),
    {
        match op {
            DrawOp::Clear(c) => self.clear(c),
            DrawOp::Line { x0, y0, x1, y1, width, color } => self.line(
                x0,
                y0,
                x1,
                y1,
                width,
                color,
            ),
            DrawOp::FillCircle { x, y, r, color } => self.fill_circle(x, y, r, color),
            DrawOp::DrawCircle { x, y, r, width } => self.draw_circle(x, y, r, width),
            DrawOp::Checkerboard { cell_size, color_a, color_b } => self.checkerboard(
                cell_size,
                color_a,
                color_b,
            ),
            DrawOp::HsvCircle { x, y, r } => self.hsv_circle(x, y, r),
        }
    }

    /// Runs the operations in order.
    pub fn apply_all(&mut self, ops: &Vec<DrawOp>)
        requires
            old(self).wf(),
            forall|i: int| 0 <= i < ops@.len() ==> (#[trigger] ops@[i]).valid(),
        ensures
            final(self).wf(),
            final(self).surface() == draw_all(ops@, old(self).surface()),
    {
        let mut i: usize = 0;
        while i < ops.len()
            invariant
                self.wf(),
                i <= ops@.len(),
                forall|k: int| 0 <= k < ops@.len() ==> (#[trigger] ops@[k]).valid(),
                self.surface() == draw_all(ops@.subrange(0, i as int), old(self).surface()),
            decreases ops@.len() - i,
        {
            proof {
                assert(ops@.subrange(0, i + 1).drop_last() =~= ops@.subrange(0, i as int));
            }
            self.apply(ops[i]);
            i += 1;
        }
        assert(ops@.subrange(0, ops@.len() as int) =~= ops@);
    }

    /// The raster surface, for reading.
    pub fn get_canvas(&self) -> (s: &Surface)
        ensures
            s@ == self.surface(),
            self.wf() ==> s.wf(),
    {
        &self.raster
    }

    /// Gives both surfaces and every program the new size at once; every
    /// pixel becomes transparent black.
    pub fn set_size(&mut self, width: u16, height: u16)
        requires
            old(self).wf(),
        ensures
            final(self).wf(),
            final(self).surface() == Surface::new_view(width, height),
            final(self).latest() == old(self).latest(),
    {
        self.raster.resize(width, height);
        self.accelerated.resize(width, height);
        self.checkerboard.set_size(width, height);
        self.hsv_circle.set_size(width, height);
        self.copy_image.set_size(width, height);
    }

    pub fn width(&self) -> (w: u16)
        ensures
            w == self.surface().width,
    {
        self.raster.width()
    }

    pub fn height(&self) -> (h: u16)
        ensures
            h == self.surface().height,
    {
        self.raster.height()
    }
}

} // verus!

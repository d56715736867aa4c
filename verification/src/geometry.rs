//! Geometry for the renderer: every placed image and every highlight
//! becomes a quad of two triangles, six vertices in a flat list.
//!
//! Positions are in units of length from the surface's origin, x to the
//! right and y down. Texture coordinates are in atlas pixels; a highlight
//! is a solid fill and has (0, 0) at all six vertices.

use crate::atlas::Glyph;
use crate::color::Rgba;
use crate::font::UNITS_PER_PIXEL;
use vstd::prelude::*;

verus! {

/// One corner of a triangle.
#[derive(Clone, Copy, Debug, PartialEq, Eq)]
pub struct Vertex {
    pub position: (i64, i64),
    pub uv: (u32, u32),
    pub color: Rgba,
}

/// An axis-aligned rectangle by its left, top, right and bottom edge.
pub struct Rect {
    pub left: int,
    pub top: int,
    pub right: int,
    pub bottom: int,
}

/// The corner of a quad at (`x`, `y`) with texture coordinate (`u`, `v`).
pub open spec fn corner(x: int, y: int, u: u32, v: u32, color: Rgba) -> Vertex {
    Vertex { position: (x as i64, y as i64), uv: (u, v), color }
}

/// The six vertices of the rectangle `r`, textured from `uv_min` at its
/// top-left corner to `uv_max` at its bottom-right corner: the triangle of
/// top-left, top-right and bottom-left, then that of top-right,
/// bottom-right and bottom-left.
pub open spec fn quad(r: Rect, uv_min: (u32, u32), uv_max: (u32, u32), color: Rgba) -> Seq<Vertex> {
    seq![
        corner(r.left, r.top, uv_min.0, uv_min.1, color),
        corner(r.right, r.top, uv_max.0, uv_min.1, color),
        corner(r.left, r.bottom, uv_min.0, uv_max.1, color),
        corner(r.right, r.top, uv_max.0, uv_min.1, color),
        corner(r.right, r.bottom, uv_max.0, uv_max.1, color),
        corner(r.left, r.bottom, uv_min.0, uv_max.1, color),
    ]
}

/// Where the image of `g` lies when the pen is at (`pen_x`, `pen_y`): the
/// bearing leads from the pen to its top-left corner.
pub open spec fn glyph_rect(pen_x: int, pen_y: int, g: Glyph) -> Rect {
    Rect {
        left: pen_x + g.bearing.0 * UNITS_PER_PIXEL,
        top: pen_y + g.bearing.1 * UNITS_PER_PIXEL,
        right: pen_x + g.bearing.0 * UNITS_PER_PIXEL + g.size.0 * UNITS_PER_PIXEL,
        bottom: pen_y + g.bearing.1 * UNITS_PER_PIXEL + g.size.1 * UNITS_PER_PIXEL,
    }
}

/// Where the highlight of a character lies when the pen is at (`pen_x`,
/// `pen_y`): as wide as the character's advance and as high as the line,
/// from the line's top, which is `ascent` above the pen.
pub open spec fn background_rect(pen_x: int, pen_y: int, advance: int, line_height: int, ascent: int) -> Rect {
    Rect {
        left: pen_x,
        top: pen_y - ascent,
        right: pen_x + advance,
        bottom: pen_y - ascent + line_height,
    }
}

/// The quad of the image of `g` in `color`, the pen at (`pen_x`, `pen_y`).
pub open spec fn glyph_quad(pen_x: int, pen_y: int, g: Glyph, color: Rgba) -> Seq<Vertex> {
    quad(glyph_rect(pen_x, pen_y, g), g.uv_min, g.uv_max, color)
}

/// The quad of a highlight in `color`, the pen at (`pen_x`, `pen_y`).
pub open spec fn background_quad(
    pen_x: int,
    pen_y: int,
    advance: int,
    line_height: int,
    ascent: int,
    color: Rgba,
) -> Seq<Vertex> {
    quad(background_rect(pen_x, pen_y, advance, line_height, ascent), (0, 0), (0, 0), color)
}

/// The furthest that a pen may be from the origin for its quads to be
/// built: far beyond any viewport, and near enough that no corner leaves the
/// range of the coordinates.
pub const PEN_LIMIT: i64 = 0x1000_0000_0000_0000;

/// Collects quads in the order in which they are to be drawn.
#[derive(Debug)]
pub struct GeometryBuilder {
    pub vertices: Vec<Vertex>,
}

impl View for GeometryBuilder {
    type V = Seq<Vertex>;

    open spec fn view(&self) -> Seq<Vertex> {
        self.vertices@
    }
}

impl GeometryBuilder {
    /// A builder without quads.
    pub fn new() -> (b: GeometryBuilder)
        ensures
            b@ == Seq::<Vertex>::empty(),
    {
        GeometryBuilder { vertices: Vec::new() }
    }

    /// Appends the quad of the rectangle from (`left`, `top`) to (`right`,
    /// `bottom`).
    pub fn push_quad(
        &mut self,
        left: i64,
        top: i64,
        right: i64,
        bottom: i64,
        uv_min: (u32, u32),
        uv_max: (u32, u32),
        color: Rgba,
    )
        ensures
            final(self)@ == old(self)@ + quad(
                Rect { left: left as int, top: top as int, right: right as int, bottom: bottom as int },
                uv_min,
                uv_max,
                color,
            ),
    {
        self.vertices.push(Vertex { position: (left, top), uv: (uv_min.0, uv_min.1), color });
        self.vertices.push(Vertex { position: (right, top), uv: (uv_max.0, uv_min.1), color });
        self.vertices.push(Vertex { position: (left, bottom), uv: (uv_min.0, uv_max.1), color });
        self.vertices.push(Vertex { position: (right, top), uv: (uv_max.0, uv_min.1), color });
        self.vertices.push(Vertex { position: (right, bottom), uv: (uv_max.0, uv_max.1), color });
        self.vertices.push(Vertex { position: (left, bottom), uv: (uv_min.0, uv_max.1), color });
        assert(self@ =~= old(self)@ + quad(
            Rect { left: left as int, top: top as int, right: right as int, bottom: bottom as int },
            uv_min,
            uv_max,
            color,
        ));
    }

    /// Appends the quad of the image of `g` in `color`, the pen at
    /// (`pen_x`, `pen_y`).
    pub fn push_glyph(&mut self, pen_x: i64, pen_y: i64, g: &Glyph, color: Rgba)
        requires
            -PEN_LIMIT <= pen_x <= PEN_LIMIT,
            -PEN_LIMIT <= pen_y <= PEN_LIMIT,
        ensures
            final(self)@ == old(self)@ + glyph_quad(pen_x as int, pen_y as int, *g, color),
    {
        assert(UNITS_PER_PIXEL == 64);
        let left: i64 = pen_x + g.bearing.0 as i64 * 64;
        let top: i64 = pen_y + g.bearing.1 as i64 * 64;
        let right: i64 = left + g.size.0 as i64 * 64;
        let bottom: i64 = top + g.size.1 as i64 * 64;
        self.push_quad(left, top, right, bottom, g.uv_min, g.uv_max, color);
    }

    /// Appends the quad of a highlight in `color`, the pen at (`pen_x`,
    /// `pen_y`).
    pub fn push_background(
        &mut self,
        pen_x: i64,
        pen_y: i64,
        advance: u32,
        line_height: u32,
        ascent: u32,
        color: Rgba,
    )
        requires
            -PEN_LIMIT <= pen_x <= PEN_LIMIT,
            -PEN_LIMIT <= pen_y <= PEN_LIMIT,
        ensures
            final(self)@ == old(self)@ + background_quad(
                pen_x as int,
                pen_y as int,
                advance as int,
                line_height as int,
                ascent as int,
                color,
            ),
    {
        let top: i64 = pen_y - ascent as i64;
        self.push_quad(pen_x, top, pen_x + advance as i64, top + line_height as i64, (0, 0), (0, 0), color);
    }

    /// The number of vertices so far: six for each quad.
    pub fn len(&self) -> (n: usize)
        ensures
            n == self@.len(),
    {
        self.vertices.len()
    }
}

} // verus!

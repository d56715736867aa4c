//! The layout engine: a surface with a pen that writes colored characters
//! into a viewport and tells when they no longer fit.
//!
//! [`TextSurface`] is the capability to write; code that shows text is
//! written against it. [`LayoutSurface`] is the surface that has it: it
//! places the glyphs of an atlas and collects their geometry.
//!
//! The pen stands on the baseline of the line that is being written. A
//! character fits when the pen can advance by its width without leaving the
//! viewport on the right and the line's lower edge is inside the viewport.
//! A character that does not fit changes nothing. A line break always moves
//! the pen, and then tells whether the new line is still inside.

use crate::atlas::{Glyph, GlyphAtlas, glyph_in};
use crate::font::{FontFace, raw_advance};
use crate::geometry::{GeometryBuilder, PEN_LIMIT, Vertex, background_quad, glyph_quad};
use crate::text::{ColoredChar, ColoredLine, ColoredText, lemma_total_len_prefix, total_len};
use std::collections::HashMap;
use vstd::prelude::*;

verus! {

/// The frame of a layout pass: the viewport, the line metrics and the left
/// margin, all in units of length.
#[derive(Clone, Copy, Debug, PartialEq, Eq)]
pub struct LayoutBounds {
    pub viewport_w: u32,
    pub viewport_h: u32,
    /// From one baseline to the next.
    pub line_height: u32,
    /// From a line's top to its baseline.
    pub ascent: u32,
    /// Where the pen returns to at a line break.
    pub left_margin: i32,
}

/// How a write ended: everything was written, or the viewport was full
/// after `written` characters.
#[derive(Clone, Copy, Debug, PartialEq, Eq)]
pub enum WriteResult {
    Written,
    Overflow { written: usize },
}

/// The glyph metrics that a surface lays out with.
pub struct Metrics {
    pub glyphs: Map<u32, Glyph>,
    pub font: Seq<u8>,
    pub px: u16,
}

/// What changes during a layout pass: the pen and the geometry so far.
pub struct SurfaceModel {
    pub x: int,
    pub y: int,
    pub vertices: Seq<Vertex>,
}

/// The glyph of `ch`, if the atlas has one.
pub open spec fn glyph_for(m: Metrics, ch: char) -> Option<Glyph> {
    glyph_in(m.glyphs, ch)
}

/// The advance of `ch`: that of its glyph, or, without a glyph, the one
/// that the font itself gives.
pub open spec fn advance_for(m: Metrics, ch: char) -> int {
    match glyph_for(m, ch) {
        Some(g) => g.advance as int,
        None => raw_advance(m.font, m.px, ch),
    }
}

/// Whether a line with its baseline at `y` ends inside the viewport.
pub open spec fn room_below(b: LayoutBounds, y: int) -> bool {
    y + b.line_height - b.ascent <= b.viewport_h
}

/// Whether a character of width `advance` fits at the pen.
pub open spec fn fits(b: LayoutBounds, s: SurfaceModel, advance: int) -> bool {
    s.x + advance <= b.viewport_w && room_below(b, s.y)
}

/// The surface after a line break: the pen at the left margin, one line
/// further down, or at the end of the coordinates' range if that is nearer.
pub open spec fn broken(b: LayoutBounds, s: SurfaceModel) -> SurfaceModel {
    SurfaceModel {
        x: b.left_margin as int,
        y: if s.y + b.line_height > i64::MAX {
            i64::MAX as int
        } else {
            s.y + b.line_height
        },
        vertices: s.vertices,
    }
}

/// The quads of one character at the pen: its highlight, if it has one,
/// and after that its image, if it has one.
pub open spec fn char_quads(
    b: LayoutBounds,
    s: SurfaceModel,
    c: ColoredChar,
    glyph: Option<Glyph>,
    advance: int,
) -> Seq<Vertex> {
    let highlight = match c.background_color {
        Some(bg) => background_quad(s.x, s.y, advance, b.line_height as int, b.ascent as int, bg),
        None => Seq::empty(),
    };
    let image = match glyph {
        Some(g) => glyph_quad(s.x, s.y, g, c.color),
        None => Seq::empty(),
    };
    highlight + image
}

/// The surface after a character that fits was written.
pub open spec fn placed(
    b: LayoutBounds,
    s: SurfaceModel,
    c: ColoredChar,
    glyph: Option<Glyph>,
    advance: int,
) -> SurfaceModel {
    SurfaceModel { x: s.x + advance, y: s.y, vertices: s.vertices + char_quads(b, s, c, glyph, advance) }
}

/// The surface after `c` was offered, and whether it overflowed. A carriage
/// return does nothing, a line feed breaks the line, and any other
/// character is written if it fits and leaves the surface as it was if not.
pub open spec fn after_char(
    b: LayoutBounds,
    s: SurfaceModel,
    c: ColoredChar,
    glyph: Option<Glyph>,
    advance: int,
) -> (SurfaceModel, bool) {
    if c.ch == '\r' {
        (s, false)
    } else if c.ch == '\n' {
        (broken(b, s), !room_below(b, broken(b, s).y))
    } else if !fits(b, s, advance) {
        (s, true)
    } else {
        (placed(b, s, c, glyph, advance), false)
    }
}

/// No change on overflow: a character that does not fit, be it for its
/// width or for the line's lower edge, overflows and leaves the pen and the
/// geometry as they were.
pub proof fn lemma_overflow_changes_nothing(
    b: LayoutBounds,
    s: SurfaceModel,
    c: ColoredChar,
    glyph: Option<Glyph>,
    advance: int,
)
    requires
        c.ch != '\r',
        c.ch != '\n',
        s.x + advance > b.viewport_w || s.y + b.line_height - b.ascent > b.viewport_h,
    ensures
        after_char(b, s, c, glyph, advance) == (s, true),
{
}

/// Highlight without image: a highlighted character that fits and has no
/// glyph yields the six vertices of its highlight and nothing else.
pub proof fn lemma_highlight_without_glyph(b: LayoutBounds, s: SurfaceModel, c: ColoredChar, advance: int)
    requires
        c.ch != '\r',
        c.ch != '\n',
        c.background_color is Some,
        fits(b, s, advance),
    ensures
        after_char(b, s, c, None, advance).0.vertices == s.vertices + background_quad(
            s.x,
            s.y,
            advance,
            b.line_height as int,
            b.ascent as int,
            c.background_color->0,
        ),
        after_char(b, s, c, None, advance).0.vertices.len() == s.vertices.len() + 6,
        after_char(b, s, c, None, advance).0.x == s.x + advance,
        !after_char(b, s, c, None, advance).1,
{
    let quad = background_quad(s.x, s.y, advance, b.line_height as int, b.ascent as int, c.background_color->0);
    assert(quad + Seq::<Vertex>::empty() =~= quad);
}

/// `n` more characters written before an overflow, if there was one.
pub open spec fn and_written(n: nat, r: Option<nat>) -> Option<nat> {
    match r {
        Some(k) => Some(n + k),
        None => None,
    }
}

/// The surface after the characters of `chars` were offered in order, up
/// to the first that overflowed, and the number written before that one,
/// if one overflowed.
pub open spec fn after_line(b: LayoutBounds, m: Metrics, s: SurfaceModel, chars: Seq<ColoredChar>) -> (
    SurfaceModel,
    Option<nat>,
)
    decreases chars.len(),
{
    if chars.len() == 0 {
        (s, None)
    } else {
        let c = chars[0];
        let (s1, overflow) = after_char(b, s, c, glyph_for(m, c.ch), advance_for(m, c.ch));
        if overflow {
            (s1, Some(0nat))
        } else {
            let (s2, r) = after_line(b, m, s1, chars.drop_first());
            (s2, and_written(1, r))
        }
    }
}

/// The lines that still fit below a baseline at `y`, and one.
pub open spec fn room(b: LayoutBounds, y: int) -> nat {
    if b.viewport_h + b.ascent - b.line_height - y >= 0 {
        (b.viewport_h + b.ascent - b.line_height - y + 1) as nat
    } else {
        0
    }
}

/// The surface after `chars` were written with wrapping: whenever a
/// character overflows the line is broken, and the rest is written from
/// there; when the break itself overflows the writing ends. With it the
/// number of characters written, if it ended so.
pub open spec fn after_wrapped(b: LayoutBounds, m: Metrics, s: SurfaceModel, chars: Seq<ColoredChar>) -> (
    SurfaceModel,
    Option<nat>,
)
    decreases chars.len(), room(b, s.y),
    when b.line_height > 0 && s.y <= i64::MAX
{
    let (s1, r) = after_line(b, m, s, chars);
    match r {
        None => (s1, None),
        Some(n) => {
            let s2 = broken(b, s1);
            if !room_below(b, s2.y) {
                (s2, Some(n))
            } else {
                proof {
                    lemma_after_line_bounds(b, m, s, chars);
                }
                let (s3, r3) = after_wrapped(b, m, s2, chars.skip(n as int));
                (s3, and_written(n, r3))
            }
        },
    }
}

/// A line never writes more characters than it has, and never moves the
/// pen up.
pub proof fn lemma_after_line_bounds(b: LayoutBounds, m: Metrics, s: SurfaceModel, chars: Seq<ColoredChar>)
    requires
        s.y <= i64::MAX,
    ensures
        s.y <= after_line(b, m, s, chars).0.y <= i64::MAX,
        after_line(b, m, s, chars).1 is Some ==> after_line(b, m, s, chars).1->0 < chars.len(),
    decreases chars.len(),
{
    if chars.len() > 0 {
        let c = chars[0];
        let (s1, overflow) = after_char(b, s, c, glyph_for(m, c.ch), advance_for(m, c.ch));
        if !overflow {
            lemma_after_line_bounds(b, m, s1, chars.drop_first());
        }
    }
}

/// The views of lines.
pub open spec fn line_views(lines: Seq<ColoredLine>) -> Seq<Seq<ColoredChar>> {
    Seq::new(lines.len(), |i: int| lines[i]@)
}

/// The surface after the first `upto` of `lines` were written as a block:
/// each as far as it fits, and the line broken after each.
pub open spec fn after_block(
    b: LayoutBounds,
    m: Metrics,
    s: SurfaceModel,
    lines: Seq<Seq<ColoredChar>>,
    upto: int,
) -> SurfaceModel
    decreases upto,
{
    if upto <= 0 {
        s
    } else {
        broken(b, after_line(b, m, after_block(b, m, s, lines, upto - 1), lines[upto - 1]).0)
    }
}

/// Wrapping never writes more characters than the line has.
pub proof fn lemma_after_wrapped_bounds(b: LayoutBounds, m: Metrics, s: SurfaceModel, chars: Seq<ColoredChar>)
    requires
        b.line_height > 0,
        s.y <= i64::MAX,
    ensures
        after_wrapped(b, m, s, chars).0.y <= i64::MAX,
        after_wrapped(b, m, s, chars).1 is Some ==> after_wrapped(b, m, s, chars).1->0 <= chars.len(),
    decreases chars.len(), room(b, s.y),
{
    lemma_after_line_bounds(b, m, s, chars);
    let (s1, r) = after_line(b, m, s, chars);
    if r is Some {
        let s2 = broken(b, s1);
        if room_below(b, s2.y) {
            lemma_after_wrapped_bounds(b, m, s2, chars.skip(r->0 as int));
        }
    }
}

/// The surface after the lines of a text were written, each wrapped and
/// the line broken after each, up to the first overflow of a line or of
/// a break; and the number of characters written, if it ended so.
pub open spec fn after_text(b: LayoutBounds, m: Metrics, s: SurfaceModel, lines: Seq<Seq<ColoredChar>>) -> (
    SurfaceModel,
    Option<nat>,
)
    decreases lines.len(),
{
    if lines.len() == 0 {
        (s, None)
    } else {
        let (s1, r1) = after_wrapped(b, m, s, lines[0]);
        match r1 {
            Some(n) => (s1, Some(n)),
            None => {
                let s2 = broken(b, s1);
                if !room_below(b, s2.y) {
                    (s2, Some(lines[0].len()))
                } else {
                    let (s3, r3) = after_text(b, m, s2, lines.drop_first());
                    (s3, and_written(lines[0].len(), r3))
                }
            },
        }
    }
}

/// The outcome that a result stands for: the number written before an
/// overflow, if there was one.
pub open spec fn outcome(r: WriteResult) -> Option<nat> {
    match r {
        WriteResult::Written => None,
        WriteResult::Overflow { written } => Some(written as nat),
    }
}

impl LayoutBounds {
    /// Lines have a positive height: else text that never fits would be
    /// wrapped without end.
    pub open spec fn wf(&self) -> bool {
        self.line_height > 0
    }
}

/// The capability to write text into a viewport: a pen, a frame, and the
/// four ways to write. Code that shows text depends on this capability
/// alone, not on the surface that it writes on.
pub trait TextSurface {
    /// The frame that the surface was made with.
    spec fn bounds(&self) -> LayoutBounds;

    /// The metrics that the surface was made with.
    spec fn metrics(&self) -> Metrics;

    /// The pen and the geometry so far.
    spec fn state(&self) -> SurfaceModel;

    /// Whether the surface is in a state to be written on.
    spec fn wf(&self) -> bool;

    /// Writes one character at the pen. A carriage return does nothing and
    /// a line feed breaks the line. Any other character is written if it
    /// fits: its highlight, if it has one, then its image, if it has one,
    /// and the pen advances. If it does not fit, the result is an overflow
    /// with nothing written, and the surface is as it was.
    fn write_char(&mut self, c: &ColoredChar) -> (r: WriteResult)
        requires
            old(self).wf(),
        ensures
            final(self).wf(),
            final(self).bounds() == old(self).bounds(),
            final(self).metrics() == old(self).metrics(),
            (final(self).state(), outcome(r) is Some) == after_char(
                old(self).bounds(),
                old(self).state(),
                *c,
                glyph_for(old(self).metrics(), c.ch),
                advance_for(old(self).metrics(), c.ch),
            ),
            r == WriteResult::Written || r == (WriteResult::Overflow { written: 0 }),
            c.ch != '\r' && c.ch != '\n' && !fits(
                old(self).bounds(),
                old(self).state(),
                advance_for(old(self).metrics(), c.ch),
            ) ==> r == (WriteResult::Overflow { written: 0 }) && final(self).state() == old(self).state(),
            c.ch != '\r' && c.ch != '\n' && fits(
                old(self).bounds(),
                old(self).state(),
                advance_for(old(self).metrics(), c.ch),
            ) && glyph_for(old(self).metrics(), c.ch) is None ==> final(self).state().vertices == old(self).state().vertices + match c.background_color {
                Some(bg) => background_quad(
                    old(self).state().x,
                    old(self).state().y,
                    advance_for(old(self).metrics(), c.ch),
                    old(self).bounds().line_height as int,
                    old(self).bounds().ascent as int,
                    bg,
                ),
                None => Seq::empty(),
            },
    ;

    /// Writes the characters of `line` in order and stops at the first
    /// that overflows: the result then tells how many were written before
    /// it. The line is not broken, before or after.
    fn write_line(&mut self, line: &ColoredLine) -> (r: WriteResult)
        requires
            old(self).wf(),
        ensures
            final(self).wf(),
            final(self).bounds() == old(self).bounds(),
            final(self).metrics() == old(self).metrics(),
            (final(self).state(), outcome(r)) == after_line(
                old(self).bounds(),
                old(self).metrics(),
                old(self).state(),
                line@,
            ),
    ;

    /// Writes `line` and wraps it: at each character that overflows the
    /// line is broken, and the rest is written from the left margin of the
    /// next line. The wrap falls where the room ran out, wherever in a
    /// word that is. Ends with an overflow, and the number of characters
    /// written, when a break leads out of the viewport.
    fn write_line_wordwrap(&mut self, line: &ColoredLine) -> (r: WriteResult)
        requires
            old(self).wf(),
        ensures
            final(self).wf(),
            final(self).bounds() == old(self).bounds(),
            final(self).metrics() == old(self).metrics(),
            (final(self).state(), outcome(r)) == after_wrapped(
                old(self).bounds(),
                old(self).metrics(),
                old(self).state(),
                line@,
            ),
    ;

    /// Breaks the line: the pen returns to the left margin and moves one
    /// line down. Overflows when the new line ends outside the viewport;
    /// the pen has moved all the same, and nothing more should be written.
    fn write_break(&mut self) -> (r: WriteResult)
        requires
            old(self).wf(),
        ensures
            final(self).wf(),
            final(self).bounds() == old(self).bounds(),
            final(self).metrics() == old(self).metrics(),
            final(self).state() == broken(old(self).bounds(), old(self).state()),
            r == if room_below(old(self).bounds(), final(self).state().y) {
                WriteResult::Written
            } else {
                WriteResult::Overflow { written: 0 }
            },
    ;
}

/// The surface of the layout engine: it lays text out with the glyphs of
/// an atlas and the measures of a font, and collects the geometry.
pub struct LayoutSurface<'a> {
    face: &'a FontFace,
    atlas: &'a GlyphAtlas,
    bounds: LayoutBounds,
    pen_x: i64,
    pen_y: i64,
    geometry: GeometryBuilder,
    /// The advances that the font gave for characters without glyph, by
    /// code point: the font is asked once for each.
    advances: HashMap<u32, u32>,
}

impl<'a> TextSurface for LayoutSurface<'a> {
    /// The frame that the surface was made with.
    closed spec fn bounds(&self) -> LayoutBounds {
        self.bounds
    }

    /// The metrics that the surface was made with.
    closed spec fn metrics(&self) -> Metrics {
        Metrics {
            glyphs: self.atlas@.glyphs,
            font: self.face.bytes(),
            px: self.atlas@.px,
        }
    }

    /// The pen and the geometry so far.
    closed spec fn state(&self) -> SurfaceModel {
        SurfaceModel { x: self.pen_x as int, y: self.pen_y as int, vertices: self.geometry@ }
    }

    /// Lines have a positive height, and the pen has never been left of or
    /// above where a surface can be made to start.
    closed spec fn wf(&self) -> bool {
        &&& self.bounds.wf()
        &&& self.pen_x >= i32::MIN
        &&& self.pen_y >= i32::MIN
        &&& forall|ch: char| #[trigger]
            self.advances@.contains_key(ch as u32) ==> self.advances@[ch as u32] == raw_advance(
                self.face.bytes(),
                self.atlas@.px,
                ch,
            )
    }

    fn write_char(&mut self, c: &ColoredChar) -> (r: WriteResult) {
        let (glyph, advance) = match self.atlas.glyphs().get(c.ch) {
            Some(g) => (Some(g), g.advance),
            None => (None, self.font_advance(c.ch)),
        };
        let r = self.place_char(c, glyph, advance);
        proof {
            let s = old(self).state();
            match c.background_color {
                Some(bg) => {
                    assert(background_quad(
                        s.x,
                        s.y,
                        advance as int,
                        old(self).bounds().line_height as int,
                        old(self).bounds().ascent as int,
                        bg,
                    ) + Seq::<Vertex>::empty() =~= background_quad(
                        s.x,
                        s.y,
                        advance as int,
                        old(self).bounds().line_height as int,
                        old(self).bounds().ascent as int,
                        bg,
                    ));
                },
                None => {
                    assert(Seq::<Vertex>::empty() + Seq::<Vertex>::empty() =~= Seq::<Vertex>::empty());
                },
            }
        }
        r
    }

    fn write_line(&mut self, line: &ColoredLine) -> (r: WriteResult) {
        assert(line@.skip(0) =~= line@);
        self.write_from(&line.chars, 0)
    }

    fn write_line_wordwrap(&mut self, line: &ColoredLine) -> (r: WriteResult) {
        let ghost b = self.bounds();
        let ghost m = self.metrics();
        let mut start: usize = 0;
        assert(line@.skip(0) =~= line@);
        loop
            invariant
                start <= line@.len(),
                self.wf(),
                self.bounds() == b,
                self.metrics() == m,
                b == old(self).bounds(),
                m == old(self).metrics(),
                b.line_height > 0,
                after_wrapped(b, m, old(self).state(), line@) == ({
                    let (s, r) = after_wrapped(b, m, self.state(), line@.skip(start as int));
                    (s, and_written(start as nat, r))
                }),
            decreases line@.len() - start, room(b, self.state().y),
        {
            let ghost here = self.state();
            let ghost rest = line@.skip(start as int);
            proof {
                lemma_after_line_bounds(b, m, here, rest);
            }
            match self.write_from(&line.chars, start) {
                WriteResult::Written => {
                    return WriteResult::Written;
                },
                WriteResult::Overflow { written } => {
                    assert(written < rest.len());
                    assert(line@.len() == line.chars.len());
                    start = start + written;
                    assert(rest.skip(written as int) =~= line@.skip(start as int));
                    match self.write_break() {
                        WriteResult::Written => {},
                        WriteResult::Overflow { .. } => {
                            return WriteResult::Overflow { written: start };
                        },
                    }
                },
            }
        }
    }

    fn write_break(&mut self) -> (r: WriteResult) {
        let step: i64 = self.bounds.line_height as i64;
        self.pen_x = self.bounds.left_margin as i64;
        if self.pen_y > i64::MAX - step {
            self.pen_y = i64::MAX;
        } else {
            self.pen_y = self.pen_y + step;
        }
        let limit: i64 = self.bounds.viewport_h as i64 + self.bounds.ascent as i64 - step;
        if self.pen_y > limit {
            WriteResult::Overflow { written: 0 }
        } else {
            WriteResult::Written
        }
    }
}

impl<'a> LayoutSurface<'a> {
    /// A surface without geometry, the pen at (`x`, `y`).
    pub fn new(face: &'a FontFace, atlas: &'a GlyphAtlas, bounds: LayoutBounds, x: i32, y: i32) -> (s: Self)
        requires
            bounds.wf(),
        ensures
            s.wf(),
            s.bounds() == bounds,
            s.metrics() == (Metrics {
                glyphs: atlas@.glyphs,
                font: face.bytes(),
                px: atlas@.px,
            }),
            s.state() == (SurfaceModel { x: x as int, y: y as int, vertices: Seq::empty() }),
    {
        LayoutSurface {
            face,
            atlas,
            bounds,
            pen_x: x as i64,
            pen_y: y as i64,
            geometry: GeometryBuilder::new(),
            advances: HashMap::new(),
        }
    }

    /// Where the pen is.
    pub fn cursor(&self) -> (p: (i64, i64))
        ensures
            p.0 == self.state().x,
            p.1 == self.state().y,
    {
        (self.pen_x, self.pen_y)
    }

    /// The geometry so far, in drawing order.
    pub fn vertices(&self) -> (v: &Vec<Vertex>)
        ensures
            v@ == self.state().vertices,
    {
        &self.geometry.vertices
    }

    /// Ends the pass and hands out its geometry.
    pub fn into_vertices(self) -> (v: Vec<Vertex>)
        ensures
            v@ == self.state().vertices,
    {
        self.geometry.vertices
    }

    /// The advance that the font gives for `ch`, from the font or, if
    /// the font was asked before, from memory.
    fn font_advance(&mut self, ch: char) -> (r: u32)
        requires
            old(self).wf(),
        ensures
            final(self).wf(),
            final(self).bounds() == old(self).bounds(),
            final(self).metrics() == old(self).metrics(),
            final(self).state() == old(self).state(),
            r == raw_advance(old(self).metrics().font, old(self).metrics().px, ch),
    {
        let cp: u32 = ch as u32;
        let known = match self.advances.get(&cp) {
            Some(advance) => Some(*advance),
            None => None,
        };
        match known {
            Some(advance) => advance,
            None => {
                let advance = self.face.advance(self.atlas.px(), ch);
                self.advances.insert(cp, advance);
                advance
            },
        }
    }

    /// The advance of `ch` and its glyph, if it has one.
    pub fn measure(&self, ch: char) -> (r: (Option<Glyph>, u32))
        ensures
            r.0 == glyph_for(self.metrics(), ch),
            r.1 == advance_for(self.metrics(), ch),
    {
        match self.atlas.glyphs().get(ch) {
            Some(g) => (Some(g), g.advance),
            None => (None, self.face.advance(self.atlas.px(), ch)),
        }
    }

    /// Writes `c` as a character with the given glyph and advance. See
    /// [`after_char`].
    pub fn place_char(&mut self, c: &ColoredChar, glyph: Option<Glyph>, advance: u32) -> (r: WriteResult)
        requires
            old(self).wf(),
        ensures
            final(self).wf(),
            final(self).bounds() == old(self).bounds(),
            final(self).metrics() == old(self).metrics(),
            (final(self).state(), outcome(r) is Some) == after_char(
                old(self).bounds(),
                old(self).state(),
                *c,
                glyph,
                advance as int,
            ),
            r == WriteResult::Written || r == (WriteResult::Overflow { written: 0 }),
    {
        if c.ch == '\r' {
            return WriteResult::Written;
        }
        if c.ch == '\n' {
            return self.write_break();
        }
        let b = self.bounds;
        let limit_x: i64 = b.viewport_w as i64 - advance as i64;
        let limit_y: i64 = b.viewport_h as i64 + b.ascent as i64 - b.line_height as i64;
        if self.pen_x > limit_x || self.pen_y > limit_y {
            return WriteResult::Overflow { written: 0 };
        }
        let ghost before = self.geometry@;
        match c.background_color {
            Some(bg) => {
                self.geometry.push_background(self.pen_x, self.pen_y, advance, b.line_height, b.ascent, bg);
            },
            None => {
                assert(before + Seq::<Vertex>::empty() =~= before);
            },
        }
        let ghost middle = self.geometry@;
        match glyph {
            Some(g) => {
                self.geometry.push_glyph(self.pen_x, self.pen_y, &g, c.color);
            },
            None => {
                assert(middle + Seq::<Vertex>::empty() =~= middle);
            },
        }
        assert(self.geometry@ =~= before + char_quads(
            old(self).bounds(),
            old(self).state(),
            *c,
            glyph,
            advance as int,
        ));
        self.pen_x = self.pen_x + advance as i64;
        WriteResult::Written
    }

    /// Writes the characters of `chars` from index `from` on, up to the
    /// first that overflows.
    pub fn write_from(&mut self, chars: &Vec<ColoredChar>, from: usize) -> (r: WriteResult)
        requires
            old(self).wf(),
            from <= chars@.len(),
        ensures
            final(self).wf(),
            final(self).bounds() == old(self).bounds(),
            final(self).metrics() == old(self).metrics(),
            (final(self).state(), outcome(r)) == after_line(
                old(self).bounds(),
                old(self).metrics(),
                old(self).state(),
                chars@.skip(from as int),
            ),
    {
        let ghost b = self.bounds();
        let ghost m = self.metrics();
        let ghost rest = chars@.skip(from as int);
        let mut i: usize = from;
        while i < chars.len()
            invariant
                from <= i <= chars@.len(),
                self.wf(),
                self.bounds() == b,
                self.metrics() == m,
                b == old(self).bounds(),
                m == old(self).metrics(),
                rest == chars@.skip(from as int),
                after_line(b, m, old(self).state(), rest) == ({
                    let (s, r) = after_line(b, m, self.state(), chars@.skip(i as int));
                    (s, and_written((i - from) as nat, r))
                }),
            decreases chars.len() - i,
        {
            proof {
                assert(chars@.skip(i as int).drop_first() =~= chars@.skip(i + 1));
                assert(chars@.skip(i as int)[0] == chars@[i as int]);
            }
            match self.write_char(&chars[i]) {
                WriteResult::Written => {},
                WriteResult::Overflow { .. } => {
                    return WriteResult::Overflow { written: i - from };
                },
            }
            i += 1;
        }
        assert(chars@.skip(i as int) =~= Seq::<ColoredChar>::empty());
        WriteResult::Written
    }

    /// Writes a text: each line with wrapping, and a line break after each
    /// line. Ends at the first overflow, of a line or of a break, and then
    /// tells how many characters were written in all.
    pub fn write_text(&mut self, text: &ColoredText) -> (r: WriteResult)
        requires
            old(self).wf(),
            total_len(text@) <= usize::MAX,
        ensures
            final(self).wf(),
            final(self).bounds() == old(self).bounds(),
            final(self).metrics() == old(self).metrics(),
            (final(self).state(), outcome(r)) == after_text(
                old(self).bounds(),
                old(self).metrics(),
                old(self).state(),
                text@,
            ),
    {
        let ghost b = self.bounds();
        let ghost m = self.metrics();
        let mut written: usize = 0;
        let mut i: usize = 0;
        assert(text@.skip(0) =~= text@);
        assert(text@.take(0) =~= Seq::<Seq<ColoredChar>>::empty());
        while i < text.lines.len()
            invariant
                i <= text@.len(),
                text@.len() == text.lines@.len(),
                total_len(text@) <= usize::MAX,
                written == total_len(text@.take(i as int)),
                self.wf(),
                self.bounds() == b,
                self.metrics() == m,
                b == old(self).bounds(),
                m == old(self).metrics(),
                b.line_height > 0,
                after_text(b, m, old(self).state(), text@) == ({
                    let (s, r) = after_text(b, m, self.state(), text@.skip(i as int));
                    (s, and_written(written as nat, r))
                }),
            decreases text.lines.len() - i,
        {
            let line = &text.lines[i];
            proof {
                assert(text@.skip(i as int).drop_first() =~= text@.skip(i + 1));
                assert(text@.skip(i as int)[0] == line@);
                assert(text@.take(i + 1).drop_last() =~= text@.take(i as int));
                assert(text@.take(i + 1).last() == line@);
                lemma_total_len_prefix(text@, i + 1);
                lemma_after_wrapped_bounds(b, m, self.state(), line@);
            }
            match self.write_line_wordwrap(line) {
                WriteResult::Written => {},
                WriteResult::Overflow { written: n } => {
                    return WriteResult::Overflow { written: written + n };
                },
            }
            written = written + line.len();
            match self.write_break() {
                WriteResult::Written => {},
                WriteResult::Overflow { .. } => {
                    return WriteResult::Overflow { written };
                },
            }
            i += 1;
        }
        assert(text@.skip(i as int) =~= Seq::<Seq<ColoredChar>>::empty());
        WriteResult::Written
    }
}

/// Writes `lines` on a surface as a block: each line as far as it fits,
/// and a line break after each. What overflows is cut off.
pub fn write_block<S: TextSurface>(surface: &mut S, lines: &Vec<ColoredLine>)
    requires
        old(surface).wf(),
    ensures
        final(surface).wf(),
        final(surface).bounds() == old(surface).bounds(),
        final(surface).metrics() == old(surface).metrics(),
        final(surface).state() == after_block(
            old(surface).bounds(),
            old(surface).metrics(),
            old(surface).state(),
            line_views(lines@),
            lines@.len() as int,
        ),
{
    let ghost b = surface.bounds();
    let ghost m = surface.metrics();
    let mut i: usize = 0;
    while i < lines.len()
        invariant
            i <= lines@.len(),
            surface.wf(),
            surface.bounds() == b,
            surface.metrics() == m,
            b == old(surface).bounds(),
            m == old(surface).metrics(),
            surface.state() == after_block(b, m, old(surface).state(), line_views(lines@), i as int),
        decreases lines.len() - i,
    {
        let _ = surface.write_line(&lines[i]);
        let _ = surface.write_break();
        i += 1;
    }
}

} // verus!

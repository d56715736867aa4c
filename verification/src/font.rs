//! A font face and what the layout needs from it.
//!
//! Lengths along a line are counted in units of 1/64 pixel, so that the
//! fractional advances of a scaled font add up without rounding drift.
//! Glyph images are measured in whole pixels.
//!
//! The font's bytes are read by the `ab_glyph` crate. Each query parses the
//! bytes anew, so that its answer is a function of the bytes alone; what the
//! crate answers about a font's measures is taken on trust and given a
//! name here, and everything built on the answers is proved.

use ab_glyph::{Font, FontRef, InvalidFont, PxScale};
use vstd::prelude::*;

verus! {

/// Units of length in one pixel.
pub const UNITS_PER_PIXEL: u32 = 64;

/// The most pixels that the box of an image may have for the image to be
/// rasterized. A larger image keeps its box and gets no pixels.
pub const MAX_IMAGE_PIXELS: u64 = 0x100_0000;

#[verifier::external_type_specification]
#[verifier::external_body]
pub struct ExInvalidFont(InvalidFont);

/// Malformed font bytes: nothing can be laid out with them.
#[derive(Clone, Copy, Debug, PartialEq, Eq)]
pub struct FontLoadFailure;

/// The pixel box of a glyph's outline, relative to the pen on the baseline:
/// `left` and `top` lead from the pen to the box's top-left corner.
#[derive(Clone, Copy, Debug, PartialEq, Eq)]
pub struct PixelBox {
    pub left: i32,
    pub top: i32,
    pub width: u32,
    pub height: u32,
}

/// How much of the pixel at (`x`, `y`) of a glyph's box the outline covers.
/// `coverage` holds the bits of a single-precision number: 0.0 for none of
/// the pixel, 1.0 or more for all of it.
#[derive(Clone, Copy, Debug, PartialEq, Eq)]
pub struct CoverageSample {
    pub x: u32,
    pub y: u32,
    pub coverage: u32,
}

/// A rasterized glyph: its box and the coverage of the box's pixels.
#[derive(Debug)]
pub struct RasterGlyph {
    pub bounds: PixelBox,
    pub samples: Vec<CoverageSample>,
}

/// Whether `ab_glyph` accepts `data` as a font.
pub uninterp spec fn font_parses(data: Seq<u8>) -> bool;

/// The ascent of the font in `data`, in font units.
pub uninterp spec fn font_ascent(data: Seq<u8>) -> i16;

/// The height of the font in `data`, ascent less descent, in font units.
pub uninterp spec fn font_height(data: Seq<u8>) -> i32;

/// The advance, in font units, of the glyph that the font in `data` has for `ch`.
pub uninterp spec fn glyph_advance(data: Seq<u8>, ch: char) -> u16;

/// The pixel box of the outline of `ch` in the font in `data` at `px`
/// pixels height; `None` where the font has no outline for `ch`.
pub uninterp spec fn glyph_box(data: Seq<u8>, px: u16, ch: char) -> Option<PixelBox>;

/// The coverage of the pixels of the box of the outline of `ch` in the font
/// in `data` at `px` pixels height, as the rasterizer of `ab_glyph` reports
/// it: one sample for each pixel, row by row.
pub uninterp spec fn glyph_coverage(data: Seq<u8>, px: u16, ch: char) -> Seq<CoverageSample>;

/// Whether `data` is a font that text can be laid out with: it parses, and
/// its height is positive.
pub open spec fn font_usable(data: Seq<u8>) -> bool {
    font_parses(data) && font_height(data) > 0
}

/// Whether the image of `ch` is rasterized: it has an outline, a font
/// unit is no larger than a pixel, and its box has no more than
/// [`MAX_IMAGE_PIXELS`] pixels.
pub open spec fn rasterizable(data: Seq<u8>, px: u16, ch: char) -> bool {
    &&& glyph_box(data, px, ch) is Some
    &&& px <= font_height(data)
    &&& glyph_box(data, px, ch)->0.width * glyph_box(data, px, ch)->0.height <= MAX_IMAGE_PIXELS
}

/// The pixels of the image of `ch`: those that the rasterizer reports
/// where the image is rasterized, and none where it is not.
pub open spec fn image_samples(data: Seq<u8>, px: u16, ch: char) -> Seq<CoverageSample> {
    if rasterizable(data, px, ch) {
        glyph_coverage(data, px, ch)
    } else {
        Seq::empty()
    }
}

/// Whether `samples` are those of a box of `width` by `height` pixels, one
/// for each pixel, row by row from the top and from left to right in a row.
pub open spec fn row_by_row(samples: Seq<CoverageSample>, width: int, height: int) -> bool {
    &&& samples.len() == width * height
    &&& forall|k: int|
        0 <= k < samples.len() ==> (#[trigger] samples[k]).x == k % width && samples[k].y == k / width
}

/// `v` font units in units of length, for a font of `height` font units
/// scaled to `px` pixels: `v * px * 64 / height`, rounded down, no less than
/// 0 and no more than `u32::MAX`.
pub open spec fn scale_to_units(v: int, px: int, height: int) -> int {
    if v <= 0 || height <= 0 {
        0
    } else if v * px * 64 / height > u32::MAX {
        u32::MAX as int
    } else {
        v * px * 64 / height
    }
}

/// Trusted: `FontRef::try_from_slice` of `ab_glyph`. Claims only that the
/// call succeeds on the bytes that [`font_parses`] names.
#[verifier::external_body]
fn parse_font(data: &[u8]) -> (r: Result<(), InvalidFont>)
    ensures
        r is Ok == font_parses(data@),
{
    FontRef::try_from_slice(data).map(|_| ())
}

/// Trusted: `Font::ascent_unscaled` of `ab_glyph` on the font parsed from
/// `data`, a whole number of font units that the crate hands out as a float.
#[verifier::external_body]
fn ascent_unscaled(data: &[u8]) -> (r: i16)
    ensures
        r == font_ascent(data@),
{
    match FontRef::try_from_slice(data) {
        Ok(font) => font.ascent_unscaled() as i16,
        Err(_) => 0,
    }
}

/// Trusted: `Font::height_unscaled` of `ab_glyph` on the font parsed from
/// `data`, a whole number of font units that the crate hands out as a float.
#[verifier::external_body]
fn height_unscaled(data: &[u8]) -> (r: i32)
    ensures
        r == font_height(data@),
{
    match FontRef::try_from_slice(data) {
        Ok(font) => font.height_unscaled() as i32,
        Err(_) => 0,
    }
}

/// Trusted: `Font::h_advance_unscaled` of `ab_glyph`, for the glyph that
/// `Font::glyph_id` gives for `ch`, on the font parsed from `data`.
#[verifier::external_body]
fn advance_unscaled(data: &[u8], ch: char) -> (r: u16)
    ensures
        r == glyph_advance(data@, ch),
{
    match FontRef::try_from_slice(data) {
        Ok(font) => font.h_advance_unscaled(font.glyph_id(ch)) as u16,
        Err(_) => 0,
    }
}

/// Trusted: `OutlinedGlyph::px_bounds` of `ab_glyph`, for the outline that
/// `Font::outline_glyph` gives for the glyph of `ch` at `px` pixels height
/// with the pen at the origin: whole numbers of pixels that the crate hands
/// out as floats. The font in `data` must be usable: with a height of zero
/// the crate would scale by infinity.
#[verifier::external_body]
fn outline_bounds(data: &[u8], px: u16, ch: char) -> (r: Option<PixelBox>)
    requires
        font_usable(data@),
    ensures
        r == glyph_box(data@, px, ch),
{
    let font = FontRef::try_from_slice(data).ok()?;
    let scale = PxScale { x: px.into(), y: px.into() };
    let b = font.outline_glyph(font.glyph_id(ch).with_scale(scale))?.px_bounds();
    Some(PixelBox { left: b.min.x as i32, top: b.min.y as i32, width: b.width() as u32, height: b.height() as u32 })
}

/// Trusted: `OutlinedGlyph::draw` of `ab_glyph`, for the same outline: the
/// pixels that it reports, in the order in which it reports them, which is
/// one for each pixel of the outline's box, row by row. The coverage is what
/// [`glyph_coverage`] names: the crate computes it on every machine by the
/// same routine. The image must be rasterizable: the crate holds a number
/// for each pixel of the box, and it draws safely only while the outline
/// stays within a pixel or so of the box, which it does as long as a font
/// unit is no larger than a pixel.
#[verifier::external_body]
fn outline_coverage(data: &[u8], px: u16, ch: char) -> (samples: Vec<CoverageSample>)
    requires
        font_usable(data@),
        rasterizable(data@, px, ch),
    ensures
        samples@ == glyph_coverage(data@, px, ch),
        row_by_row(
            samples@,
            glyph_box(data@, px, ch)->0.width as int,
            glyph_box(data@, px, ch)->0.height as int,
        ),
{
    let mut samples = Vec::new();
    if let Ok(font) = FontRef::try_from_slice(data) {
        let scale = PxScale { x: px.into(), y: px.into() };
        if let Some(outlined) = font.outline_glyph(font.glyph_id(ch).with_scale(scale)) {
            outlined.draw(|x, y, c| collect_sample(&mut samples, x, y, c.to_bits()));
        }
    }
    samples
}

/// Appends the sample of one pixel.
pub fn collect_sample(samples: &mut Vec<CoverageSample>, x: u32, y: u32, coverage: u32)
    ensures
        final(samples)@ == old(samples)@.push(CoverageSample { x, y, coverage }),
{
    samples.push(CoverageSample { x, y, coverage });
}

/// `v` font units in units of length; see [`scale_to_units`].
pub fn scaled_units(v: u16, px: u16, height: i32) -> (r: u32)
    ensures
        r == scale_to_units(v as int, px as int, height as int),
{
    if v == 0 || height <= 0 {
        return 0;
    }
    assert(0 <= v as int * px as int <= 65535 * 65535) by (nonlinear_arith)
        requires
            0 <= v <= 65535,
            0 <= px <= 65535,
    ;
    let vp: u64 = (v as u64) * (px as u64);
    let q: u64 = vp * 64 / (height as u64);
    if q > u32::MAX as u64 {
        u32::MAX
    } else {
        q as u32
    }
}

/// A font face: bytes that parse as a font of positive height.
pub struct FontFace {
    data: Vec<u8>,
    ascent: i16,
    height: i32,
}

impl FontFace {
    #[verifier::type_invariant]
    spec fn inv(self) -> bool {
        &&& font_usable(self.data@)
        &&& self.ascent == font_ascent(self.data@)
        &&& self.height == font_height(self.data@)
    }

    /// The bytes of the font.
    pub closed spec fn bytes(&self) -> Seq<u8> {
        self.data@
    }

    /// The face in `data`. Fails exactly on bytes that are no usable font.
    pub fn load(data: Vec<u8>) -> (r: Result<FontFace, FontLoadFailure>)
        ensures
            r is Ok == font_usable(data@),
            r is Ok ==> r->Ok_0.bytes() == data@,
    {
        match parse_font(data.as_slice()) {
            Err(_) => Err(FontLoadFailure),
            Ok(_) => {
                let height = height_unscaled(data.as_slice());
                if height <= 0 {
                    return Err(FontLoadFailure);
                }
                let ascent = ascent_unscaled(data.as_slice());
                Ok(FontFace { data, ascent, height })
            },
        }
    }

    /// The advance of `ch` at `px` pixels height, in units of length, as
    /// the font gives it, whether or not it has an image for `ch`.
    pub fn advance(&self, px: u16, ch: char) -> (r: u32)
        ensures
            r == raw_advance(self.bytes(), px, ch),
    {
        proof {
            use_type_invariant(self);
        }
        scaled_units(advance_unscaled(self.data.as_slice(), ch), px, self.height)
    }

    /// The distance from a line's top to its baseline at `px` pixels
    /// height, in units of length.
    pub fn ascent(&self, px: u16) -> (r: u32)
        ensures
            r == scaled_ascent(self.bytes(), px),
    {
        proof {
            use_type_invariant(self);
        }
        if self.ascent <= 0 {
            0
        } else {
            scaled_units(self.ascent as u16, px, self.height)
        }
    }

    /// The distance between the baselines of two lines at `px` pixels
    /// height, in units of length: `px` pixels.
    pub fn line_height(&self, px: u16) -> (r: u32)
        ensures
            r == px * UNITS_PER_PIXEL,
    {
        px as u32 * UNITS_PER_PIXEL
    }

    /// The image of `ch` at `px` pixels height, where the font has one:
    /// the box of its outline, and the coverage of the box's pixels as the
    /// rasterizer reports it. An image that is not [`rasterizable`], for
    /// its size or for that of the font, comes without pixels.
    pub fn raster(&self, px: u16, ch: char) -> (r: Option<RasterGlyph>)
        ensures
            r is Some == glyph_box(self.bytes(), px, ch) is Some,
            r is Some ==> r->0.bounds == glyph_box(self.bytes(), px, ch)->0,
            r is Some ==> r->0.samples@ == image_samples(self.bytes(), px, ch),
            r is Some && rasterizable(self.bytes(), px, ch) ==> row_by_row(
                r->0.samples@,
                r->0.bounds.width as int,
                r->0.bounds.height as int,
            ),
    {
        proof {
            use_type_invariant(self);
        }
        match outline_bounds(self.data.as_slice(), px, ch) {
            Some(bounds) => {
                assert(bounds.width * bounds.height <= u64::MAX) by (nonlinear_arith)
                    requires
                        0 <= bounds.width <= u32::MAX,
                        0 <= bounds.height <= u32::MAX,
                ;
                let small = bounds.width as u64 * bounds.height as u64 <= MAX_IMAGE_PIXELS;
                let samples = if small && px as i32 <= self.height {
                    outline_coverage(self.data.as_slice(), px, ch)
                } else {
                    Vec::new()
                };
                Some(RasterGlyph { bounds, samples })
            },
            None => None,
        }
    }
}

/// The advance of `ch` in the font in `data` at `px` pixels height, in
/// units of length.
pub open spec fn raw_advance(data: Seq<u8>, px: u16, ch: char) -> int {
    scale_to_units(glyph_advance(data, ch) as int, px as int, font_height(data) as int)
}

/// The ascent of the font in `data` at `px` pixels height, in units of length.
pub open spec fn scaled_ascent(data: Seq<u8>, px: u16) -> int {
    scale_to_units(font_ascent(data) as int, px as int, font_height(data) as int)
}

} // verus!

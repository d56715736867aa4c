//! The glyph atlas: one square bitmap that holds the images of a range of
//! characters, and the table that says where each image lies.
//!
//! Images are placed by shelf packing. A cursor fills a row from left to
//! right, a pixel of padding after each image; an image that no longer fits
//! in the row starts the next row below the tallest image so far. When an
//! image does not fit below either, packing stops: that character and all
//! after it get no glyph.

use crate::font::{
    CoverageSample,
    FontFace,
    PixelBox,
    RasterGlyph,
    glyph_box,
    image_samples,
    raw_advance,
    row_by_row,
};
use std::collections::HashMap;
use vstd::arithmetic::power2::pow2;
use vstd::prelude::*;
use vstd::utf8::is_scalar;

verus! {

/// Where the image of one character lies in the atlas, and how to place it.
#[derive(Clone, Copy, Debug, PartialEq, Eq)]
pub struct Glyph {
    /// Top-left corner of the image, in atlas pixels. Divided by the atlas
    /// size it is the texture coordinate.
    pub uv_min: (u32, u32),
    /// Bottom-right corner of the image, in atlas pixels.
    pub uv_max: (u32, u32),
    /// Width and height of the image, in pixels.
    pub size: (u32, u32),
    /// From the pen to the image's top-left corner, in pixels.
    pub bearing: (i32, i32),
    /// How far the pen moves after the character, in units of length.
    pub advance: u32,
}

/// What packing needs of one character: its image and its advance.
#[derive(Debug)]
pub struct GlyphInput {
    pub raster: RasterGlyph,
    pub advance: u32,
}

/// What a [`GlyphInput`] holds.
pub struct GlyphModel {
    pub bounds: PixelBox,
    pub samples: Seq<CoverageSample>,
    pub advance: u32,
}

impl View for GlyphInput {
    type V = GlyphModel;

    open spec fn view(&self) -> GlyphModel {
        GlyphModel { bounds: self.raster.bounds, samples: self.raster.samples@, advance: self.advance }
    }
}

/// The models of a run of inputs; `None` stands for a character without image.
pub open spec fn models(inputs: Seq<Option<GlyphInput>>) -> Seq<Option<GlyphModel>> {
    Seq::new(
        inputs.len(),
        |i: int|
            match inputs[i] {
                Some(g) => Some(g@),
                None => None,
            },
    )
}

/// Whether the images of `a` and `b` share a pixel of the atlas.
pub open spec fn overlap(a: Glyph, b: Glyph) -> bool {
    &&& a.uv_min.0 < b.uv_max.0
    &&& b.uv_min.0 < a.uv_max.0
    &&& a.uv_min.1 < b.uv_max.1
    &&& b.uv_min.1 < a.uv_max.1
}

/// The byte for a coverage given as the bits of a single-precision number:
/// the coverage times 255, rounded down, at least 0 and at most 255. What is
/// not a number counts as no coverage.
pub open spec fn coverage_byte(bits: u32) -> u8 {
    let exponent = (bits / 0x80_0000) % 0x100;
    let mantissa = bits % 0x80_0000 + 0x80_0000;
    if bits >= 0x8000_0000 || exponent == 0 {
        0
    } else if exponent == 255 && mantissa != 0x80_0000 {
        0
    } else if exponent >= 127 {
        255
    } else {
        ((mantissa * 255) / (pow2((150 - exponent) as nat) as int)) as u8
    }
}

/// Computes [`coverage_byte`].
pub fn coverage_to_byte(bits: u32) -> (b: u8)
    ensures
        b == coverage_byte(bits),
{
    let exponent: u32 = (bits >> 23) & 0xff;
    let mantissa: u32 = (bits & 0x7f_ffff) | 0x80_0000;
    assert(exponent == (bits / 0x80_0000) % 0x100 && mantissa == bits % 0x80_0000 + 0x80_0000
        && mantissa < 0x100_0000) by (bit_vector)
        requires
            exponent == (bits >> 23) & 0xff,
            mantissa == (bits & 0x7f_ffff) | 0x80_0000,
    ;
    if bits >= 0x8000_0000 || exponent == 0 {
        0
    } else if exponent == 255 && mantissa != 0x80_0000 {
        0
    } else if exponent >= 127 {
        255
    } else {
        let shift: u32 = 150 - exponent;
        let scaled: u64 = mantissa as u64 * 255;
        proof {
            vstd::arithmetic::power2::lemma2_to64();
        }
        if shift >= 32 {
            proof {
                if shift > 32 {
                    vstd::arithmetic::power2::lemma_pow2_strictly_increases(32, shift as nat);
                }
                vstd::arithmetic::div_mod::lemma_basic_div(scaled as int, pow2(shift as nat) as int);
            }
            0
        } else {
            let q: u64 = scaled >> shift;
            proof {
                vstd::bits::lemma_u64_shr_is_div(scaled, shift as u64);
                if shift > 24 {
                    vstd::arithmetic::power2::lemma_pow2_strictly_increases(24, shift as nat);
                }
                assert(pow2(shift as nat) >= 0x100_0000);
                assert(q <= scaled / 0x100_0000) by {
                    vstd::arithmetic::div_mod::lemma_div_is_ordered_by_denominator(
                        scaled as int,
                        0x100_0000,
                        pow2(shift as nat) as int,
                    );
                }
            }
            q as u8
        }
    }
}

/// The bitmap after one sample is written with the glyph's corner at
/// (`ox`, `oy`); a sample that falls outside the atlas is dropped.
pub open spec fn put_sample(bitmap: Seq<u8>, size: int, ox: int, oy: int, s: CoverageSample) -> Seq<u8> {
    if ox + s.x < size && oy + s.y < size {
        bitmap.update((oy + s.y) * size + (ox + s.x), coverage_byte(s.coverage))
    } else {
        bitmap
    }
}

/// The bitmap after the samples are written in order.
pub open spec fn blit(bitmap: Seq<u8>, size: int, ox: int, oy: int, samples: Seq<CoverageSample>) -> Seq<u8>
    decreases samples.len(),
{
    if samples.len() == 0 {
        bitmap
    } else {
        put_sample(blit(bitmap, size, ox, oy, samples.drop_last()), size, ox, oy, samples.last())
    }
}

/// Writing samples keeps the bitmap's length.
pub proof fn lemma_blit_len(bitmap: Seq<u8>, size: int, ox: int, oy: int, samples: Seq<CoverageSample>)
    requires
        bitmap.len() == size * size,
        0 <= ox,
        0 <= oy,
        0 <= size,
    ensures
        blit(bitmap, size, ox, oy, samples).len() == bitmap.len(),
    decreases samples.len(),
{
    if samples.len() > 0 {
        lemma_blit_len(bitmap, size, ox, oy, samples.drop_last());
        let s = samples.last();
        if ox + s.x < size && oy + s.y < size {
            lemma_pixel_index(size, ox + s.x, oy + s.y);
        }
    }
}

/// A pixel inside the atlas has its index inside the bitmap.
pub proof fn lemma_pixel_index(size: int, x: int, y: int)
    requires
        0 <= x < size,
        0 <= y < size,
    ensures
        0 <= y * size + x < size * size,
{
    assert(y * size + x < size * size) by (nonlinear_arith)
        requires
            0 <= x < size,
            0 <= y < size,
    ;
    assert(0 <= y * size) by (nonlinear_arith)
        requires
            0 <= y,
            0 <= size,
    ;
}

/// A pixel has one row and one column: two pixels with the same index are
/// the same pixel.
pub proof fn lemma_pixel_unique(size: int, x1: int, y1: int, x2: int, y2: int)
    requires
        0 <= x1 < size,
        0 <= x2 < size,
        0 <= y1,
        0 <= y2,
        y1 * size + x1 == y2 * size + x2,
    ensures
        x1 == x2,
        y1 == y2,
{
    if y1 < y2 {
        assert((y1 + 1) * size <= y2 * size) by (nonlinear_arith)
            requires
                y1 + 1 <= y2,
                size > 0,
        ;
        assert((y1 + 1) * size == y1 * size + size) by (nonlinear_arith);
    } else if y2 < y1 {
        assert((y2 + 1) * size <= y1 * size) by (nonlinear_arith)
            requires
                y2 + 1 <= y1,
                size > 0,
        ;
        assert((y2 + 1) * size == y2 * size + size) by (nonlinear_arith);
    }
}

/// The samples of a box that come row by row lie inside the box, and no
/// two of them are for the same pixel.
pub proof fn lemma_samples_in_box(samples: Seq<CoverageSample>, w: int, h: int, k: int)
    requires
        0 <= w,
        0 <= h,
        row_by_row(samples, w, h),
        0 <= k < samples.len(),
    ensures
        0 <= samples[k].x < w,
        0 <= samples[k].y < h,
        samples[k].y * w + samples[k].x == k,
{
    assert(w > 0) by (nonlinear_arith)
        requires
            0 <= w,
            0 <= h,
            0 <= k < w * h,
    ;
    vstd::arithmetic::div_mod::lemma_fundamental_div_mod(k, w);
    vstd::arithmetic::div_mod::lemma_mod_bound(k, w);
    vstd::arithmetic::div_mod::lemma_div_pos_is_pos(k, w);
    let y = k / w;
    let x = k % w;
    assert(w * y == y * w) by (nonlinear_arith);
    if y >= h {
        assert(y * w >= h * w) by (nonlinear_arith)
            requires
                y >= h,
                w > 0,
        ;
        assert(h * w == w * h) by (nonlinear_arith);
    }
}

/// Where an image's pixels go: when the samples of an image of `w` by `h`
/// pixels, which lies inside the atlas with its corner at (`ox`, `oy`),
/// have been written row by row, every pixel of the image holds the byte of
/// its sample, and every pixel outside the image is as it was.
pub proof fn lemma_blit_image(
    bitmap: Seq<u8>,
    size: int,
    ox: int,
    oy: int,
    samples: Seq<CoverageSample>,
    w: int,
    h: int,
    n: int,
)
    requires
        bitmap.len() == size * size,
        0 <= ox,
        0 <= oy,
        0 <= w,
        0 <= h,
        ox + w <= size,
        oy + h <= size,
        row_by_row(samples, w, h),
        0 <= n <= samples.len(),
    ensures
        blit(bitmap, size, ox, oy, samples.take(n)).len() == bitmap.len(),
        forall|k: int|
            0 <= k < n ==> blit(bitmap, size, ox, oy, samples.take(n))[(oy + (#[trigger] samples[k]).y) * size
                + (ox + samples[k].x)] == coverage_byte(samples[k].coverage),
        forall|x: int, y: int|
            0 <= x < size && 0 <= y < size && !(ox <= x < ox + w && oy <= y < oy + h) ==> blit(
                bitmap,
                size,
                ox,
                oy,
                samples.take(n),
            )[#[trigger] (y * size + x)] == bitmap[y * size + x],
    decreases n,
{
    let now = blit(bitmap, size, ox, oy, samples.take(n));
    if n == 0 {
        assert(samples.take(0) =~= Seq::<CoverageSample>::empty());
    } else {
        lemma_blit_image(bitmap, size, ox, oy, samples, w, h, n - 1);
        let before = blit(bitmap, size, ox, oy, samples.take(n - 1));
        let s = samples[n - 1];
        assert(samples.take(n).drop_last() =~= samples.take(n - 1));
        assert(samples.take(n).last() == s);
        lemma_samples_in_box(samples, w, h, n - 1);
        lemma_pixel_index(size, ox + s.x, oy + s.y);
        let t = (oy + s.y) * size + (ox + s.x);
        assert(now == before.update(t, coverage_byte(s.coverage)));
        assert forall|k: int| 0 <= k < n implies now[(oy + (#[trigger] samples[k]).y) * size + (ox + samples[k].x)]
            == coverage_byte(samples[k].coverage) by {
            if k < n - 1 {
                lemma_samples_in_box(samples, w, h, k);
                let tk = (oy + samples[k].y) * size + (ox + samples[k].x);
                if tk == t {
                    lemma_pixel_unique(size, ox + samples[k].x, oy + samples[k].y, ox + s.x, oy + s.y);
                }
                lemma_pixel_index(size, ox + samples[k].x, oy + samples[k].y);
            }
        }
        assert forall|x: int, y: int|
            0 <= x < size && 0 <= y < size && !(ox <= x < ox + w && oy <= y < oy + h) implies now[#[trigger] (y
                * size + x)] == bitmap[y * size + x] by {
            if y * size + x == t {
                lemma_pixel_unique(size, x, y, ox + s.x, oy + s.y);
            }
            lemma_pixel_index(size, x, y);
        }
    }
}

/// Writes the samples of an image into the bitmap, the image's corner at
/// (`ox`, `oy`).
pub fn blit_samples(bitmap: &mut Vec<u8>, size: u32, ox: u32, oy: u32, samples: &Vec<CoverageSample>)
    requires
        old(bitmap)@.len() == size * size,
    ensures
        final(bitmap)@ == blit(old(bitmap)@, size as int, ox as int, oy as int, samples@),
        final(bitmap)@.len() == old(bitmap)@.len(),
{
    let mut i: usize = 0;
    while i < samples.len()
        invariant
            i <= samples.len(),
            bitmap@.len() == size * size,
            bitmap@ == blit(old(bitmap)@, size as int, ox as int, oy as int, samples@.take(i as int)),
        decreases samples.len() - i,
    {
        let s = samples[i];
        let ax: u64 = ox as u64 + s.x as u64;
        let ay: u64 = oy as u64 + s.y as u64;
        proof {
            assert(samples@.take(i + 1).drop_last() =~= samples@.take(i as int));
        }
        if ax < size as u64 && ay < size as u64 {
            let len = bitmap.len();
            proof {
                lemma_pixel_index(size as int, ax as int, ay as int);
                assert(0 <= (ay as int) * (size as int) <= (ay as int) * (size as int) + ax < len);
            }
            let index: usize = (ay as usize) * (size as usize) + (ax as usize);
            bitmap[index] = coverage_to_byte(s.coverage);
        }
        i += 1;
    }
    assert(samples@.take(samples@.len() as int) =~= samples@);
}

/// The shelf packer's cursor: the next image goes to (`x`, `y`), and the
/// row that is being filled is `row_height` pixels high so far.
#[derive(Clone, Copy, Debug)]
pub struct ShelfPacker {
    pub size: u32,
    pub x: u64,
    pub y: u64,
    pub row_height: u64,
}

/// The cursor as numbers.
pub struct ShelfModel {
    pub x: int,
    pub y: int,
    pub row_height: int,
}

/// The cursor after it has turned to the next row, if an image `w` pixels
/// wide does not fit in this one.
pub open spec fn shelf_wrap(s: ShelfModel, size: int, w: int) -> ShelfModel {
    if s.x + w > size {
        ShelfModel { x: 0, y: s.y + s.row_height, row_height: 0 }
    } else {
        s
    }
}

/// Whether an image of `w` by `h` pixels still fits, in this row or the next.
pub open spec fn shelf_fits(s: ShelfModel, size: int, w: int, h: int) -> bool {
    shelf_wrap(s, size, w).y + h <= size
}

/// The cursor after an image of `w` by `h` pixels was asked for: past the
/// image and its padding where it fits, else at the start of the row that
/// was too low for it.
pub open spec fn shelf_after(s: ShelfModel, size: int, w: int, h: int) -> ShelfModel {
    let t = shelf_wrap(s, size, w);
    if t.y + h > size {
        t
    } else {
        ShelfModel {
            x: t.x + w + 1,
            y: t.y,
            row_height: if t.row_height > h + 1 {
                t.row_height
            } else {
                h + 1
            },
        }
    }
}

impl View for ShelfPacker {
    type V = ShelfModel;

    open spec fn view(&self) -> ShelfModel {
        ShelfModel { x: self.x as int, y: self.y as int, row_height: self.row_height as int }
    }
}

impl ShelfPacker {
    /// The cursor stays within a pixel of the atlas's lower edge, and of
    /// the widest image's right edge.
    pub open spec fn wf(&self) -> bool {
        &&& self.x <= u32::MAX + 1
        &&& self.y + self.row_height <= self.size + 1
    }

    /// A packer for an empty atlas of `size` pixels a side.
    pub fn new(size: u32) -> (p: ShelfPacker)
        ensures
            p.wf(),
            p.size == size,
            p@ == (ShelfModel { x: 0, y: 0, row_height: 0 }),
    {
        ShelfPacker { size, x: 0, y: 0, row_height: 0 }
    }

    /// Finds the place of an image of `w` by `h` pixels: its top-left
    /// corner, or `None` when the atlas is full.
    pub fn place(&mut self, w: u32, h: u32) -> (r: Option<(u32, u32)>)
        requires
            old(self).wf(),
        ensures
            final(self).wf(),
            final(self).size == old(self).size,
            final(self)@ == shelf_after(old(self)@, old(self).size as int, w as int, h as int),
            match r {
                Some((x, y)) => {
                    &&& shelf_fits(old(self)@, old(self).size as int, w as int, h as int)
                    &&& x == shelf_wrap(old(self)@, old(self).size as int, w as int).x
                    &&& y == shelf_wrap(old(self)@, old(self).size as int, w as int).y
                    &&& x + w <= old(self).size || x == 0
                    &&& y + h <= old(self).size
                },
                None => !shelf_fits(old(self)@, old(self).size as int, w as int, h as int),
            },
    {
        if self.x + w as u64 > self.size as u64 {
            self.x = 0;
            self.y = self.y + self.row_height;
            self.row_height = 0;
        }
        if self.y + h as u64 > self.size as u64 {
            return None;
        }
        let at = (self.x as u32, self.y as u32);
        self.x = self.x + w as u64 + 1;
        if self.row_height < h as u64 + 1 {
            self.row_height = h as u64 + 1;
        }
        Some(at)
    }
}

/// A range of characters by code point, both ends included.
#[derive(Clone, Copy, Debug, PartialEq, Eq)]
pub struct CharRange {
    pub first: char,
    pub last: char,
}

impl CharRange {
    /// The number of code points in the range.
    pub open spec fn count(&self) -> nat {
        if self.first as u32 <= self.last as u32 {
            (self.last as u32 - self.first as u32 + 1) as nat
        } else {
            0
        }
    }

    /// The printable characters of ASCII, from the space to the tilde.
    pub fn ascii() -> (r: CharRange)
        ensures
            r == (CharRange { first: ' ', last: '~' }),
            r.count() == 95,
    {
        CharRange { first: ' ', last: '~' }
    }
}

/// The character `i` code points after `first`, where there is one.
pub open spec fn char_at(first: u32, i: int) -> Option<char> {
    if 0 <= i && first + i <= u32::MAX && is_scalar((first + i) as u32) {
        Some(((first + i) as u32) as char)
    } else {
        None
    }
}

/// The glyphs of the characters that have one, by code point.
#[derive(Debug)]
pub struct GlyphTable {
    glyphs: HashMap<u32, Glyph>,
}

/// The glyph that `slots` holds for `ch`, if any: slot `i` is for the
/// character `i` code points after `first`.
pub open spec fn slot_of(first: u32, slots: Seq<Option<Glyph>>, ch: char) -> Option<Glyph> {
    if first <= ch as u32 && ch as u32 - first < slots.len() {
        slots[ch as u32 - first]
    } else {
        None
    }
}

/// The glyphs of `slots` by code point: slot `i` is for the code point
/// `first + i`.
pub open spec fn table_of(first: u32, slots: Seq<Option<Glyph>>) -> Map<u32, Glyph> {
    Map::new(
        |cp: u32| first <= cp && cp - first < slots.len() && slots[cp - first] is Some,
        |cp: u32| slots[cp - first]->0,
    )
}

/// The glyph that `glyphs` holds for `ch`, if any.
pub open spec fn glyph_in(glyphs: Map<u32, Glyph>, ch: char) -> Option<Glyph> {
    if glyphs.contains_key(ch as u32) {
        Some(glyphs[ch as u32])
    } else {
        None
    }
}

/// The table of slots holds for each character the glyph of its slot.
pub proof fn lemma_table_lookup(first: u32, slots: Seq<Option<Glyph>>, ch: char)
    ensures
        glyph_in(table_of(first, slots), ch) == slot_of(first, slots, ch),
{
}

impl View for GlyphTable {
    type V = Map<u32, Glyph>;

    closed spec fn view(&self) -> Map<u32, Glyph> {
        self.glyphs@
    }
}

impl GlyphTable {
    /// The glyph of `ch`, if the table has one.
    pub open spec fn glyph_of(&self, ch: char) -> Option<Glyph> {
        glyph_in(self@, ch)
    }

    /// The glyph of `ch`, if the table has one.
    pub fn get(&self, ch: char) -> (r: Option<Glyph>)
        ensures
            r == self.glyph_of(ch),
    {
        let cp: u32 = ch as u32;
        match self.glyphs.get(&cp) {
            Some(g) => Some(*g),
            None => None,
        }
    }

    /// The number of glyphs in the table.
    pub fn len(&self) -> (n: usize)
        ensures
            n == self@.len(),
    {
        self.glyphs.len()
    }
}

/// The state of packing: the cursor, the bitmap, the glyphs so far, the
/// lower edge of the lowest image, and whether the atlas is full.
pub struct PackState {
    pub shelf: ShelfModel,
    pub bitmap: Seq<u8>,
    pub slots: Seq<Option<Glyph>>,
    pub used_height: int,
    pub full: bool,
}

/// Packing before the first image: an atlas of zeros.
pub open spec fn pack_start(size: int) -> PackState {
    PackState {
        shelf: ShelfModel { x: 0, y: 0, row_height: 0 },
        bitmap: Seq::new((size * size) as nat, |i: int| 0u8),
        slots: Seq::empty(),
        used_height: 0,
        full: false,
    }
}

/// The glyph of an image placed with its corner at (`x`, `y`).
pub open spec fn glyph_at(x: int, y: int, g: GlyphModel) -> Glyph {
    Glyph {
        uv_min: (x as u32, y as u32),
        uv_max: ((x + g.bounds.width) as u32, (y + g.bounds.height) as u32),
        size: (g.bounds.width, g.bounds.height),
        bearing: (g.bounds.left, g.bounds.top),
        advance: g.advance,
    }
}

/// Packing after the next character. A character without image gets no
/// glyph; so does every character once the atlas is full. The first image
/// that does not fit makes the atlas full.
pub open spec fn pack_step(s: PackState, size: int, input: Option<GlyphModel>) -> PackState {
    match input {
        Some(g) if !s.full => {
            let w = g.bounds.width as int;
            let h = g.bounds.height as int;
            let at = shelf_wrap(s.shelf, size, w);
            if shelf_fits(s.shelf, size, w, h) {
                PackState {
                    shelf: shelf_after(s.shelf, size, w, h),
                    bitmap: blit(s.bitmap, size, at.x, at.y, g.samples),
                    slots: s.slots.push(Some(glyph_at(at.x, at.y, g))),
                    used_height: if s.used_height > at.y + h {
                        s.used_height
                    } else {
                        at.y + h
                    },
                    full: false,
                }
            } else {
                PackState {
                    shelf: shelf_after(s.shelf, size, w, h),
                    bitmap: s.bitmap,
                    slots: s.slots.push(None),
                    used_height: s.used_height,
                    full: true,
                }
            }
        },
        _ => PackState { slots: s.slots.push(None), ..s },
    }
}

/// Packing after the first `n` characters of `inputs`, in order.
pub open spec fn pack_prefix(size: int, inputs: Seq<Option<GlyphModel>>, n: int) -> PackState
    decreases n,
{
    if n <= 0 {
        pack_start(size)
    } else {
        pack_step(pack_prefix(size, inputs, n - 1), size, inputs[n - 1])
    }
}

/// Packing after all of `inputs`.
pub open spec fn packed(size: int, inputs: Seq<Option<GlyphModel>>) -> PackState {
    pack_prefix(size, inputs, inputs.len() as int)
}

/// No two glyphs share a pixel of the atlas.
pub open spec fn disjoint(slots: Seq<Option<Glyph>>) -> bool {
    forall|i: int, j: int|
        0 <= i < slots.len() && 0 <= j < slots.len() && i != j && (#[trigger] slots[i]) is Some && (
        #[trigger] slots[j]) is Some ==> !overlap(slots[i]->0, slots[j]->0)
}

/// Every glyph is as large as its image, ends at or above `used_height`,
/// and ends at or left of the atlas's right edge unless it starts a row.
pub open spec fn contained(slots: Seq<Option<Glyph>>, size: int, used_height: int) -> bool {
    forall|i: int|
        0 <= i < slots.len() && (#[trigger] slots[i]) is Some ==> {
            let g = slots[i]->0;
            &&& g.uv_max.0 == g.uv_min.0 + g.size.0
            &&& g.uv_max.1 == g.uv_min.1 + g.size.1
            &&& g.uv_max.1 <= used_height
            &&& g.uv_max.0 <= size || g.uv_min.0 == 0
        }
}

/// No two glyphs of the table share a pixel of the atlas.
pub open spec fn disjoint_glyphs(glyphs: Map<u32, Glyph>) -> bool {
    forall|a: u32, b: u32|
        a != b && #[trigger] glyphs.contains_key(a) && #[trigger] glyphs.contains_key(b) ==> !overlap(
            glyphs[a],
            glyphs[b],
        )
}

/// Every glyph of the table is as large as its image, ends at or above
/// `used_height`, and ends at or left of the atlas's right edge unless it
/// starts a row.
pub open spec fn contained_glyphs(glyphs: Map<u32, Glyph>, size: int, used_height: int) -> bool {
    forall|a: u32| #[trigger]
        glyphs.contains_key(a) ==> {
            let g = glyphs[a];
            &&& g.uv_max.0 == g.uv_min.0 + g.size.0
            &&& g.uv_max.1 == g.uv_min.1 + g.size.1
            &&& g.uv_max.1 <= used_height
            &&& g.uv_max.0 <= size || g.uv_min.0 == 0
        }
}

/// What holds of the slots holds of their table.
pub proof fn lemma_table_disjoint(first: u32, slots: Seq<Option<Glyph>>, size: int, used_height: int)
    requires
        disjoint(slots),
        contained(slots, size, used_height),
    ensures
        disjoint_glyphs(table_of(first, slots)),
        contained_glyphs(table_of(first, slots), size, used_height),
{
    let t = table_of(first, slots);
    assert forall|a: u32, b: u32| a != b && #[trigger] t.contains_key(a) && #[trigger] t.contains_key(b) implies !overlap(
        t[a],
        t[b],
    ) by {
        assert(slots[a - first] is Some && slots[b - first] is Some);
    }
    assert forall|a: u32| #[trigger] t.contains_key(a) implies {
        let g = t[a];
        &&& g.uv_max.0 == g.uv_min.0 + g.size.0
        &&& g.uv_max.1 == g.uv_min.1 + g.size.1
        &&& g.uv_max.1 <= used_height
        &&& g.uv_max.0 <= size || g.uv_min.0 == 0
    } by {
        assert(slots[a - first] is Some);
    }
}

/// What holds while packing: the bitmap keeps its size, the cursor stays
/// below and right of every image with a pixel between, and no two images
/// share a pixel.
pub open spec fn pack_inv(s: PackState, size: int) -> bool {
    &&& s.bitmap.len() == size * size
    &&& 0 <= s.shelf.x <= u32::MAX + 1
    &&& 0 <= s.shelf.y
    &&& 0 <= s.shelf.row_height
    &&& s.shelf.y + s.shelf.row_height <= size + 1
    &&& 0 <= s.used_height <= size
    &&& s.used_height <= s.shelf.y + s.shelf.row_height
    &&& contained(s.slots, size, s.used_height)
    &&& disjoint(s.slots)
    &&& forall|i: int|
        0 <= i < s.slots.len() && (#[trigger] s.slots[i]) is Some ==> {
            let g = s.slots[i]->0;
            ||| g.uv_max.1 + 1 <= s.shelf.y
            ||| (g.uv_min.1 == s.shelf.y && g.uv_max.0 + 1 <= s.shelf.x && g.uv_max.1 + 1 <= s.shelf.y
                + s.shelf.row_height)
        }
}

/// One step of packing keeps what holds while packing.
pub proof fn lemma_pack_step(s: PackState, size: int, input: Option<GlyphModel>)
    requires
        0 <= size <= u32::MAX,
        pack_inv(s, size),
    ensures
        pack_inv(pack_step(s, size, input), size),
        pack_step(s, size, input).slots.len() == s.slots.len() + 1,
{
    let t = pack_step(s, size, input);
    assert(forall|i: int| 0 <= i < s.slots.len() ==> t.slots[i] == s.slots[i]);
    match input {
        Some(g) if !s.full => {
            let w = g.bounds.width as int;
            let h = g.bounds.height as int;
            let at = shelf_wrap(s.shelf, size, w);
            if shelf_fits(s.shelf, size, w, h) {
                lemma_blit_len(s.bitmap, size, at.x, at.y, g.samples);
                let new = glyph_at(at.x, at.y, g);
                assert(t.slots[s.slots.len() as int] == Some(new));
                assert forall|i: int| 0 <= i < s.slots.len() && (#[trigger] s.slots[i]) is Some implies !overlap(
                    s.slots[i]->0,
                    new,
                ) && !overlap(new, s.slots[i]->0) by {}
            }
        },
        _ => {},
    }
}

/// Packing keeps what holds while packing, however far it has come.
pub proof fn lemma_pack_prefix(size: int, inputs: Seq<Option<GlyphModel>>, n: int)
    requires
        0 <= size <= u32::MAX,
        0 <= n <= inputs.len(),
    ensures
        pack_inv(pack_prefix(size, inputs, n), size),
        pack_prefix(size, inputs, n).slots.len() == n,
    decreases n,
{
    if n > 0 {
        lemma_pack_prefix(size, inputs, n - 1);
        lemma_pack_step(pack_prefix(size, inputs, n - 1), size, inputs[n - 1]);
    } else {
        assert(size * size >= 0) by (nonlinear_arith);
    }
}

/// No overlap: in a packed atlas no two glyphs share a pixel, whatever the
/// images and however many of them fitted.
pub proof fn lemma_packed_disjoint(size: int, first: u32, inputs: Seq<Option<GlyphModel>>)
    requires
        0 <= size <= u32::MAX,
    ensures
        disjoint(packed(size, inputs).slots),
        contained(packed(size, inputs).slots, size, packed(size, inputs).used_height),
        disjoint_glyphs(table_of(first, packed(size, inputs).slots)),
        contained_glyphs(
            table_of(first, packed(size, inputs).slots),
            size,
            packed(size, inputs).used_height,
        ),
        packed(size, inputs).used_height <= size,
{
    lemma_pack_prefix(size, inputs, inputs.len() as int);
    lemma_table_disjoint(first, packed(size, inputs).slots, size, packed(size, inputs).used_height);
}

/// The share of `size` rows that `used_height` rows are, in percent, rounded
/// down; 0 for an atlas without rows, and no more than `u32::MAX`.
pub open spec fn utilization(used_height: u32, size: u32) -> int {
    if size == 0 {
        0
    } else if used_height * 100 / size as int > u32::MAX {
        u32::MAX as int
    } else {
        used_height * 100 / size as int
    }
}

/// A built atlas: the bitmap of coverage bytes, row by row, and the table
/// of the glyphs in it. Nothing changes it once it is built.
#[derive(Debug)]
pub struct GlyphAtlas {
    size: u32,
    bitmap: Vec<u8>,
    glyphs: GlyphTable,
    used_height: u32,
    px: u16,
    overflowed: bool,
}

/// What an atlas holds.
pub struct AtlasModel {
    /// Pixels along each side of the bitmap.
    pub size: u32,
    /// The pixel height of the font that the images were made at.
    pub px: u16,
    /// Where each character's image lies, by code point.
    pub glyphs: Map<u32, Glyph>,
    /// One byte of coverage for each pixel, rows from top to bottom.
    pub bitmap: Seq<u8>,
    /// The lower edge of the lowest image: rows of the bitmap in use.
    pub used_height: u32,
    /// Whether an image did not fit, so that its character and all after
    /// it are without glyph.
    pub overflowed: bool,
}

impl View for GlyphAtlas {
    type V = AtlasModel;

    closed spec fn view(&self) -> AtlasModel {
        AtlasModel {
            size: self.size,
            px: self.px,
            glyphs: self.glyphs@,
            bitmap: self.bitmap@,
            used_height: self.used_height,
            overflowed: self.overflowed,
        }
    }
}

impl GlyphAtlas {
    /// The atlas holds what packing `inputs` into a bitmap of `size`
    /// pixels a side gives, for characters from code point `first` on.
    pub open spec fn holds(&self, size: u32, px: u16, first: u32, inputs: Seq<Option<GlyphModel>>) -> bool {
        &&& self@.size == size
        &&& self@.px == px
        &&& self@.bitmap == packed(size as int, inputs).bitmap
        &&& self@.glyphs == table_of(first, packed(size as int, inputs).slots)
        &&& self@.used_height == packed(size as int, inputs).used_height
        &&& self@.overflowed == packed(size as int, inputs).full
    }

    /// Pixels along each side of the bitmap.
    pub fn size(&self) -> (r: u32)
        ensures
            r == self@.size,
    {
        self.size
    }

    /// The pixel height of the font that the images were made at.
    pub fn px(&self) -> (r: u16)
        ensures
            r == self@.px,
    {
        self.px
    }

    /// One byte of coverage for each pixel, rows from top to bottom.
    pub fn bitmap(&self) -> (r: &Vec<u8>)
        ensures
            r@ == self@.bitmap,
    {
        &self.bitmap
    }

    /// Where each character's image lies.
    pub fn glyphs(&self) -> (r: &GlyphTable)
        ensures
            r@ == self@.glyphs,
    {
        &self.glyphs
    }

    /// The lower edge of the lowest image: rows of the bitmap in use.
    pub fn used_height(&self) -> (r: u32)
        ensures
            r == self@.used_height,
    {
        self.used_height
    }

    /// Whether an image did not fit into the atlas: its character and all
    /// after it are without glyph then. A larger atlas may hold them.
    pub fn overflowed(&self) -> (r: bool)
        ensures
            r == self@.overflowed,
    {
        self.overflowed
    }

    /// The share of the atlas's rows that is in use, in percent, rounded down.
    pub fn utilization_percent(&self) -> (r: u32)
        ensures
            r == utilization(self@.used_height, self@.size),
    {
        if self.size == 0 {
            0
        } else {
            let p: u64 = self.used_height as u64 * 100 / self.size as u64;
            if p > u32::MAX as u64 {
                u32::MAX
            } else {
                p as u32
            }
        }
    }
}

/// Packs the images of `inputs` into an atlas of `size` pixels a side;
/// `inputs[i]` is the image of the character `i` code points after `first`.
pub fn pack_glyphs(size: u32, px: u16, first: char, inputs: &Vec<Option<GlyphInput>>) -> (atlas: GlyphAtlas)
    requires
        size * size <= usize::MAX,
    ensures
        atlas.holds(size, px, first as u32, models(inputs@)),
        disjoint_glyphs(atlas@.glyphs),
        contained_glyphs(atlas@.glyphs, size as int, atlas@.used_height as int),
        atlas@.used_height <= size,
        atlas@.bitmap.len() == size * size,
{
    let ghost ms = models(inputs@);
    let start: u32 = first as u32;
    let mut packer = ShelfPacker::new(size);
    let mut bitmap: Vec<u8> = vec![0u8; size as usize * size as usize];
    let mut glyphs: HashMap<u32, Glyph> = HashMap::new();
    let ghost mut slots: Seq<Option<Glyph>> = Seq::empty();
    let mut used_height: u32 = 0;
    let mut full = false;
    assert(bitmap@ =~= pack_start(size as int).bitmap);
    assert(glyphs@ =~= table_of(start, slots));
    proof {
        lemma_pack_prefix(size as int, ms, 0);
    }
    let mut i: usize = 0;
    while i < inputs.len()
        invariant
            i <= inputs.len(),
            ms == models(inputs@),
            packer.wf(),
            packer.size == size,
            slots.len() == i,
            glyphs@ == table_of(start, slots),
            pack_inv(pack_prefix(size as int, ms, i as int), size as int),
            pack_prefix(size as int, ms, i as int) == (PackState {
                shelf: packer@,
                bitmap: bitmap@,
                slots,
                used_height: used_height as int,
                full,
            }),
        decreases inputs.len() - i,
    {
        proof {
            lemma_pack_step(pack_prefix(size as int, ms, i as int), size as int, ms[i as int]);
        }
        let ghost before = slots;
        let mut placed: Option<Glyph> = None;
        match &inputs[i] {
            Some(g) if !full => {
                let w = g.raster.bounds.width;
                let h = g.raster.bounds.height;
                match packer.place(w, h) {
                    Some((x, y)) => {
                        blit_samples(&mut bitmap, size, x, y, &g.raster.samples);
                        placed = Some(
                            Glyph {
                                uv_min: (x, y),
                                uv_max: (x + w, y + h),
                                size: (w, h),
                                bearing: (g.raster.bounds.left, g.raster.bounds.top),
                                advance: g.advance,
                            },
                        );
                        if used_height < y + h {
                            used_height = y + h;
                        }
                    },
                    None => {
                        full = true;
                    },
                }
            },
            _ => {},
        }
        proof {
            slots = slots.push(placed);
        }
        match placed {
            Some(glyph) => {
                if i as u64 <= (u32::MAX - start) as u64 {
                    let cp: u32 = start + i as u32;
                    glyphs.insert(cp, glyph);
                    assert(glyphs@ =~= table_of(start, slots)) by {
                        assert forall|k: u32| #[trigger]
                            table_of(start, slots).contains_key(k) == table_of(start, before).insert(
                                cp,
                                glyph,
                            ).contains_key(k) by {
                            if start <= k && k - start < before.len() {
                                assert(slots[k - start] == before[k - start]);
                            }
                        }
                        assert forall|k: u32| #[trigger] table_of(start, slots).contains_key(k) implies table_of(
                            start,
                            slots,
                        )[k] == table_of(start, before).insert(cp, glyph)[k] by {
                            if k != cp {
                                assert(slots[k - start] == before[k - start]);
                            }
                        }
                    }
                } else {
                    assert(glyphs@ =~= table_of(start, slots)) by {
                        assert forall|k: u32| #[trigger]
                            table_of(start, slots).contains_key(k) == table_of(start, before).contains_key(k) by {
                            if start <= k && k - start < before.len() {
                                assert(slots[k - start] == before[k - start]);
                            }
                        }
                        assert forall|k: u32| #[trigger] table_of(start, slots).contains_key(k) implies table_of(
                            start,
                            slots,
                        )[k] == table_of(start, before)[k] by {
                            assert(slots[k - start] == before[k - start]);
                        }
                    }
                }
            },
            None => {
                assert(glyphs@ =~= table_of(start, slots)) by {
                    assert forall|k: u32| #[trigger]
                        table_of(start, slots).contains_key(k) == table_of(start, before).contains_key(k) by {
                        if start <= k && k - start < before.len() {
                            assert(slots[k - start] == before[k - start]);
                        }
                    }
                    assert forall|k: u32| #[trigger] table_of(start, slots).contains_key(k) implies table_of(
                        start,
                        slots,
                    )[k] == table_of(start, before)[k] by {
                        assert(slots[k - start] == before[k - start]);
                    }
                }
            },
        }
        i += 1;
    }
    proof {
        lemma_table_disjoint(start, slots, size as int, used_height as int);
    }
    GlyphAtlas { size, bitmap, glyphs: GlyphTable { glyphs }, used_height, px, overflowed: full }
}

/// The images and advances of `n` characters from code point `first` on, in
/// the font in `data` at `px` pixels height.
pub open spec fn range_models(data: Seq<u8>, px: u16, first: u32, n: nat) -> Seq<Option<GlyphModel>> {
    Seq::new(
        n,
        |i: int|
            match char_at(first, i) {
                Some(ch) => match glyph_box(data, px, ch) {
                    Some(bounds) => Some(
                        GlyphModel {
                            bounds,
                            samples: image_samples(data, px, ch),
                            advance: raw_advance(data, px, ch) as u32,
                        },
                    ),
                    None => None,
                },
                None => None,
            },
    )
}

/// Rasterizes the characters of `range`, in ascending order of code point.
pub fn rasterize_range(face: &FontFace, px: u16, range: CharRange) -> (inputs: Vec<Option<GlyphInput>>)
    ensures
        models(inputs@) == range_models(face.bytes(), px, range.first as u32, range.count()),
{
    let first: u32 = range.first as u32;
    let last: u32 = range.last as u32;
    let mut inputs: Vec<Option<GlyphInput>> = Vec::new();
    if first > last {
        assert(models(inputs@) =~= range_models(face.bytes(), px, first, 0));
        return inputs;
    }
    let mut cp: u32 = first;
    loop
        invariant_except_break
            first <= cp <= last,
            inputs@.len() == cp - first,
            models(inputs@) == range_models(face.bytes(), px, first, (cp - first) as nat),
        ensures
            models(inputs@) == range_models(face.bytes(), px, first, (last - first + 1) as nat),
        decreases last - cp,
    {
        let input = match char::from_u32(cp) {
            Some(ch) => match face.raster(px, ch) {
                Some(raster) => Some(GlyphInput { raster, advance: face.advance(px, ch) }),
                None => None,
            },
            None => None,
        };
        let ghost before = inputs@;
        inputs.push(input);
        proof {
            let want = range_models(face.bytes(), px, first, (cp - first + 1) as nat);
            assert forall|j: int| 0 <= j < inputs@.len() implies models(inputs@)[j] == want[j] by {
                if j < before.len() {
                    assert(models(before)[j] == range_models(face.bytes(), px, first, (cp - first) as nat)[j]);
                    assert(inputs@[j] == before[j]);
                }
            }
            assert(models(inputs@) =~= want);
        }
        if cp == last {
            break;
        }
        cp += 1;
    }
    inputs
}

impl GlyphAtlas {
    /// The atlas is that of the characters of `range` in the font in
    /// `data` at `px` pixels height, in a bitmap of `size` pixels a side: it
    /// holds what packing the font's images gives.
    pub open spec fn built_from(&self, data: Seq<u8>, px: u16, range: CharRange, size: u32) -> bool {
        self.holds(size, px, range.first as u32, range_models(data, px, range.first as u32, range.count()))
    }
}

/// Builds the atlas of the characters of `range` in `face` at `px` pixels
/// height, in a bitmap of `size` pixels a side. Characters whose images no
/// longer fit get no glyph; that is no error.
pub fn build_atlas(face: &FontFace, px: u16, range: CharRange, size: u32) -> (atlas: GlyphAtlas)
    requires
        size * size <= usize::MAX,
    ensures
        atlas.built_from(face.bytes(), px, range, size),
        disjoint_glyphs(atlas@.glyphs),
        contained_glyphs(atlas@.glyphs, size as int, atlas@.used_height as int),
        atlas@.used_height <= size,
        atlas@.bitmap.len() == size * size,
{
    let inputs = rasterize_range(face, px, range);
    assert(models(inputs@).len() == inputs@.len());
    pack_glyphs(size, px, range.first, &inputs)
}

/// Determinism: two atlases built from the same font bytes, pixel height,
/// range and size are the same: the same glyphs, with the same places in
/// the bitmap, sizes, bearings and advances, and the same bitmap.
pub proof fn lemma_build_deterministic(
    a: GlyphAtlas,
    b: GlyphAtlas,
    data: Seq<u8>,
    px: u16,
    range: CharRange,
    size: u32,
)
    requires
        a.built_from(data, px, range, size),
        b.built_from(data, px, range, size),
    ensures
        a@ == b@,
        forall|ch: char| glyph_in(a@.glyphs, ch) == glyph_in(b@.glyphs, ch),
{
}

} // verus!

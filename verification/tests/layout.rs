use cargo_tap::atlas::{
    build_atlas, coverage_to_byte, pack_glyphs, rasterize_range, CharRange, Glyph, GlyphAtlas, GlyphInput,
    ShelfPacker,
};
use cargo_tap::color::Rgba;
use cargo_tap::font::{scaled_units, CoverageSample, FontFace, FontLoadFailure, PixelBox, RasterGlyph};
use cargo_tap::geometry::{GeometryBuilder, Vertex};
use cargo_tap::surface::{LayoutBounds, LayoutSurface, TextSurface, WriteResult};
use cargo_tap::text::{ColoredChar, ColoredLine, ColoredText};
use cargo_tap::ui::render_code_with_line_numbers;
use cargo_tap::ui_blocks::{
    display_cursor, CodeDisplayBlock, FooterBlock, HeaderBlock, SeparatorBlock, SessionView, UiBlock, UiContext,
};

const WHITE: Rgba = Rgba { r: 255, g: 255, b: 255, a: 255 };
const GREEN: Rgba = Rgba { r: 0, g: 255, b: 0, a: 128 };

fn be16(out: &mut Vec<u8>, v: u16) {
    out.extend_from_slice(&v.to_be_bytes());
}

fn be16s(out: &mut Vec<u8>, v: i16) {
    out.extend_from_slice(&v.to_be_bytes());
}

fn be32(out: &mut Vec<u8>, v: u32) {
    out.extend_from_slice(&v.to_be_bytes());
}

/// A font of 1024 units height, 768 of them above the baseline. Every
/// printable character but the space is a box from (64, 0) to (576, 704);
/// the space has no outline. Every advance is 640 units. At 16 pixels one
/// font unit is 1/64 pixel.
fn tiny_font() -> Vec<u8> {
    let mut head = Vec::new();
    be32(&mut head, 0x0001_0000);
    be32(&mut head, 0);
    be32(&mut head, 0);
    be32(&mut head, 0x5F0F_3CF5);
    be16(&mut head, 0);
    be16(&mut head, 1024);
    head.extend_from_slice(&[0; 16]);
    be16s(&mut head, 64);
    be16s(&mut head, 0);
    be16s(&mut head, 576);
    be16s(&mut head, 704);
    be16(&mut head, 0);
    be16(&mut head, 8);
    be16s(&mut head, 2);
    be16(&mut head, 1);
    be16(&mut head, 0);

    let mut hhea = Vec::new();
    be32(&mut hhea, 0x0001_0000);
    be16s(&mut hhea, 768);
    be16s(&mut hhea, -256);
    be16s(&mut hhea, 0);
    be16(&mut hhea, 640);
    be16s(&mut hhea, 0);
    be16s(&mut hhea, 0);
    be16s(&mut hhea, 576);
    be16s(&mut hhea, 1);
    be16s(&mut hhea, 0);
    be16s(&mut hhea, 0);
    hhea.extend_from_slice(&[0; 8]);
    be16s(&mut hhea, 0);
    be16(&mut hhea, 3);

    let mut maxp = Vec::new();
    be32(&mut maxp, 0x0000_5000);
    be16(&mut maxp, 3);

    let mut hmtx = Vec::new();
    for lsb in [0i16, 64, 0] {
        be16(&mut hmtx, 640);
        be16s(&mut hmtx, lsb);
    }

    let mut cmap = Vec::new();
    be16(&mut cmap, 0);
    be16(&mut cmap, 1);
    be16(&mut cmap, 0);
    be16(&mut cmap, 3);
    be32(&mut cmap, 12);
    be16(&mut cmap, 6);
    be16(&mut cmap, 10 + 2 * 95);
    be16(&mut cmap, 0);
    be16(&mut cmap, 32);
    be16(&mut cmap, 95);
    be16(&mut cmap, 2);
    for _ in 0..94 {
        be16(&mut cmap, 1);
    }

    let mut glyf = Vec::new();
    be16s(&mut glyf, 1);
    be16s(&mut glyf, 64);
    be16s(&mut glyf, 0);
    be16s(&mut glyf, 576);
    be16s(&mut glyf, 704);
    be16(&mut glyf, 3);
    be16(&mut glyf, 0);
    glyf.extend_from_slice(&[1, 1, 1, 1]);
    for dx in [64i16, 0, 512, 0] {
        be16s(&mut glyf, dx);
    }
    for dy in [0i16, 704, 0, -704] {
        be16s(&mut glyf, dy);
    }
    glyf.extend_from_slice(&[0, 0]);

    let mut loca = Vec::new();
    for offset in [0u32, 0, 36, 36] {
        be32(&mut loca, offset);
    }

    let tables: Vec<(&[u8; 4], Vec<u8>)> = vec![
        (b"cmap", cmap),
        (b"glyf", glyf),
        (b"head", head),
        (b"hhea", hhea),
        (b"hmtx", hmtx),
        (b"loca", loca),
        (b"maxp", maxp),
    ];
    let mut font = Vec::new();
    be32(&mut font, 0x0001_0000);
    be16(&mut font, 7);
    be16(&mut font, 64);
    be16(&mut font, 2);
    be16(&mut font, 48);
    let mut offset = 12 + 16 * tables.len();
    for (tag, data) in &tables {
        font.extend_from_slice(*tag);
        be32(&mut font, 0);
        be32(&mut font, offset as u32);
        be32(&mut font, data.len() as u32);
        offset += (data.len() + 3) / 4 * 4;
    }
    for (_, data) in &tables {
        font.extend_from_slice(data);
        while font.len() % 4 != 0 {
            font.push(0);
        }
    }
    font
}

fn face() -> FontFace {
    FontFace::load(tiny_font()).unwrap()
}

/// The frame for text at 16 pixels that holds `columns` characters on
/// each of `rows` lines.
fn frame(columns: u32, rows: u32) -> LayoutBounds {
    LayoutBounds { viewport_w: 640 * columns, viewport_h: 1024 * rows, line_height: 1024, ascent: 768, left_margin: 0 }
}

fn line_of(text: &str) -> ColoredLine {
    let mut line = ColoredLine::new();
    line.push_str(text, WHITE);
    line
}

fn boxes(n: usize, width: u32, height: u32) -> Vec<Option<GlyphInput>> {
    (0..n)
        .map(|_| {
            Some(GlyphInput {
                raster: RasterGlyph { bounds: PixelBox { left: 0, top: 0, width, height }, samples: Vec::new() },
                advance: 640,
            })
        })
        .collect()
}

fn overlap(a: &Glyph, b: &Glyph) -> bool {
    a.uv_min.0 < b.uv_max.0 && b.uv_min.0 < a.uv_max.0 && a.uv_min.1 < b.uv_max.1 && b.uv_min.1 < a.uv_max.1
}

fn all_glyphs(atlas: &GlyphAtlas) -> Vec<Glyph> {
    (0..=0x10FFFFu32).filter_map(char::from_u32).filter_map(|c| atlas.glyphs().get(c)).collect()
}

fn assert_disjoint(atlas: &GlyphAtlas) {
    let glyphs = all_glyphs(atlas);
    assert_eq!(glyphs.len(), atlas.glyphs().len());
    for (i, a) in glyphs.iter().enumerate() {
        for b in &glyphs[i + 1..] {
            assert!(!overlap(a, b));
        }
    }
}

#[test]
fn malformed_bytes_are_no_font() {
    assert_eq!(FontFace::load(Vec::new()).err(), Some(FontLoadFailure));
    assert_eq!(FontFace::load(b"not a font at all".to_vec()).err(), Some(FontLoadFailure));
    let mut cut = tiny_font();
    cut.truncate(40);
    assert_eq!(FontFace::load(cut).err(), Some(FontLoadFailure));
    assert!(FontFace::load(tiny_font()).is_ok());
}

#[test]
fn a_font_without_height_is_no_font() {
    let mut flat = tiny_font();
    let hhea = flat.windows(4).position(|w| w == b"hhea").unwrap();
    let at = u32::from_be_bytes([flat[hhea + 8], flat[hhea + 9], flat[hhea + 10], flat[hhea + 11]]) as usize;
    flat[at + 4..at + 8].copy_from_slice(&[0, 100, 0, 100]);
    assert_eq!(FontFace::load(flat).err(), Some(FontLoadFailure));
}

#[test]
fn metrics_are_scaled_to_units() {
    let face = face();
    assert_eq!(face.advance(16, 'A'), 640);
    assert_eq!(face.advance(16, ' '), 640);
    assert_eq!(face.advance(32, 'A'), 1280);
    assert_eq!(face.advance(10, 'A'), 400);
    assert_eq!(face.advance(0, 'A'), 0);
    assert_eq!(face.ascent(16), 768);
    assert_eq!(face.line_height(16), 1024);
    assert_eq!(scaled_units(600, 16, 1000), 614);
    assert_eq!(scaled_units(600, 16, 0), 0);
    assert_eq!(scaled_units(0, 16, 1000), 0);
    assert_eq!(scaled_units(65535, 65535, 1), u32::MAX);
}

#[test]
fn an_outline_is_rasterized_into_its_box() {
    let face = face();
    let raster = face.raster(16, 'A').unwrap();
    assert_eq!(raster.bounds, PixelBox { left: 1, top: -11, width: 8, height: 11 });
    assert_eq!(raster.samples.len(), 88);
    assert!(raster.samples.iter().all(|s| s.x < 8 && s.y < 11 && coverage_to_byte(s.coverage) >= 254));
    assert!(face.raster(16, ' ').is_none());
    assert!(face.raster(16, 'é').is_none());
}

#[test]
fn an_image_too_large_to_rasterize_keeps_its_box() {
    let face = face();
    let raster = face.raster(u16::MAX, 'A').unwrap();
    assert!(raster.bounds.width > 30000 && raster.bounds.height > 40000);
    assert!(raster.samples.is_empty());
    let raster = face.raster(1024, 'A').unwrap();
    assert_eq!(raster.bounds, PixelBox { left: 64, top: -704, width: 512, height: 704 });
    assert_eq!(raster.samples.len(), 512 * 704);
}

#[test]
fn an_image_is_not_rasterized_when_a_font_unit_is_larger_than_a_pixel() {
    let face = face();
    let raster = face.raster(1025, 'A').unwrap();
    assert_eq!(raster.bounds.width, 513);
    assert!(raster.samples.is_empty());
    let atlas = build_atlas(&face, 1025, CharRange { first: 'A', last: 'A' }, 1024);
    assert_eq!(atlas.glyphs().get('A').unwrap().size, (513, 705));
    assert!(atlas.bitmap().iter().all(|b| *b == 0));
}

#[test]
fn samples_come_row_by_row() {
    let face = face();
    let raster = face.raster(16, 'A').unwrap();
    for (k, sample) in raster.samples.iter().enumerate() {
        assert_eq!((sample.x as usize, sample.y as usize), (k % 8, k / 8));
    }
}

#[test]
fn coverage_becomes_a_byte() {
    assert_eq!(coverage_to_byte(0.0f32.to_bits()), 0);
    assert_eq!(coverage_to_byte(1.0f32.to_bits()), 255);
    assert_eq!(coverage_to_byte(0.5f32.to_bits()), 127);
    assert_eq!(coverage_to_byte(0.25f32.to_bits()), 63);
    assert_eq!(coverage_to_byte(0.999f32.to_bits()), 254);
    assert_eq!(coverage_to_byte((1.0f32 / 255.0).to_bits()), 1);
    assert_eq!(coverage_to_byte(0.0039f32.to_bits()), 0);
    assert_eq!(coverage_to_byte(1.5f32.to_bits()), 255);
    assert_eq!(coverage_to_byte(f32::INFINITY.to_bits()), 255);
    assert_eq!(coverage_to_byte(f32::NAN.to_bits()), 0);
    assert_eq!(coverage_to_byte((-0.5f32).to_bits()), 0);
    assert_eq!(coverage_to_byte((-0.0f32).to_bits()), 0);
    assert_eq!(coverage_to_byte(1.0e-40f32.to_bits()), 0);
    assert_eq!(coverage_to_byte(1.0e-20f32.to_bits()), 0);
}

#[test]
fn the_packer_fills_rows_from_left_to_right() {
    let mut packer = ShelfPacker::new(20);
    assert_eq!(packer.place(8, 5), Some((0, 0)));
    assert_eq!(packer.place(8, 7), Some((9, 0)));
    assert_eq!(packer.place(3, 2), Some((0, 8)));
    assert_eq!(packer.place(8, 9), Some((4, 8)));
    assert_eq!(packer.place(7, 9), Some((13, 8)));
    assert_eq!(packer.place(1, 1), Some((0, 18)));
    assert_eq!(packer.place(20, 1), None);
    assert_eq!((packer.x, packer.y, packer.row_height), (0, 20, 0));
}

#[test]
fn an_image_as_wide_as_the_atlas_fits_exactly() {
    let mut packer = ShelfPacker::new(10);
    assert_eq!(packer.place(10, 10), Some((0, 0)));
    assert_eq!(packer.place(1, 1), None);
    let mut packer = ShelfPacker::new(10);
    assert_eq!(packer.place(10, 11), None);
}

#[test]
fn the_atlas_of_ascii_at_16_pixels() {
    let face = face();
    let atlas = build_atlas(&face, 16, CharRange::ascii(), 512);
    assert_eq!(atlas.size(), 512);
    assert_eq!(atlas.px(), 16);
    assert_eq!(atlas.bitmap().len(), 512 * 512);
    assert_eq!(atlas.glyphs().len(), 94);
    assert!(atlas.glyphs().get(' ').is_none());
    assert_eq!(
        atlas.glyphs().get('!'),
        Some(Glyph { uv_min: (0, 0), uv_max: (8, 11), size: (8, 11), bearing: (1, -11), advance: 640 })
    );
    assert_eq!(atlas.glyphs().get('"').unwrap().uv_min, (9, 0));
    assert_eq!(atlas.glyphs().get('Y').unwrap().uv_min, (504, 0));
    assert_eq!(atlas.glyphs().get('Z').unwrap().uv_min, (0, 12));
    assert_eq!(atlas.glyphs().get('~').unwrap().uv_min, (36 * 9, 12));
    assert!(atlas.glyphs().get('\u{1F}').is_none());
    assert!(atlas.glyphs().get('\u{7F}').is_none());
    assert!(atlas.glyphs().get('é').is_none());
    assert_eq!(atlas.used_height(), 23);
    assert_eq!(atlas.utilization_percent(), 4);
    assert!(atlas.utilization_percent() < 100);
    assert!(!atlas.overflowed());
    assert_disjoint(&atlas);
    assert!(atlas.bitmap()[0] >= 254);
    assert!(atlas.bitmap()[10 * 512 + 7] >= 254);
    assert_eq!(atlas.bitmap()[8], 0);
    assert_eq!(atlas.bitmap()[11 * 512], 0);
    assert!(atlas.bitmap()[12 * 512] >= 254);
}

#[test]
fn ninety_five_images_fit_into_512_pixels() {
    let atlas = pack_glyphs(512, 16, ' ', &boxes(95, 10, 19));
    assert_eq!(atlas.glyphs().len(), 95);
    assert!((' '..='~').all(|c| atlas.glyphs().get(c).is_some()));
    assert_eq!(atlas.glyphs().get('M').unwrap().uv_min, (45 * 11, 0));
    assert_eq!(atlas.glyphs().get('N').unwrap().uv_min, (0, 20));
    assert_eq!(atlas.glyphs().get('~').unwrap().uv_max, (32, 59));
    assert_eq!(atlas.used_height(), 59);
    assert_eq!(atlas.utilization_percent(), 11);
    assert!(!atlas.overflowed());
    assert!(atlas.utilization_percent() < 100);
    assert_disjoint(&atlas);
}

#[test]
fn building_twice_gives_the_same_atlas() {
    let face = face();
    let one = build_atlas(&face, 16, CharRange::ascii(), 128);
    let other = build_atlas(&FontFace::load(tiny_font()).unwrap(), 16, CharRange::ascii(), 128);
    assert_eq!(all_glyphs(&one), all_glyphs(&other));
    assert!((' '..='~').all(|c| one.glyphs().get(c) == other.glyphs().get(c)));
    assert_eq!(one.bitmap(), other.bitmap());
    assert_eq!(one.used_height(), other.used_height());
}

#[test]
fn images_that_no_longer_fit_are_left_out() {
    let face = face();
    let atlas = build_atlas(&face, 16, CharRange::ascii(), 30);
    let placed: Vec<char> = (' '..='~').filter(|c| atlas.glyphs().get(*c).is_some()).collect();
    assert_eq!(placed, vec!['!', '"', '#', '$', '%', '&']);
    assert_eq!(atlas.glyphs().get('&').unwrap().uv_min, (18, 12));
    assert_eq!(atlas.used_height(), 23);
    assert_eq!(atlas.utilization_percent(), 76);
    assert!(atlas.overflowed());
    assert_disjoint(&atlas);
}

#[test]
fn after_the_first_image_that_does_not_fit_none_is_tried() {
    let mut inputs = boxes(2, 4, 4);
    inputs.insert(1, boxes(1, 4, 20).pop().unwrap());
    inputs.insert(1, None);
    let atlas = pack_glyphs(10, 16, 'a', &inputs);
    assert!(atlas.glyphs().get('a').is_some());
    assert!(atlas.glyphs().get('b').is_none());
    assert!(atlas.glyphs().get('c').is_none());
    assert!(atlas.glyphs().get('d').is_none());
    assert_eq!(atlas.glyphs().len(), 1);
}

#[test]
fn samples_are_written_at_the_image_and_dropped_outside_the_atlas() {
    let full = 1.0f32.to_bits();
    let half = 0.5f32.to_bits();
    let image = |samples: Vec<CoverageSample>| {
        Some(GlyphInput {
            raster: RasterGlyph { bounds: PixelBox { left: 0, top: 0, width: 2, height: 2 }, samples },
            advance: 1,
        })
    };
    let inputs = vec![
        image(vec![CoverageSample { x: 0, y: 0, coverage: full }, CoverageSample { x: 1, y: 1, coverage: half }]),
        image(vec![
            CoverageSample { x: 0, y: 1, coverage: full },
            CoverageSample { x: 0, y: 1, coverage: half },
            CoverageSample { x: 1, y: 0, coverage: full },
            CoverageSample { x: 0, y: 4, coverage: full },
        ]),
    ];
    let atlas = pack_glyphs(5, 16, 'a', &inputs);
    assert_eq!(atlas.glyphs().get('b').unwrap().uv_min, (3, 0));
    let mut want = vec![0u8; 25];
    want[0] = 255;
    want[5 + 1] = 127;
    want[5 + 3] = 127;
    want[4] = 255;
    want[4 * 5 + 3] = 255;
    assert_eq!(atlas.bitmap(), &want);
}

#[test]
fn a_range_is_rasterized_in_ascending_order() {
    let face = face();
    let inputs = rasterize_range(&face, 16, CharRange { first: '~', last: '\u{80}' });
    assert_eq!(inputs.len(), 3);
    assert!(inputs[0].is_some());
    assert!(inputs[1].is_none());
    assert!(inputs[2].is_none());
    assert!(rasterize_range(&face, 16, CharRange { first: 'b', last: 'a' }).is_empty());
    let across = rasterize_range(&face, 16, CharRange { first: '\u{D7FF}', last: '\u{E000}' });
    assert_eq!(across.len(), 0x802);
}

#[test]
fn quads_have_six_vertices() {
    let mut geometry = GeometryBuilder::new();
    geometry.push_quad(1, 2, 3, 4, (5, 6), (7, 8), WHITE);
    let v = |x: i64, y: i64, u: u32, w: u32| Vertex { position: (x, y), uv: (u, w), color: WHITE };
    assert_eq!(
        geometry.vertices,
        vec![v(1, 2, 5, 6), v(3, 2, 7, 6), v(1, 4, 5, 8), v(3, 2, 7, 6), v(3, 4, 7, 8), v(1, 4, 5, 8)]
    );
    let glyph = Glyph { uv_min: (9, 0), uv_max: (17, 11), size: (8, 11), bearing: (1, -11), advance: 640 };
    geometry.push_glyph(1000, 2000, &glyph, GREEN);
    assert_eq!(geometry.len(), 12);
    assert_eq!(geometry.vertices[6], Vertex { position: (1064, 1296), uv: (9, 0), color: GREEN });
    assert_eq!(geometry.vertices[10], Vertex { position: (1576, 2000), uv: (17, 11), color: GREEN });
    geometry.push_background(1000, 2000, 640, 1024, 768, GREEN);
    assert_eq!(geometry.vertices[12], Vertex { position: (1000, 1232), uv: (0, 0), color: GREEN });
    assert_eq!(geometry.vertices[16], Vertex { position: (1640, 2256), uv: (0, 0), color: GREEN });
}

#[test]
fn a_character_that_fits_is_placed_and_the_pen_advances() {
    let face = face();
    let atlas = build_atlas(&face, 16, CharRange::ascii(), 512);
    let mut surface = LayoutSurface::new(&face, &atlas, frame(10, 3), 0, 768);
    assert_eq!(surface.write_char(&ColoredChar::new('"', WHITE)), WriteResult::Written);
    assert_eq!(surface.cursor(), (640, 768));
    let vertices = surface.vertices();
    assert_eq!(vertices.len(), 6);
    assert_eq!(vertices[0], Vertex { position: (64, 64), uv: (9, 0), color: WHITE });
    assert_eq!(vertices[4], Vertex { position: (576, 768), uv: (17, 11), color: WHITE });
}

#[test]
fn a_character_that_does_not_fit_changes_nothing() {
    let face = face();
    let atlas = build_atlas(&face, 16, CharRange::ascii(), 512);
    let mut bounds = frame(1, 3);
    bounds.viewport_w = 639;
    let mut surface = LayoutSurface::new(&face, &atlas, bounds, 0, 768);
    assert_eq!(
        surface.write_char(&ColoredChar::with_background('A', WHITE, GREEN)),
        WriteResult::Overflow { written: 0 }
    );
    assert_eq!(surface.cursor(), (0, 768));
    assert!(surface.vertices().is_empty());

    let mut low = LayoutSurface::new(&face, &atlas, frame(10, 3), 0, 768 + 2048 + 1);
    assert_eq!(low.write_char(&ColoredChar::new('A', WHITE)), WriteResult::Overflow { written: 0 });
    assert_eq!(low.cursor(), (0, 768 + 2048 + 1));
    assert!(low.into_vertices().is_empty());
}

#[test]
fn a_highlight_without_a_glyph_is_one_quad() {
    let face = face();
    let atlas = build_atlas(&face, 16, CharRange::ascii(), 512);
    for ch in [' ', 'é', '│'] {
        let mut surface = LayoutSurface::new(&face, &atlas, frame(10, 3), 100, 768);
        assert_eq!(surface.write_char(&ColoredChar::with_background(ch, WHITE, GREEN)), WriteResult::Written);
        assert_eq!(surface.cursor(), (740, 768));
        let v = |x: i64, y: i64| Vertex { position: (x, y), uv: (0, 0), color: GREEN };
        assert_eq!(
            surface.into_vertices(),
            vec![v(100, 0), v(740, 0), v(100, 1024), v(740, 0), v(740, 1024), v(100, 1024)]
        );
    }
    let mut surface = LayoutSurface::new(&face, &atlas, frame(10, 3), 100, 768);
    assert_eq!(surface.write_char(&ColoredChar::new(' ', WHITE)), WriteResult::Written);
    assert_eq!(surface.cursor(), (740, 768));
    assert!(surface.vertices().is_empty());
}

#[test]
fn a_highlight_is_drawn_before_its_glyph() {
    let face = face();
    let atlas = build_atlas(&face, 16, CharRange::ascii(), 512);
    let mut surface = LayoutSurface::new(&face, &atlas, frame(10, 3), 0, 768);
    surface.write_char(&ColoredChar::with_background('!', WHITE, GREEN));
    let vertices = surface.into_vertices();
    assert_eq!(vertices.len(), 12);
    assert!(vertices[..6].iter().all(|v| v.color == GREEN && v.uv == (0, 0)));
    assert!(vertices[6..].iter().all(|v| v.color == WHITE));
    assert_eq!(vertices[10].uv, (8, 11));
}

#[test]
fn a_carriage_return_does_nothing_and_a_line_feed_breaks() {
    let face = face();
    let atlas = build_atlas(&face, 16, CharRange::ascii(), 512);
    let mut bounds = frame(10, 3);
    bounds.left_margin = 30;
    let mut surface = LayoutSurface::new(&face, &atlas, bounds, 500, 768);
    assert_eq!(surface.write_char(&ColoredChar::new('\r', WHITE)), WriteResult::Written);
    assert_eq!(surface.cursor(), (500, 768));
    assert_eq!(surface.write_char(&ColoredChar::with_background('\n', WHITE, GREEN)), WriteResult::Written);
    assert_eq!(surface.cursor(), (30, 1792));
    assert!(surface.vertices().is_empty());
}

#[test]
fn a_break_moves_the_pen_even_when_it_overflows() {
    let face = face();
    let atlas = build_atlas(&face, 16, CharRange::ascii(), 512);
    let mut surface = LayoutSurface::new(&face, &atlas, frame(10, 2), 500, 768);
    assert_eq!(surface.write_break(), WriteResult::Written);
    assert_eq!(surface.cursor(), (0, 1792));
    assert_eq!(surface.write_break(), WriteResult::Overflow { written: 0 });
    assert_eq!(surface.cursor(), (0, 2816));
    assert_eq!(surface.write_break(), WriteResult::Overflow { written: 0 });
    assert_eq!(surface.cursor(), (0, 3840));
}

#[test]
fn a_line_stops_at_the_first_overflow() {
    let face = face();
    let atlas = build_atlas(&face, 16, CharRange::ascii(), 512);
    let mut surface = LayoutSurface::new(&face, &atlas, frame(10, 3), 0, 768);
    assert_eq!(surface.write_line(&line_of("12345678")), WriteResult::Written);
    assert_eq!(surface.cursor(), (5120, 768));
    assert_eq!(surface.write_line(&line_of("abcde")), WriteResult::Overflow { written: 2 });
    assert_eq!(surface.cursor(), (6400, 768));
    assert_eq!(surface.vertices().len(), 60);
    assert_eq!(surface.write_line(&line_of("")), WriteResult::Written);
    assert_eq!(surface.write_line(&line_of("\r")), WriteResult::Written);
    assert_eq!(surface.write_line(&line_of("x")), WriteResult::Overflow { written: 0 });
}

#[test]
fn wrapping_a_hundred_characters_into_three_lines_of_ten() {
    let face = face();
    let atlas = build_atlas(&face, 16, CharRange::ascii(), 512);
    let mut surface = LayoutSurface::new(&face, &atlas, frame(10, 3), 0, 768);
    let line = line_of(&"x".repeat(100));
    assert_eq!(surface.write_line_wordwrap(&line), WriteResult::Overflow { written: 30 });
    assert_eq!(surface.cursor(), (0, 768 + 3 * 1024));
    assert_eq!(surface.vertices().len(), 30 * 6);
}

#[test]
fn wrapping_breaks_inside_words() {
    let face = face();
    let atlas = build_atlas(&face, 16, CharRange::ascii(), 512);
    let mut surface = LayoutSurface::new(&face, &atlas, frame(4, 3), 0, 768);
    assert_eq!(surface.write_line_wordwrap(&line_of("ab cdefgh")), WriteResult::Written);
    assert_eq!(surface.cursor(), (640, 768 + 2 * 1024));
    let vertices = surface.into_vertices();
    assert_eq!(vertices.len(), 8 * 6);
    assert_eq!(vertices[3 * 6].position, (64, 1024 + 64));
    assert_eq!(vertices[7 * 6].position, (64, 2048 + 64));
}

#[test]
fn wrapping_what_fits_breaks_nothing() {
    let face = face();
    let atlas = build_atlas(&face, 16, CharRange::ascii(), 512);
    let mut surface = LayoutSurface::new(&face, &atlas, frame(4, 1), 0, 768);
    assert_eq!(surface.write_line_wordwrap(&line_of("abcd")), WriteResult::Written);
    assert_eq!(surface.cursor(), (2560, 768));
    assert_eq!(surface.write_line_wordwrap(&line_of("")), WriteResult::Written);
    assert_eq!(surface.write_line_wordwrap(&line_of("e")), WriteResult::Overflow { written: 0 });
    assert_eq!(surface.cursor(), (0, 1792));
}

#[test]
fn wrapping_a_character_wider_than_the_viewport_ends_at_the_bottom() {
    let face = face();
    let atlas = build_atlas(&face, 16, CharRange::ascii(), 512);
    let mut bounds = frame(1, 3);
    bounds.viewport_w = 100;
    let mut surface = LayoutSurface::new(&face, &atlas, bounds, 0, 768);
    assert_eq!(surface.write_line_wordwrap(&line_of("ab")), WriteResult::Overflow { written: 0 });
    assert_eq!(surface.cursor(), (0, 768 + 3 * 1024));
    assert!(surface.vertices().is_empty());
}

#[test]
fn wrapping_counts_line_feeds_as_written() {
    let face = face();
    let atlas = build_atlas(&face, 16, CharRange::ascii(), 512);
    let mut surface = LayoutSurface::new(&face, &atlas, frame(3, 4), 0, 768);
    assert_eq!(surface.write_line_wordwrap(&line_of("ab\ncdef")), WriteResult::Written);
    assert_eq!(surface.cursor(), (640, 768 + 2 * 1024));
    let mut surface = LayoutSurface::new(&face, &atlas, frame(3, 2), 0, 768);
    assert_eq!(surface.write_line_wordwrap(&line_of("ab\ncdef")), WriteResult::Overflow { written: 6 });
}

fn context(code: &str) -> UiContext {
    UiContext {
        header_color: WHITE,
        default_color: WHITE,
        file_path: "a.rs".to_string(),
        cursor_position: 0,
        total_length: code.len(),
        progress_percent: "0.0".to_string(),
        show_profiling_info: false,
        fps: "60.0".to_string(),
        key_ms: "0.000".to_string(),
        text_update_ms: "0.000".to_string(),
        ui_generation_ms: "0.000".to_string(),
        rainbow_effects: false,
        session: SessionView::NotStarted,
        code: ColoredText::from_str_with_color(code, WHITE),
        scroll_offset: 0,
        cursor_line: 1,
    }
}

#[test]
fn a_block_writes_its_lines_one_below_the_other() {
    let face = face();
    let atlas = build_atlas(&face, 16, CharRange::ascii(), 512);
    let mut surface = LayoutSurface::new(&face, &atlas, frame(40, 10), 0, 768);
    let ctx = context("ab");
    HeaderBlock.render(&ctx, &mut surface);
    assert_eq!(surface.cursor(), (0, 768 + 1024));
    assert_eq!(surface.vertices().len(), 6 * 16);
    FooterBlock.render(&ctx, &mut surface);
    assert_eq!(surface.cursor(), (0, 768 + 3 * 1024));
    (SeparatorBlock { width: 3 }).render(&ctx, &mut surface);
    assert_eq!(surface.cursor(), (0, 768 + 4 * 1024));
}

#[test]
fn a_block_is_cut_off_where_it_overflows() {
    let face = face();
    let atlas = build_atlas(&face, 16, CharRange::ascii(), 512);
    let mut surface = LayoutSurface::new(&face, &atlas, frame(5, 10), 0, 768);
    HeaderBlock.render(&context("ab"), &mut surface);
    assert_eq!(surface.cursor(), (0, 768 + 1024));
    assert_eq!(surface.vertices().len(), 6 * 3);
}

#[test]
fn code_is_written_behind_its_line_numbers() {
    let face = face();
    let atlas = build_atlas(&face, 16, CharRange::ascii(), 512);
    let mut surface = LayoutSurface::new(&face, &atlas, frame(40, 10), 0, 768);
    let code = ColoredText::from_str_with_color("ab\nc", WHITE);
    render_code_with_line_numbers(&mut surface, &code, 3, 0, Some(2), WHITE);
    assert_eq!(surface.cursor(), (0, 768 + 2 * 1024));
    let vertices = surface.into_vertices();
    assert_eq!(vertices.len(), 6 * (3 + 3));
    let gold = Rgba { r: 255, g: 217, b: 51, a: 255 };
    let gray = Rgba { r: 128, g: 128, b: 153, a: 255 };
    assert_eq!(vertices[0].color, gray);
    assert_eq!(vertices[0].position, (2 * 640 + 64, 64));
    assert_eq!(vertices[6].position, (6 * 640 + 64, 64));
    assert_eq!(vertices[18].color, gold);
    assert_eq!(vertices[18].position, (2 * 640 + 64, 1024 + 64));
    let caret = Rgba { r: 0, g: 255, b: 0, a: 128 };
    assert_eq!(vertices[24].color, caret);
    assert_eq!(vertices[24].position, (6 * 640, 1024));
    assert_eq!(vertices[30].color, WHITE);
}

#[test]
fn the_code_block_scrolls_and_moves_the_caret_along() {
    let face = face();
    let atlas = build_atlas(&face, 16, CharRange::ascii(), 512);
    let mut surface = LayoutSurface::new(&face, &atlas, frame(40, 10), 0, 768);
    let mut ctx = context("ab\ncd\nef");
    ctx.scroll_offset = 1;
    ctx.cursor_position = 4;
    ctx.cursor_line = 2;
    let lines = CodeDisplayBlock.build(&ctx);
    let shown: Vec<String> = lines.iter().map(|l| l.chars.iter().map(|c| c.ch).collect()).collect();
    assert_eq!(shown, vec!["  2 │ cd".to_string(), "  3 │ ef".to_string()]);
    assert_eq!(lines[0].chars[7].background_color, Some(Rgba { r: 0, g: 255, b: 0, a: 128 }));
    assert_eq!(lines[0].chars[6].background_color, None);
    CodeDisplayBlock.render(&ctx, &mut surface);
    assert_eq!(surface.cursor(), (0, 768 + 2 * 1024));
}

#[test]
fn the_caret_in_the_display_never_goes_below_zero() {
    let code = ColoredText::from_str_with_color("ab\ncé\nef", WHITE);
    assert_eq!(display_cursor(&code, 10, 0), 10);
    assert_eq!(display_cursor(&code, 10, 1), 7);
    assert_eq!(display_cursor(&code, 10, 2), 3);
    assert_eq!(display_cursor(&code, 10, 3), 0);
    assert_eq!(display_cursor(&code, 10, 9), 0);
    assert_eq!(display_cursor(&code, 2, 1), 0);
    assert_eq!(display_cursor(&code, 3, 1), 0);
    assert_eq!(display_cursor(&code, 4, 1), 1);
}

#[test]
fn a_text_is_written_line_by_line_until_the_window_is_full() {
    let face = face();
    let atlas = build_atlas(&face, 16, CharRange::ascii(), 512);
    let text = ColoredText::from_str_with_color("abcde\nfg\n\nh", WHITE);

    let mut surface = LayoutSurface::new(&face, &atlas, frame(4, 8), 0, 768);
    assert_eq!(surface.write_text(&text), WriteResult::Written);
    assert_eq!(surface.cursor(), (0, 768 + 5 * 1024));
    assert_eq!(surface.vertices().len(), 8 * 6);

    let mut surface = LayoutSurface::new(&face, &atlas, frame(4, 5), 0, 768);
    assert_eq!(surface.write_text(&text), WriteResult::Overflow { written: 8 });
    assert_eq!(surface.cursor(), (0, 768 + 5 * 1024));

    let mut surface = LayoutSurface::new(&face, &atlas, frame(4, 3), 0, 768);
    assert_eq!(surface.write_text(&text), WriteResult::Overflow { written: 7 });
    assert_eq!(surface.cursor(), (0, 768 + 3 * 1024));
    assert_eq!(surface.vertices().len(), 7 * 6);

    let mut surface = LayoutSurface::new(&face, &atlas, frame(4, 1), 0, 768);
    assert_eq!(surface.write_text(&text), WriteResult::Overflow { written: 4 });
    assert_eq!(surface.cursor(), (0, 768 + 1024));

    let mut surface = LayoutSurface::new(&face, &atlas, frame(4, 1), 0, 768);
    assert_eq!(surface.write_text(&ColoredText::new()), WriteResult::Overflow { written: 0 });
    assert_eq!(surface.cursor(), (0, 768 + 1024));
}

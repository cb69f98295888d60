use pcf_font::{
    load_pcf_font, Baseline, DecorationColor, DrawOp, Error, GlyphPaddingFormat, PcfFont,
    PcfFontStyle, PcfFontStyleBuilder, Point, Rectangle, Size,
};

/// Options for the container assembled by `font_bytes`.
struct Layout {
    pad: u32,
    bitmap_flags: u32,
    metrics_count: u16,
    with_accelerators: bool,
    magic: [u8; 4],
}

fn normal() -> Layout {
    Layout {
        pad: 2,
        bitmap_flags: 0x0C,
        metrics_count: 3,
        with_accelerators: true,
        magic: [0x01, 0x66, 0x63, 0x70],
    }
}

/// (left bearing, right bearing, advance, ascent, descent, rows padded to bytes)
fn glyphs() -> Vec<(i8, i8, i8, i8, i8, Vec<Vec<u8>>)> {
    vec![
        (
            0,
            5,
            6,
            4,
            1,
            vec![vec![0x70], vec![0x88], vec![0xF8], vec![0x88], vec![0x88]],
        ),
        (1, 4, 5, 3, 0, vec![vec![0xE0], vec![0xA0], vec![0xE0]]),
        (0, 9, 10, 2, 0, vec![vec![0xFF, 0x80], vec![0x80, 0x80]]),
    ]
}

fn push_le32(v: &mut Vec<u8>, x: u32) {
    v.extend_from_slice(&x.to_le_bytes());
}

fn push_be32(v: &mut Vec<u8>, x: u32) {
    v.extend_from_slice(&x.to_be_bytes());
}

fn push_be16(v: &mut Vec<u8>, x: u16) {
    v.extend_from_slice(&x.to_be_bytes());
}

fn push_metrics(v: &mut Vec<u8>, lsb: i16, rsb: i16, width: i16, ascent: i16, descent: i16) {
    for x in [lsb, rsb, width, ascent, descent] {
        v.extend_from_slice(&x.to_be_bytes());
    }
    push_be16(v, 0);
}

/// A container with three glyphs for 'A', 'B' and 'C'; 'D' has no glyph.
fn font_bytes(layout: &Layout) -> Vec<u8> {
    let unit: usize = 1 << layout.pad;
    // bitmaps
    let mut bitmaps = Vec::new();
    push_le32(&mut bitmaps, layout.bitmap_flags | layout.pad);
    push_be32(&mut bitmaps, 3);
    let mut data = Vec::new();
    let mut offsets = Vec::new();
    for (lsb, rsb, _, _, _, rows) in glyphs() {
        offsets.push(data.len() as u32);
        let width = (rsb - lsb) as usize;
        let stored = (width + 8 * unit - 1) / (8 * unit) * unit;
        for row in rows {
            let mut r = row.clone();
            while r.len() < stored {
                // padding that a reader must skip
                r.push(0xEE);
            }
            data.extend_from_slice(&r);
        }
    }
    for o in offsets {
        push_be32(&mut bitmaps, o);
    }
    for _ in 0..4 {
        push_be32(&mut bitmaps, data.len() as u32);
    }
    bitmaps.extend_from_slice(&data);
    // metrics, compressed
    let mut metrics = Vec::new();
    push_le32(&mut metrics, 0x10C);
    push_be16(&mut metrics, layout.metrics_count);
    for (lsb, rsb, width, ascent, descent, _) in glyphs() {
        for x in [lsb, rsb, width, ascent, descent] {
            metrics.push((x as i16 + 0x80) as u8);
        }
    }
    // encodings: 'A'..='D' in a single row, default 'A'
    let mut encodings = Vec::new();
    push_le32(&mut encodings, 0x0C);
    for x in [0x41u16, 0x44, 0, 0, 0x41] {
        push_be16(&mut encodings, x);
    }
    for x in [0u16, 1, 2, 0xFFFF] {
        push_be16(&mut encodings, x);
    }
    // accelerators
    let mut accel = Vec::new();
    push_le32(&mut accel, 0x0C);
    accel.extend_from_slice(&[0; 8]);
    accel.extend_from_slice(&4i32.to_be_bytes());
    accel.extend_from_slice(&1i32.to_be_bytes());
    push_be32(&mut accel, 0);
    push_metrics(&mut accel, 0, 3, 5, 2, 0);
    push_metrics(&mut accel, 1, 9, 10, 4, 1);

    let mut tables: Vec<(u32, u32, Vec<u8>)> = vec![
        (0x08, layout.bitmap_flags | layout.pad, bitmaps),
        (0x04, 0x10C, metrics),
        (0x20, 0x0C, encodings),
    ];
    if layout.with_accelerators {
        tables.push((0x02, 0x0C, accel));
    }
    let mut out = Vec::new();
    out.extend_from_slice(&layout.magic);
    push_le32(&mut out, tables.len() as u32);
    let mut offset = 8 + 16 * tables.len();
    for (kind, format, body) in &tables {
        push_le32(&mut out, *kind);
        push_le32(&mut out, *format);
        push_le32(&mut out, body.len() as u32);
        push_le32(&mut out, offset as u32);
        offset += body.len();
    }
    for (_, _, body) in &tables {
        out.extend_from_slice(body);
    }
    out
}

fn load(layout: &Layout) -> PcfFont {
    match load_pcf_font(font_bytes(layout)) {
        Ok(f) => f,
        Err(e) => panic!("font did not load: {:?}", e),
    }
}

fn load_error(bytes: Vec<u8>) -> Error {
    match load_pcf_font(bytes) {
        Ok(_) => panic!("font loaded"),
        Err(e) => e,
    }
}

#[test]
fn well_formed_container_loads() {
    let font = load(&normal());
    assert!(font.glyph_count() > 0);
    assert_eq!(font.glyph_count(), 3);
    // width 9 - 0, height 4 + 1, x offset 0, y offset -1
    assert_eq!(font.bounding_box(), (9, 5, 0, -1));
    assert!(font.bounding_box().1 >= 0);
    assert_eq!(font.ascent(), 4);
    assert_eq!(font.desent(), 1);
    assert_eq!(font.row_padding_mode(), GlyphPaddingFormat::Int);
    assert_eq!(font.default_char(), 0x41);
    assert_eq!(font.max_bytes_per_glyph(), 10);
}

#[test]
fn padding_modes_are_read() {
    let mut layout = normal();
    layout.pad = 0;
    assert_eq!(load(&layout).row_padding_mode(), GlyphPaddingFormat::Byte);
    layout.pad = 1;
    assert_eq!(load(&layout).row_padding_mode(), GlyphPaddingFormat::Short);
}

#[test]
fn bad_magic_is_unsupported() {
    let mut layout = normal();
    layout.magic = [0x01, 0x66, 0x63, 0x71];
    assert_eq!(load_error(font_bytes(&layout)), Error::UnsupportedFormat);
}

#[test]
fn metrics_count_mismatch_is_corrupted() {
    let mut layout = normal();
    layout.metrics_count = 2;
    assert_eq!(load_error(font_bytes(&layout)), Error::CorruptedData);
}

#[test]
fn missing_table_is_corrupted() {
    let mut layout = normal();
    layout.with_accelerators = false;
    assert_eq!(load_error(font_bytes(&layout)), Error::CorruptedData);
}

#[test]
fn least_significant_byte_first_is_unsupported() {
    let mut layout = normal();
    layout.bitmap_flags = 0x08;
    assert_eq!(load_error(font_bytes(&layout)), Error::UnsupportedFormat);
}

#[test]
fn wide_scan_unit_is_unsupported() {
    let mut layout = normal();
    layout.bitmap_flags = 0x1C;
    assert_eq!(load_error(font_bytes(&layout)), Error::UnsupportedFormat);
}

#[test]
fn reserved_padding_is_corrupted() {
    let mut layout = normal();
    layout.pad = 3;
    assert_eq!(load_error(font_bytes(&layout)), Error::CorruptedData);
}

#[test]
fn truncated_container_is_io() {
    let mut bytes = font_bytes(&normal());
    bytes.truncate(bytes.len() - 10);
    assert_eq!(load_error(bytes), Error::Io);
    assert_eq!(load_error(vec![0x01, 0x66]), Error::Io);
    assert_eq!(load_error(vec![0x01, 0x66, 0x63, 0x70, 0x01]), Error::Io);
}

#[test]
fn glyph_rows_are_padded_to_bytes() {
    for pad in [0u32, 1, 2] {
        let mut layout = normal();
        layout.pad = pad;
        let font = load(&layout);
        let mut buf = [0xAAu8; 12];
        assert_eq!(font.read_glyph_raw('A' as u16, &mut buf), Ok((5, 5)));
        assert_eq!(&buf[..5], &[0x70, 0x88, 0xF8, 0x88, 0x88]);
        assert_eq!(buf[5], 0xAA);
        assert_eq!(font.read_glyph_raw('C' as u16, &mut buf), Ok((4, 9)));
        assert_eq!(&buf[..4], &[0xFF, 0x80, 0x80, 0x80]);
        assert_eq!(font.read_glyph_raw('B' as u16, &mut buf), Ok((3, 3)));
        assert_eq!(&buf[..3], &[0xE0, 0xA0, 0xE0]);
    }
}

#[test]
fn code_point_outside_range_is_not_found() {
    let font = load(&normal());
    let mut buf = [0u8; 16];
    assert_eq!(font.read_glyph_raw('Z' as u16, &mut buf), Err(Error::NotFound));
    assert_eq!(font.read_glyph_raw('@' as u16, &mut buf), Err(Error::NotFound));
    assert_eq!(font.read_glyph_raw(0x0141, &mut buf), Err(Error::NotFound));
    assert_eq!(font.get_glyph_metrics(0x0141), Err(Error::NotFound));
    assert_eq!(buf, [0u8; 16]);
}

#[test]
fn empty_slot_is_not_found() {
    let font = load(&normal());
    let mut buf = [0u8; 16];
    assert_eq!(font.read_glyph_raw('D' as u16, &mut buf), Err(Error::NotFound));
    assert_eq!(font.get_glyph_metrics('D' as u16), Err(Error::NotFound));
}

#[test]
fn small_buffer_is_refused() {
    let font = load(&normal());
    let mut buf = [0u8; 3];
    assert_eq!(font.read_glyph_raw('A' as u16, &mut buf), Err(Error::Other));
    assert_eq!(buf, [0u8; 3]);
}

#[test]
fn glyph_metrics_are_read() {
    let font = load(&normal());
    let m = font.get_glyph_metrics('B' as u16).unwrap();
    assert_eq!(m.left_side_bearing, 1);
    assert_eq!(m.right_side_bearing, 4);
    assert_eq!(m.character_width, 5);
    assert_eq!(m.character_ascent, 3);
    assert_eq!(m.character_descent, 0);
}

fn glyph_op(x: i32, y: i32, width: u32, data: Vec<u8>, color: u8) -> DrawOp<u8> {
    DrawOp::Glyph { top_left: Point { x, y }, width, data, color }
}

fn fill_op(x: i32, y: i32, width: u32, height: u32, color: u8) -> DrawOp<u8> {
    DrawOp::Fill {
        area: Rectangle { top_left: Point { x, y }, size: Size { width, height } },
        color,
    }
}

#[test]
fn baseline_offsets() {
    let font = load(&normal());
    let style: PcfFontStyle<u8> = PcfFontStyle::new(&font);
    assert_eq!(style.baseline_offset(Baseline::Top), 4);
    assert_eq!(style.baseline_offset(Baseline::Bottom), 0);
    assert_eq!(style.baseline_offset(Baseline::Middle), 2);
    assert_eq!(style.baseline_offset(Baseline::Alphabetic), 1);
    assert_eq!(style.line_height(), 5);
}

#[test]
fn single_character_measures_its_advance() {
    let font = load(&normal());
    let style: PcfFontStyle<u8> = PcfFontStyle::new(&font);
    let m = style.measure_string("A", Point { x: 0, y: 0 }, Baseline::Top);
    assert_eq!(m.bounding_box.size.width, 6);
    let m = style.measure_string("B", Point { x: 3, y: 7 }, Baseline::Alphabetic);
    assert_eq!(m.bounding_box.size, Size { width: 5, height: 5 });
    // top of the box is 4 - 1 above the alphabetic pen line
    assert_eq!(m.bounding_box.top_left, Point { x: 3, y: 4 });
    assert_eq!(m.next_position, Point { x: 8, y: 7 });
}

#[test]
fn string_measures_sum_of_advances() {
    let font = load(&normal());
    let style: PcfFontStyle<u8> = PcfFontStyle::new(&font);
    let m = style.measure_string("ABC", Point { x: 1, y: 2 }, Baseline::Top);
    assert_eq!(m.bounding_box, Rectangle {
        top_left: Point { x: 1, y: 2 },
        size: Size { width: 21, height: 5 },
    });
    assert_eq!(m.next_position, Point { x: 22, y: 2 });
}

#[test]
fn empty_string_measures_and_draws_nothing() {
    let font = load(&normal());
    let style = PcfFontStyleBuilder::new(&font)
        .text_color(1u8)
        .background_color(0u8)
        .underline()
        .strikethrough()
        .build();
    let m = style.measure_string("", Point { x: 5, y: 6 }, Baseline::Top);
    assert_eq!(m.bounding_box.size, Size { width: 0, height: 0 });
    assert_eq!(m.next_position, Point { x: 5, y: 6 });
    let (ops, next) = style.draw_string("", Point { x: 5, y: 6 }, Baseline::Top);
    assert!(ops.is_empty());
    assert_eq!(next, Point { x: 5, y: 6 });
}

#[test]
fn draw_string_places_glyphs() {
    let font = load(&normal());
    let style = PcfFontStyleBuilder::new(&font).text_color(1u8).build();
    let (ops, next) = style.draw_string("AB", Point { x: 0, y: 0 }, Baseline::Top);
    assert_eq!(next, Point { x: 11, y: 0 });
    assert_eq!(ops, vec![
        glyph_op(0, 0, 5, vec![0x70, 0x88, 0xF8, 0x88, 0x88], 1),
        glyph_op(7, 1, 3, vec![0xE0, 0xA0, 0xE0], 1),
    ]);
}

#[test]
fn background_is_filled_before_each_glyph() {
    let font = load(&normal());
    let style = PcfFontStyleBuilder::new(&font).text_color(1u8).background_color(0u8).build();
    let (ops, _) = style.draw_string("AB", Point { x: 0, y: 0 }, Baseline::Top);
    assert_eq!(ops, vec![
        fill_op(0, 0, 6, 5, 0),
        glyph_op(0, 0, 5, vec![0x70, 0x88, 0xF8, 0x88, 0x88], 1),
        fill_op(6, 0, 5, 5, 0),
        glyph_op(7, 1, 3, vec![0xE0, 0xA0, 0xE0], 1),
    ]);
    let only_background = PcfFontStyleBuilder::new(&font).background_color(0u8).build();
    let (ops, next) = only_background.draw_string("AB", Point { x: 0, y: 0 }, Baseline::Top);
    assert_eq!(ops, vec![fill_op(0, 0, 6, 5, 0), fill_op(6, 0, 5, 5, 0)]);
    assert_eq!(next, Point { x: 11, y: 0 });
}

#[test]
fn transparent_style_draws_nothing_but_advances() {
    let font = load(&normal());
    let style: PcfFontStyle<u8> = PcfFontStyle::new(&font);
    assert!(style.is_transparent());
    let (ops, next) = style.draw_string("ABC", Point { x: 0, y: 0 }, Baseline::Bottom);
    assert!(ops.is_empty());
    assert_eq!(next, Point { x: 21, y: 0 });
}

#[test]
fn decorations_follow_the_glyphs() {
    let font = load(&normal());
    let style = PcfFontStyleBuilder::new(&font)
        .text_color(1u8)
        .underline()
        .strikethrough_with_color(7u8)
        .build();
    assert!(!style.is_transparent());
    let (ops, _) = style.draw_string("A", Point { x: 0, y: 0 }, Baseline::Top);
    assert_eq!(ops, vec![
        glyph_op(0, 0, 5, vec![0x70, 0x88, 0xF8, 0x88, 0x88], 1),
        // strikethrough at the middle, underline at the bottom edge
        fill_op(0, 2, 6, 1, 7),
        fill_op(0, 4, 6, 1, 1),
    ]);
}

#[test]
fn drawing_in_two_parts_matches_drawing_at_once() {
    let font = load(&normal());
    let style = PcfFontStyleBuilder::new(&font).text_color(1u8).background_color(0u8).build();
    let start = Point { x: 3, y: 9 };
    let (whole, whole_next) = style.draw_string("ABCA", start, Baseline::Alphabetic);
    let (mut first, next) = style.draw_string("AB", start, Baseline::Alphabetic);
    let (second, second_next) = style.draw_string("CA", next, Baseline::Alphabetic);
    first.extend(second);
    assert_eq!(first, whole);
    assert_eq!(second_next, whole_next);
}

#[test]
fn missing_glyph_falls_back_on_default_char() {
    let mut font = load(&normal());
    {
        let style = PcfFontStyleBuilder::new(&font).text_color(1u8).build();
        let (ops, next) = style.draw_string("D", Point { x: 0, y: 0 }, Baseline::Top);
        assert_eq!(ops, vec![glyph_op(0, 0, 5, vec![0x70, 0x88, 0xF8, 0x88, 0x88], 1)]);
        assert_eq!(next, Point { x: 6, y: 0 });
        let m = style.measure_string("D", Point { x: 0, y: 0 }, Baseline::Top);
        assert_eq!(m.bounding_box.size.width, 6);
    }
    font.override_default_char('B' as u16);
    {
        let style: PcfFontStyle<u8> = PcfFontStyle::new(&font);
        let m = style.measure_string("D", Point { x: 0, y: 0 }, Baseline::Top);
        assert_eq!(m.bounding_box.size.width, 5);
    }
    font.override_default_char('Z' as u16);
    {
        let style: PcfFontStyle<u8> = PcfFontStyle::new(&font);
        let m = style.measure_string("DA", Point { x: 0, y: 0 }, Baseline::Top);
        assert_eq!(m.bounding_box.size.width, 6);
        assert_eq!(m.next_position, Point { x: 6, y: 0 });
    }
}

#[test]
fn whitespace_fills_background_and_decorations() {
    let font = load(&normal());
    let mut style = PcfFontStyleBuilder::new(&font).background_color(0u8).build();
    style.set_underline_color(DecorationColor::Custom(3u8));
    let (ops, next) = style.draw_whitespace(4, Point { x: 2, y: 0 }, Baseline::Top);
    assert_eq!(ops, vec![fill_op(2, 0, 4, 5, 0), fill_op(2, 4, 4, 1, 3)]);
    assert_eq!(next, Point { x: 6, y: 0 });
    let (ops, next) = style.draw_whitespace(0, Point { x: 2, y: 0 }, Baseline::Top);
    assert!(ops.is_empty());
    assert_eq!(next, Point { x: 2, y: 0 });
}

#[test]
fn whitespace_advance_saturates() {
    let font = load(&normal());
    let style: PcfFontStyle<u8> = PcfFontStyle::new(&font);
    let (_, next) = style.draw_whitespace(u32::MAX, Point { x: 0, y: 0 }, Baseline::Top);
    assert_eq!(next, Point { x: i32::MAX, y: 0 });
    let (_, next) = style.draw_whitespace(0x8000_0000, Point { x: -5, y: 1 }, Baseline::Top);
    assert_eq!(next, Point { x: i32::MAX - 5, y: 1 });
}

#[test]
fn setters_and_builder_agree() {
    let font = load(&normal());
    let mut style: PcfFontStyle<u8> = PcfFontStyle::new(&font);
    style.set_text_color(Some(1));
    style.set_background_color(Some(2));
    style.set_underline_color(DecorationColor::TextColor);
    style.set_strikethrough_color(DecorationColor::Custom(4));
    let built = PcfFontStyleBuilder::new(&font)
        .text_color(1u8)
        .background_color(2u8)
        .underline()
        .strikethrough_with_color(4u8)
        .build();
    assert_eq!(built.text_color, style.text_color);
    assert_eq!(built.background_color, style.background_color);
    assert_eq!(built.underline_color, style.underline_color);
    assert_eq!(built.strikethrough_color, style.strikethrough_color);
    let reset = PcfFontStyleBuilder::new(&font)
        .text_color(1u8)
        .background_color(2u8)
        .underline_with_color(5u8)
        .strikethrough()
        .reset_text_color()
        .reset_background_color()
        .reset_underline()
        .reset_strikethrough()
        .build();
    assert!(reset.is_transparent());
}

//! Text layout on top of a PCF font: baselines, drawing, measuring and
//! decorations.
//!
//! Drawing produces the operations that a pixel surface must perform, in
//! order. Pen positions follow the wrapping arithmetic of `i32`.
use az::SaturatingAs;
use vstd::prelude::*;
use vstd::string::StrSliceExecFns;
use crate::draw_target::{
    mapped_fill, mapped_glyph, Background, Both, ColorMapping, Foreground, MonoFontDrawTarget,
    Neither,
};
use crate::geometry::{
    lemma_ops_view_push, ops_view, wrap_i32, wrap_u32, Baseline, BinaryColor, DecorationColor,
    DrawOp, DrawOpModel, Point, Rectangle, Size, TextMetrics,
};
use crate::pcf::{
    fetch_spec, glyph_data, Error, FontModel, GlyphPlacement, MetricsEntry, PcfFont,
};

verus! {

/// The 16-bit code point of a character: its low 16 bits.
pub open spec fn code_of(c: char) -> u16 {
    (c as u32) as u16
}

/// The glyph drawn for `code_point`: its own, or the default character's
/// where it has none. Any other failure leaves the character without a glyph.
pub open spec fn resolve(f: FontModel, code_point: u16) -> Option<GlyphPlacement> {
    match fetch_spec(f, code_point) {
        Ok(p) => Some(p),
        Err(Error::NotFound) => match fetch_spec(f, f.default_char) {
            Ok(p) => Some(p),
            Err(_) => None,
        },
        Err(_) => None,
    }
}

/// How far the pen moves for `c`; a character without a glyph takes no space.
pub open spec fn char_advance(f: FontModel, c: char) -> int {
    match resolve(f, code_of(c)) {
        Some(p) => p.metrics.character_width as int,
        None => 0,
    }
}

pub open spec fn next_pen(f: FontModel, c: char, pen: Point) -> Point {
    Point { x: wrap_i32(pen.x + char_advance(f, c)), y: pen.y }
}

/// The pen after drawing `text` from `pen`.
pub open spec fn text_end(f: FontModel, text: Seq<char>, pen: Point) -> Point
    decreases text.len(),
{
    if text.len() == 0 {
        pen
    } else {
        next_pen(f, text.last(), text_end(f, text.drop_last(), pen))
    }
}

/// Sum of the advances of `text`, wrapped into `u32`.
pub open spec fn text_width(f: FontModel, text: Seq<char>) -> u32
    decreases text.len(),
{
    if text.len() == 0 {
        0
    } else {
        wrap_u32(text_width(f, text.drop_last()) + (char_advance(f, text.last()) as u32))
    }
}

/// Height of the font's bounding box; a negative one counts as zero.
pub open spec fn box_height(f: FontModel) -> u32 {
    if f.bounding_box.1 < 0 {
        0
    } else {
        f.bounding_box.1 as u32
    }
}

/// Distance from the top of the bounding box to the baseline.
pub open spec fn max_ascent(f: FontModel) -> int {
    f.bounding_box.1 + f.bounding_box.3
}

/// Half of `h`, rounded towards zero.
pub open spec fn half(h: int) -> int {
    if h >= 0 {
        h / 2
    } else {
        -((-h) / 2)
    }
}

/// Vertical distance from a requested position down to the pen line. The
/// y offset of the bounding box is minus the largest descent; the added `1`
/// makes the lower edge of the position's pixel the alphabetic baseline.
pub open spec fn baseline_offset_spec(f: FontModel, baseline: Baseline) -> int {
    match baseline {
        Baseline::Top => max_ascent(f),
        Baseline::Bottom => 1 + f.bounding_box.3,
        Baseline::Middle => 1 + half(f.bounding_box.1 as int) + f.bounding_box.3,
        Baseline::Alphabetic => 1,
    }
}

/// Background of one glyph: its advance wide, the bounding box high.
pub open spec fn glyph_background(f: FontModel, m: MetricsEntry, pen: Point) -> Rectangle {
    Rectangle {
        top_left: Point { x: pen.x, y: wrap_i32(pen.y - max_ascent(f)) },
        size: Size {
            width: if m.character_width < 0 {
                0
            } else {
                m.character_width as u32
            },
            height: box_height(f),
        },
    }
}

/// Where the top-left pixel of a glyph's bitmap goes.
pub open spec fn glyph_origin(m: MetricsEntry, pen: Point) -> Point {
    Point {
        x: wrap_i32(pen.x + m.left_side_bearing),
        y: wrap_i32(pen.y - m.character_ascent),
    }
}

/// The operations that draw `c` at `pen`: its background, then its pixels.
pub open spec fn char_ops<C>(f: FontModel, on: Option<C>, off: Option<C>, c: char, pen: Point) -> Seq<
    DrawOpModel<C>,
> {
    match resolve(f, code_of(c)) {
        Some(p) => mapped_fill(off, glyph_background(f, p.metrics, pen)) + mapped_glyph(
            on,
            glyph_origin(p.metrics, pen),
            p.width as u32,
            glyph_data(f.data, p),
        ),
        None => seq![],
    }
}

/// The operations that draw `text` from `pen`, character by character.
pub open spec fn text_ops<C>(
    f: FontModel,
    on: Option<C>,
    off: Option<C>,
    text: Seq<char>,
    pen: Point,
) -> Seq<DrawOpModel<C>>
    decreases text.len(),
{
    if text.len() == 0 {
        seq![]
    } else {
        text_ops(f, on, off, text.drop_last(), pen) + char_ops(
            f,
            on,
            off,
            text.last(),
            text_end(f, text.drop_last(), pen),
        )
    }
}

/// The colour a decoration is drawn in, if it is drawn.
pub open spec fn decoration_color<C>(d: DecorationColor<C>, text_color: Option<C>) -> Option<C> {
    match d {
        DecorationColor::Disabled => None,
        DecorationColor::TextColor => text_color,
        DecorationColor::Custom(c) => Some(c),
    }
}

/// A line one pixel high, `width` long, `offset` above `pos`.
pub open spec fn decoration_line(pos: Point, width: u32, offset: int) -> Rectangle {
    Rectangle {
        top_left: Point { x: pos.x, y: wrap_i32(pos.y - offset) },
        size: Size { width, height: 1 },
    }
}

/// How far the pen moved right from `start` to `end`: the width under which
/// decorations are drawn.
pub open spec fn advanced_width(start: Point, end: Point) -> u32 {
    (end.x - start.x) as u32
}

/// Drawing a concatenation from `pen` draws the first part, then the second
/// from where the first left the pen.
pub proof fn lemma_text_concat<C>(
    f: FontModel,
    on: Option<C>,
    off: Option<C>,
    s1: Seq<char>,
    s2: Seq<char>,
    pen: Point,
)
    ensures
        text_end(f, s1 + s2, pen) == text_end(f, s2, text_end(f, s1, pen)),
        text_ops(f, on, off, s1 + s2, pen) == text_ops(f, on, off, s1, pen) + text_ops(
            f,
            on,
            off,
            s2,
            text_end(f, s1, pen),
        ),
    decreases s2.len(),
{
    if s2.len() == 0 {
        assert(s1 + s2 =~= s1);
        assert(text_ops(f, on, off, s1, pen) + seq![] =~= text_ops(f, on, off, s1, pen));
    } else {
        lemma_text_concat(f, on, off, s1, s2.drop_last(), pen);
        assert((s1 + s2).drop_last() =~= s1 + s2.drop_last());
        assert((s1 + s2).last() == s2.last());
        let mid = text_end(f, s1, pen);
        let a = text_ops(f, on, off, s1, pen);
        let b = text_ops(f, on, off, s2.drop_last(), mid);
        let c = char_ops(f, on, off, s2.last(), text_end(f, s2.drop_last(), mid));
        assert(a + b + c =~= a + (b + c));
    }
}

/// The pen moves along its line: `y` stays, and where `x` ends up does not
/// depend on `y`.
pub proof fn lemma_text_end_line(f: FontModel, text: Seq<char>, pen: Point, other: Point)
    requires
        pen.x == other.x,
    ensures
        text_end(f, text, pen).y == pen.y,
        text_end(f, text, pen).x == text_end(f, text, other).x,
    decreases text.len(),
{
    if text.len() > 0 {
        lemma_text_end_line(f, text.drop_last(), pen, other);
    }
}

/// Relies on az's `SaturatingAs` for `u32` to `i32`: a value above
/// `i32::MAX` becomes `i32::MAX`, any other keeps its value.
#[verifier::external_body]
fn saturating_i32(v: u32) -> (r: i32)
    ensures
        r == if v > i32::MAX {
            i32::MAX
        } else {
            v as i32
        },
{
    v.saturating_as::<i32>()
}

/// A style to draw text with a PCF font.
pub struct PcfFontStyle<'a, C> {
    pub text_color: Option<C>,
    pub background_color: Option<C>,
    pub underline_color: DecorationColor<C>,
    pub strikethrough_color: DecorationColor<C>,
    pub font: &'a PcfFont,
}

impl<'a, C: Copy> PcfFontStyle<'a, C> {
    /// Decorations drawn under `width` pixels of text from `pos`:
    /// strikethrough first, then underline.
    pub open spec fn decoration_ops(&self, width: u32, pos: Point) -> Seq<DrawOpModel<C>> {
        let f = self.font@;
        mapped_fill(
            decoration_color(self.strikethrough_color, self.text_color),
            decoration_line(pos, width, baseline_offset_spec(f, Baseline::Middle)),
        ) + mapped_fill(
            decoration_color(self.underline_color, self.text_color),
            decoration_line(pos, width, baseline_offset_spec(f, Baseline::Bottom)),
        )
    }

    /// The pen line start for drawing at `position`.
    pub open spec fn pen_start(&self, position: Point, baseline: Baseline) -> Point {
        Point {
            x: position.x,
            y: wrap_i32(position.y + baseline_offset_spec(self.font@, baseline)),
        }
    }

    /// What drawing `text` at `position` does: the glyphs, then the
    /// decorations across the advanced width, if the pen moved right.
    pub open spec fn draw_spec(&self, text: Seq<char>, position: Point, baseline: Baseline) -> Seq<
        DrawOpModel<C>,
    > {
        let f = self.font@;
        let start = self.pen_start(position, baseline);
        let end = text_end(f, text, start);
        text_ops(f, self.text_color, self.background_color, text, start) + if end.x > start.x {
            self.decoration_ops(advanced_width(start, end), start)
        } else {
            seq![]
        }
    }

    /// Where drawing `text` at `position` leaves the pen.
    pub open spec fn draw_end(&self, text: Seq<char>, position: Point, baseline: Baseline) -> Point {
        Point {
            x: text_end(self.font@, text, self.pen_start(position, baseline)).x,
            y: position.y,
        }
    }

    /// A style with every colour transparent and no decoration.
    pub fn new(font: &'a PcfFont) -> (r: Self)
        ensures
            r.text_color is None,
            r.background_color is None,
            r.underline_color == DecorationColor::<C>::Disabled,
            r.strikethrough_color == DecorationColor::<C>::Disabled,
            r.font == font,
    {
        PcfFontStyle {
            text_color: None,
            background_color: None,
            underline_color: DecorationColor::Disabled,
            strikethrough_color: DecorationColor::Disabled,
            font,
        }
    }

    /// Whether nothing at all would be drawn.
    pub fn is_transparent(&self) -> (r: bool)
        ensures
            r == (self.text_color is None && self.background_color is None
                && self.underline_color == DecorationColor::<C>::Disabled
                && self.strikethrough_color == DecorationColor::<C>::Disabled),
    {
        self.text_color.is_none() && self.background_color.is_none() && match self.underline_color {
            DecorationColor::Disabled => true,
            _ => false,
        } && match self.strikethrough_color {
            DecorationColor::Disabled => true,
            _ => false,
        }
    }

    /// Vertical distance from a requested position down to the pen line.
    pub fn baseline_offset(&self, baseline: Baseline) -> (r: i32)
        ensures
            r == baseline_offset_spec(self.font@, baseline),
    {
        let (_, height, _, y_offset) = self.font.bounding_box();
        // the added 1 makes the lower edge of the position's pixel the baseline
        match baseline {
            Baseline::Top => height as i32 + y_offset as i32,
            Baseline::Bottom => 1 + y_offset as i32,
            Baseline::Middle => 1 + height as i32 / 2 + y_offset as i32,
            Baseline::Alphabetic => 1,
        }
    }

    /// The glyph drawn for `c`, with its bitmap.
    fn glyph_for(&self, c: char) -> (r: Option<(GlyphPlacement, Vec<u8>)>)
        ensures
            match resolve(self.font@, code_of(c)) {
                Some(p) => r matches Some((q, v)) && q == p && v@ == glyph_data(self.font@.data, p),
                None => r is None,
            },
    {
        match self.font.read_glyph(c as u32 as u16) {
            Ok(g) => Some(g),
            Err(Error::NotFound) => {
                // fall back on the default character
                match self.font.read_glyph(self.font.default_char()) {
                    Ok(g) => Some(g),
                    Err(_) => None,
                }
            },
            Err(_) => None,
        }
    }

    /// How far the pen moves for `c`.
    fn advance_of(&self, c: char) -> (r: i16)
        ensures
            r == char_advance(self.font@, c),
    {
        match self.font.fetch_placement(c as u32 as u16) {
            Ok(p) => p.metrics.character_width,
            Err(Error::NotFound) => {
                match self.font.fetch_placement(self.font.default_char()) {
                    Ok(p) => p.metrics.character_width,
                    Err(_) => 0,
                }
            },
            Err(_) => 0,
        }
    }

    /// Height of the bounding box; a negative one counts as zero.
    pub fn line_height(&self) -> (r: u32)
        ensures
            r == box_height(self.font@),
    {
        let height = self.font.bounding_box().1;
        if height < 0 {
            0
        } else {
            height as u32
        }
    }

    /// Draws the glyphs of `text` with the pen starting at `position`, each
    /// glyph's background before its pixels, and returns the pen at the end.
    fn draw_string_binary<M: ColorMapping<C>>(
        &self,
        text: &str,
        position: Point,
        target: MonoFontDrawTarget<C, M>,
    ) -> (r: (MonoFontDrawTarget<C, M>, Point))
        ensures
            r.0.mapping() == target.mapping(),
            r.0.recorded() == target.recorded() + text_ops(
                self.font@,
                target.mapping().on_color(),
                target.mapping().off_color(),
                text@,
                position,
            ),
            r.1 == text_end(self.font@, text@, position),
    {
        let ghost f = self.font@;
        let ghost on = target.mapping().on_color();
        let ghost off = target.mapping().off_color();
        let ghost recorded0 = target.recorded();
        let ghost mapping0 = target.mapping();
        let mut target = target;
        let mut pen = position;
        let ascent = self.baseline_offset(Baseline::Top);
        let height = self.line_height();
        let n = text.unicode_len();
        let mut i: usize = 0;
        while i < n
            invariant
                n == text@.len(),
                i <= n,
                f == self.font@,
                ascent == max_ascent(f),
                height == box_height(f),
                target.mapping() == mapping0,
                mapping0.on_color() == on,
                mapping0.off_color() == off,
                target.recorded() == recorded0 + text_ops(f, on, off, text@.take(i as int), position),
                pen == text_end(f, text@.take(i as int), position),
            decreases n - i,
        {
            let c = text.get_char(i);
            let ghost before = target.recorded();
            let ghost pen0 = pen;
            match self.glyph_for(c) {
                Some((p, data)) => {
                    let m = p.metrics;
                    let background = Rectangle {
                        top_left: Point { x: pen.x, y: pen.y.wrapping_sub(ascent) },
                        size: Size {
                            width: if m.character_width < 0 {
                                0
                            } else {
                                m.character_width as u32
                            },
                            height,
                        },
                    };
                    target.fill_solid(background, BinaryColor::Off);
                    let origin = Point {
                        x: pen.x.wrapping_add(m.left_side_bearing as i32),
                        y: pen.y.wrapping_sub(m.character_ascent as i32),
                    };
                    target.draw_glyph(origin, p.width as u32, data);
                    pen.x = pen.x.wrapping_add(m.character_width as i32);
                    proof {
                        assert(target.recorded() =~= before + char_ops(f, on, off, c, pen0));
                    }
                },
                None => {
                    assert(target.recorded() =~= before + char_ops(f, on, off, c, pen0));
                },
            }
            proof {
                let t = text@.take(i + 1);
                assert(t.drop_last() =~= text@.take(i as int));
                assert(t.last() == c);
                let a = text_ops(f, on, off, text@.take(i as int), position);
                assert(recorded0 + a + char_ops(f, on, off, c, pen0) =~= recorded0 + (a + char_ops(
                    f,
                    on,
                    off,
                    c,
                    pen0,
                )));
            }
            i = i + 1;
        }
        assert(text@.take(n as int) =~= text@);
        (target, pen)
    }

    /// Draws the configured decorations under `width` pixels from `position`.
    fn draw_decorations(&self, width: u32, position: Point, ops: &mut Vec<DrawOp<C>>)
        ensures
            ops_view(final(ops)@) == ops_view(old(ops)@) + self.decoration_ops(width, position),
    {
        let ghost before = ops_view(ops@);
        let strikethrough = match self.strikethrough_color {
            DecorationColor::Disabled => None,
            DecorationColor::TextColor => self.text_color,
            DecorationColor::Custom(c) => Some(c),
        };
        let middle = self.baseline_offset(Baseline::Middle);
        let area = Rectangle {
            top_left: Point { x: position.x, y: position.y.wrapping_sub(middle) },
            size: Size { width, height: 1 },
        };
        match strikethrough {
            Some(color) => {
                proof {
                    lemma_ops_view_push(ops@, DrawOp::Fill { area, color });
                }
                ops.push(DrawOp::Fill { area, color });
            },
            None => {},
        }
        let ghost mid = ops_view(ops@);
        assert(mid =~= before + mapped_fill(strikethrough, area));
        // the underline is drawn at the bounding box bottom edge
        let underline = match self.underline_color {
            DecorationColor::Disabled => None,
            DecorationColor::TextColor => self.text_color,
            DecorationColor::Custom(c) => Some(c),
        };
        let bottom = self.baseline_offset(Baseline::Bottom);
        let area = Rectangle {
            top_left: Point { x: position.x, y: position.y.wrapping_sub(bottom) },
            size: Size { width, height: 1 },
        };
        match underline {
            Some(color) => {
                proof {
                    lemma_ops_view_push(ops@, DrawOp::Fill { area, color });
                }
                ops.push(DrawOp::Fill { area, color });
            },
            None => {},
        }
        assert(ops_view(ops@) =~= mid + mapped_fill(underline, area));
        assert(ops_view(ops@) =~= before + self.decoration_ops(width, position));
    }

    /// Draws `text` with `baseline` at `position`: the operations to perform,
    /// in order, and the position for the text that follows.
    pub fn draw_string(&self, text: &str, position: Point, baseline: Baseline) -> (r: (
        Vec<DrawOp<C>>,
        Point,
    ))
        ensures
            ops_view(r.0@) == self.draw_spec(text@, position, baseline),
            r.1 == self.draw_end(text@, position, baseline),
            text@.len() == 0 ==> r.0@.len() == 0 && r.1 == position,
    {
        let ghost f = self.font@;
        let offset = self.baseline_offset(baseline);
        let start = Point { x: position.x, y: position.y.wrapping_add(offset) };
        // the compositing mode is chosen once for the whole string
        let (ops, next) = match (self.text_color, self.background_color) {
            (Some(text_color), Some(background_color)) => {
                let (target, next) = self.draw_string_binary(
                    text,
                    start,
                    MonoFontDrawTarget::new(Vec::new(), Both(text_color, background_color)),
                );
                (target.into_ops(), next)
            },
            (Some(text_color), None) => {
                let (target, next) = self.draw_string_binary(
                    text,
                    start,
                    MonoFontDrawTarget::new(Vec::new(), Foreground(text_color)),
                );
                (target.into_ops(), next)
            },
            (None, Some(background_color)) => {
                let (target, next) = self.draw_string_binary(
                    text,
                    start,
                    MonoFontDrawTarget::new(Vec::new(), Background(background_color)),
                );
                (target.into_ops(), next)
            },
            (None, None) => {
                let (target, next) = self.draw_string_binary(
                    text,
                    start,
                    MonoFontDrawTarget::<C, Neither>::new(Vec::new(), Neither),
                );
                (target.into_ops(), next)
            },
        };
        let mut ops = ops;
        assert(ops_view(ops@) =~= text_ops(
            f,
            self.text_color,
            self.background_color,
            text@,
            start,
        ));
        let ghost glyphs = ops_view(ops@);
        if next.x > start.x {
            let width = (next.x as i64 - start.x as i64) as u32;
            self.draw_decorations(width, start, &mut ops);
        } else {
            assert(glyphs + seq![] =~= glyphs);
        }
        proof {
            lemma_text_end_line(f, text@, start, start);
            if text@.len() == 0 {
                assert(ops@.len() == ops_view(ops@).len());
            }
        }
        (ops, Point { x: next.x, y: position.y })
    }

    /// What drawing a run of `width` blank pixels at `position` does: the
    /// background over the run, then the decorations.
    pub open spec fn whitespace_spec(&self, width: u32, position: Point, baseline: Baseline) -> Seq<
        DrawOpModel<C>,
    > {
        let f = self.font@;
        let pen = self.pen_start(position, baseline);
        mapped_fill(
            self.background_color,
            Rectangle {
                top_left: Point { x: position.x, y: wrap_i32(pen.y - max_ascent(f)) },
                size: Size { width, height: box_height(f) },
            },
        ) + self.decoration_ops(width, pen)
    }

    /// Draws a run of `width` blank pixels, as left between words, and returns
    /// the position after it.
    pub fn draw_whitespace(&self, width: u32, position: Point, baseline: Baseline) -> (r: (
        Vec<DrawOp<C>>,
        Point,
    ))
        ensures
            width == 0 ==> r.0@.len() == 0 && r.1 == position,
            width > 0 ==> ops_view(r.0@) == self.whitespace_spec(width, position, baseline),
            width > 0 ==> r.1 == (Point {
                x: wrap_i32(
                    position.x + if width > i32::MAX {
                        i32::MAX as int
                    } else {
                        width as int
                    },
                ),
                y: position.y,
            }),
    {
        let mut ops: Vec<DrawOp<C>> = Vec::new();
        if width == 0 {
            return (ops, position);
        }
        let max_ascent = self.baseline_offset(Baseline::Top);
        let pen_y = position.y.wrapping_add(self.baseline_offset(baseline));
        let area = Rectangle {
            top_left: Point { x: position.x, y: pen_y.wrapping_sub(max_ascent) },
            size: Size { width, height: self.line_height() },
        };
        match self.background_color {
            Some(color) => {
                proof {
                    lemma_ops_view_push(ops@, DrawOp::Fill { area, color });
                }
                ops.push(DrawOp::Fill { area, color });
            },
            None => {},
        }
        assert(ops_view(ops@) =~= mapped_fill(self.background_color, area));
        self.draw_decorations(width, Point { x: position.x, y: pen_y }, &mut ops);
        (ops, Point { x: position.x.wrapping_add(saturating_i32(width)), y: position.y })
    }

    /// Measures `text` drawn with `baseline` at `position`. The width sums
    /// the advances that drawing uses.
    pub fn measure_string(&self, text: &str, position: Point, baseline: Baseline) -> (r:
        TextMetrics)
        ensures
            r.bounding_box.top_left == (Point {
                x: position.x,
                y: wrap_i32(
                    position.y + (baseline_offset_spec(self.font@, baseline)
                        - baseline_offset_spec(self.font@, Baseline::Top)),
                ),
            }),
            r.bounding_box.size == if text@.len() == 0 {
                Size { width: 0, height: 0 }
            } else {
                Size { width: text_width(self.font@, text@), height: box_height(self.font@) }
            },
            r.next_position == self.draw_end(text@, position, baseline),
            text@.len() == 0 ==> r.bounding_box.size.width == 0 && r.next_position == position,
    {
        let ghost f = self.font@;
        let n = text.unicode_len();
        let mut width: u32 = 0;
        let mut pen = position;
        let mut i: usize = 0;
        while i < n
            invariant
                n == text@.len(),
                i <= n,
                f == self.font@,
                width == text_width(f, text@.take(i as int)),
                pen == text_end(f, text@.take(i as int), position),
            decreases n - i,
        {
            let c = text.get_char(i);
            let advance = self.advance_of(c);
            width = width.wrapping_add(advance as u32);
            pen.x = pen.x.wrapping_add(advance as i32);
            proof {
                let t = text@.take(i + 1);
                assert(t.drop_last() =~= text@.take(i as int));
                assert(t.last() == c);
            }
            i = i + 1;
        }
        assert(text@.take(n as int) =~= text@);
        proof {
            lemma_text_end_line(f, text@, position, self.pen_start(position, baseline));
        }
        let offset = self.baseline_offset(baseline) - self.baseline_offset(Baseline::Top);
        let top_left = Point { x: position.x, y: position.y.wrapping_add(offset) };
        let size = if n == 0 {
            Size { width: 0, height: 0 }
        } else {
            Size { width, height: self.line_height() }
        };
        TextMetrics {
            bounding_box: Rectangle { top_left, size },
            next_position: Point { x: pen.x, y: position.y },
        }
    }
}


impl<'a, C: Copy> PcfFontStyle<'a, C> {
    pub fn set_text_color(&mut self, text_color: Option<C>)
        ensures
            *final(self) == (PcfFontStyle { text_color, ..*old(self) }),
    {
        self.text_color = text_color;
    }

    pub fn set_background_color(&mut self, background_color: Option<C>)
        ensures
            *final(self) == (PcfFontStyle { background_color, ..*old(self) }),
    {
        self.background_color = background_color;
    }

    pub fn set_underline_color(&mut self, underline_color: DecorationColor<C>)
        ensures
            *final(self) == (PcfFontStyle { underline_color, ..*old(self) }),
    {
        self.underline_color = underline_color;
    }

    pub fn set_strikethrough_color(&mut self, strikethrough_color: DecorationColor<C>)
        ensures
            *final(self) == (PcfFontStyle { strikethrough_color, ..*old(self) }),
    {
        self.strikethrough_color = strikethrough_color;
    }
}

/// Builds a text style step by step.
pub struct PcfFontStyleBuilder<'a, C> {
    style: PcfFontStyle<'a, C>,
}

impl<'a, C: Copy> PcfFontStyleBuilder<'a, C> {
    /// The style built so far.
    pub closed spec fn style(&self) -> PcfFontStyle<'a, C> {
        self.style
    }

    /// A builder for a style of `font`, all transparent, without decorations.
    pub fn new(font: &'a PcfFont) -> (r: Self)
        ensures
            r.style() == (PcfFontStyle::<'a, C> {
                text_color: None,
                background_color: None,
                underline_color: DecorationColor::Disabled,
                strikethrough_color: DecorationColor::Disabled,
                font,
            }),
    {
        PcfFontStyleBuilder { style: PcfFontStyle::new(font) }
    }

    /// Enables underline using the text color.
    pub fn underline(self) -> (r: Self)
        ensures
            r.style() == (PcfFontStyle { underline_color: DecorationColor::<C>::TextColor, ..self.style() }),
    {
        let mut b = self;
        b.style.underline_color = DecorationColor::TextColor;
        b
    }

    /// Enables strikethrough using the text color.
    pub fn strikethrough(self) -> (r: Self)
        ensures
            r.style() == (PcfFontStyle {
                strikethrough_color: DecorationColor::<C>::TextColor,
                ..self.style()
            }),
    {
        let mut b = self;
        b.style.strikethrough_color = DecorationColor::TextColor;
        b
    }

    /// Resets the text color to transparent.
    pub fn reset_text_color(self) -> (r: Self)
        ensures
            r.style() == (PcfFontStyle { text_color: None, ..self.style() }),
    {
        let mut b = self;
        b.style.text_color = None;
        b
    }

    /// Resets the background color to transparent.
    pub fn reset_background_color(self) -> (r: Self)
        ensures
            r.style() == (PcfFontStyle { background_color: None, ..self.style() }),
    {
        let mut b = self;
        b.style.background_color = None;
        b
    }

    /// Removes the underline decoration.
    pub fn reset_underline(self) -> (r: Self)
        ensures
            r.style() == (PcfFontStyle { underline_color: DecorationColor::<C>::Disabled, ..self.style() }),
    {
        let mut b = self;
        b.style.underline_color = DecorationColor::Disabled;
        b
    }

    /// Removes the strikethrough decoration.
    pub fn reset_strikethrough(self) -> (r: Self)
        ensures
            r.style() == (PcfFontStyle {
                strikethrough_color: DecorationColor::<C>::Disabled,
                ..self.style()
            }),
    {
        let mut b = self;
        b.style.strikethrough_color = DecorationColor::Disabled;
        b
    }

    /// Sets the text color.
    pub fn text_color(self, text_color: C) -> (r: Self)
        ensures
            r.style() == (PcfFontStyle { text_color: Some(text_color), ..self.style() }),
    {
        let mut b = self;
        b.style.text_color = Some(text_color);
        b
    }

    /// Sets the background color.
    pub fn background_color(self, background_color: C) -> (r: Self)
        ensures
            r.style() == (PcfFontStyle { background_color: Some(background_color), ..self.style() }),
    {
        let mut b = self;
        b.style.background_color = Some(background_color);
        b
    }

    /// Enables underline with a custom color.
    pub fn underline_with_color(self, underline_color: C) -> (r: Self)
        ensures
            r.style() == (PcfFontStyle {
                underline_color: DecorationColor::Custom(underline_color),
                ..self.style()
            }),
    {
        let mut b = self;
        b.style.underline_color = DecorationColor::Custom(underline_color);
        b
    }

    /// Enables strikethrough with a custom color.
    pub fn strikethrough_with_color(self, strikethrough_color: C) -> (r: Self)
        ensures
            r.style() == (PcfFontStyle {
                strikethrough_color: DecorationColor::Custom(strikethrough_color),
                ..self.style()
            }),
    {
        let mut b = self;
        b.style.strikethrough_color = DecorationColor::Custom(strikethrough_color);
        b
    }

    /// Builds the text style.
    pub fn build(self) -> (r: PcfFontStyle<'a, C>)
        ensures
            r == self.style(),
    {
        self.style
    }
}

/// A character with a glyph measures as wide as the glyph's advance (as a
/// `u32`, so a negative advance wraps).
pub proof fn lemma_measure_single_char(f: FontModel, c: char)
    requires
        resolve(f, code_of(c)) is Some,
    ensures
        char_advance(f, c) == resolve(f, code_of(c))->0.metrics.character_width,
        text_width(f, seq![c]) == char_advance(f, c) as u32,
        char_advance(f, c) >= 0 ==> text_width(f, seq![c]) == char_advance(f, c),
{
    let t = seq![c];
    assert(t.drop_last() =~= Seq::<char>::empty());
    assert(t.last() == c);
    assert(text_width(f, Seq::<char>::empty()) == 0);
    let v = char_advance(f, c) as u32;
    assert(text_width(f, t) == wrap_u32(0 + v));
}

/// Drawing a string, then drawing a second one from the position the first
/// call returned, does what drawing both strings at once does, provided no
/// underline or strikethrough is drawn.
pub proof fn lemma_draw_in_two_parts<'a, C: Copy>(
    style: PcfFontStyle<'a, C>,
    s1: Seq<char>,
    s2: Seq<char>,
    position: Point,
    baseline: Baseline,
)
    requires
        style.underline_color == DecorationColor::<C>::Disabled,
        style.strikethrough_color == DecorationColor::<C>::Disabled,
    ensures
        style.draw_spec(s1 + s2, position, baseline) == style.draw_spec(s1, position, baseline)
            + style.draw_spec(s2, style.draw_end(s1, position, baseline), baseline),
        style.draw_end(s1 + s2, position, baseline) == style.draw_end(
            s2,
            style.draw_end(s1, position, baseline),
            baseline,
        ),
{
    let f = style.font@;
    let on = style.text_color;
    let off = style.background_color;
    let start = style.pen_start(position, baseline);
    let mid = style.draw_end(s1, position, baseline);
    lemma_text_end_line(f, s1, start, start);
    assert(style.pen_start(mid, baseline) == text_end(f, s1, start));
    lemma_text_concat(f, on, off, s1, s2, start);
    assert forall|w: u32, p: Point| style.decoration_ops(w, p) =~= Seq::<DrawOpModel<C>>::empty() by {}
    let t = text_ops(f, on, off, s1 + s2, start);
    let t1 = text_ops(f, on, off, s1, start);
    let t2 = text_ops(f, on, off, s2, text_end(f, s1, start));
    assert(style.draw_spec(s1 + s2, position, baseline) =~= t);
    assert(style.draw_spec(s1, position, baseline) =~= t1);
    assert(style.draw_spec(s2, mid, baseline) =~= t2);
}

} // verus!

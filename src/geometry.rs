//! Plain geometry and colour values that the layout engine works on, and the
//! drawing operations it hands to a pixel surface.
use vstd::prelude::*;

verus! {

/// A pixel position; `y` grows downwards.
#[derive(Debug, Clone, Copy, PartialEq, Eq, Structural)]
pub struct Point {
    pub x: i32,
    pub y: i32,
}

/// A width and height in pixels.
#[derive(Debug, Clone, Copy, PartialEq, Eq, Structural)]
pub struct Size {
    pub width: u32,
    pub height: u32,
}

/// An axis-aligned rectangle.
#[derive(Debug, Clone, Copy, PartialEq, Eq, Structural)]
pub struct Rectangle {
    pub top_left: Point,
    pub size: Size,
}

/// The line that the requested position is aligned to.
#[derive(Debug, Clone, Copy, PartialEq, Eq, Structural)]
pub enum Baseline {
    /// The top of the font's bounding box.
    Top,
    /// The bottom of the font's bounding box.
    Bottom,
    /// The middle of the font's bounding box.
    Middle,
    /// The alphabetic baseline.
    Alphabetic,
}

/// Colour of an underline or strikethrough.
#[derive(Debug, Clone, Copy, PartialEq, Eq)]
pub enum DecorationColor<C> {
    /// Not drawn.
    Disabled,
    /// Drawn in the text colour.
    TextColor,
    /// Drawn in the given colour.
    Custom(C),
}

/// A pixel of a one-bit glyph bitmap.
#[derive(Debug, Clone, Copy, PartialEq, Eq, Structural)]
pub enum BinaryColor {
    Off,
    On,
}

/// The result of measuring a string.
#[derive(Debug, Clone, Copy, PartialEq, Eq, Structural)]
pub struct TextMetrics {
    pub bounding_box: Rectangle,
    pub next_position: Point,
}

/// One operation on a pixel surface.
#[derive(Debug, Clone, PartialEq, Eq)]
pub enum DrawOp<C> {
    /// Fill `area` with `color`.
    Fill { area: Rectangle, color: C },
    /// Set, in `color`, each pixel of a one-bit bitmap whose bit is on. The
    /// bitmap is `width` pixels wide, its rows padded to whole bytes, most
    /// significant bit first; its top-left pixel goes to `top_left`.
    Glyph { top_left: Point, width: u32, data: Vec<u8>, color: C },
}

/// What a drawing operation does, with the bitmap as a sequence.
pub enum DrawOpModel<C> {
    Fill { area: Rectangle, color: C },
    Glyph { top_left: Point, width: u32, data: Seq<u8>, color: C },
}

impl<C> View for DrawOp<C> {
    type V = DrawOpModel<C>;

    open spec fn view(&self) -> DrawOpModel<C> {
        match self {
            DrawOp::Fill { area, color } => DrawOpModel::Fill { area: *area, color: *color },
            DrawOp::Glyph { top_left, width, data, color } => DrawOpModel::Glyph {
                top_left: *top_left,
                width: *width,
                data: data@,
                color: *color,
            },
        }
    }
}

/// What a list of operations does.
pub open spec fn ops_view<C>(ops: Seq<DrawOp<C>>) -> Seq<DrawOpModel<C>> {
    ops.map_values(|o: DrawOp<C>| o@)
}

pub proof fn lemma_ops_view_push<C>(ops: Seq<DrawOp<C>>, o: DrawOp<C>)
    ensures
        ops_view(ops.push(o)) == ops_view(ops).push(o@),
{
    assert(ops_view(ops.push(o)) =~= ops_view(ops).push(o@));
}

/// `x` brought into the `i32` range by adding or taking away 2^32, as the
/// wrapping operations of `i32` do.
pub open spec fn wrap_i32(x: int) -> i32 {
    if x > i32::MAX {
        (x - 0x1_0000_0000) as i32
    } else if x < i32::MIN {
        (x + 0x1_0000_0000) as i32
    } else {
        x as i32
    }
}

/// `x` brought into the `u32` range in the same way.
pub open spec fn wrap_u32(x: int) -> u32 {
    if x > u32::MAX {
        (x - 0x1_0000_0000) as u32
    } else if x < 0 {
        (x + 0x1_0000_0000) as u32
    } else {
        x as u32
    }
}

} // verus!

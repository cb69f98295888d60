//! Compositing of one-bit glyph pixels into caller colours.
//!
//! A glyph bitmap only knows "on" and "off". Which colours those become, and
//! whether they are drawn at all, depends on which of the text and background
//! colours are set; the choice is made once per drawn string.
use vstd::prelude::*;
use crate::geometry::{lemma_ops_view_push, ops_view, BinaryColor, DrawOp, DrawOpModel, Point, Rectangle};

verus! {

/// How "on" and "off" pixels are drawn.
pub trait ColorMapping<C> {
    /// Colour of "on" pixels, if they are drawn.
    spec fn on_color(&self) -> Option<C>;

    /// Colour of "off" pixels, if they are drawn.
    spec fn off_color(&self) -> Option<C>;

    fn on(&self) -> (r: Option<C>)
        ensures
            r == self.on_color(),
    ;

    fn off(&self) -> (r: Option<C>)
        ensures
            r == self.off_color(),
    ;
}

/// Only the text colour is drawn.
pub struct Foreground<C>(pub C);

/// Only the background colour is drawn.
pub struct Background<C>(pub C);

/// Text colour and background colour are drawn.
pub struct Both<C>(pub C, pub C);

/// Nothing is drawn.
pub struct Neither;

impl<C: Copy> ColorMapping<C> for Foreground<C> {
    open spec fn on_color(&self) -> Option<C> {
        Some(self.0)
    }

    open spec fn off_color(&self) -> Option<C> {
        None
    }

    fn on(&self) -> (r: Option<C>) {
        Some(self.0)
    }

    fn off(&self) -> (r: Option<C>) {
        None
    }
}

impl<C: Copy> ColorMapping<C> for Background<C> {
    open spec fn on_color(&self) -> Option<C> {
        None
    }

    open spec fn off_color(&self) -> Option<C> {
        Some(self.0)
    }

    fn on(&self) -> (r: Option<C>) {
        None
    }

    fn off(&self) -> (r: Option<C>) {
        Some(self.0)
    }
}

impl<C: Copy> ColorMapping<C> for Both<C> {
    open spec fn on_color(&self) -> Option<C> {
        Some(self.0)
    }

    open spec fn off_color(&self) -> Option<C> {
        Some(self.1)
    }

    fn on(&self) -> (r: Option<C>) {
        Some(self.0)
    }

    fn off(&self) -> (r: Option<C>) {
        Some(self.1)
    }
}

impl<C> ColorMapping<C> for Neither {
    open spec fn on_color(&self) -> Option<C> {
        None
    }

    open spec fn off_color(&self) -> Option<C> {
        None
    }

    fn on(&self) -> (r: Option<C>) {
        None
    }

    fn off(&self) -> (r: Option<C>) {
        None
    }
}

/// The operations of a solid fill of `area` in `color`, once mapped.
pub open spec fn mapped_fill<C>(mapped: Option<C>, area: Rectangle) -> Seq<DrawOpModel<C>> {
    match mapped {
        Some(c) => seq![DrawOpModel::Fill { area, color: c }],
        None => seq![],
    }
}

/// The operations of a glyph bitmap drawn with "on" colour `on`; an empty
/// bitmap draws nothing.
pub open spec fn mapped_glyph<C>(on: Option<C>, top_left: Point, width: u32, data: Seq<u8>) -> Seq<
    DrawOpModel<C>,
> {
    match on {
        Some(c) => if data.len() > 0 {
            seq![DrawOpModel::Glyph { top_left, width, data, color: c }]
        } else {
            seq![]
        },
        None => seq![],
    }
}

/// A surface of one-bit pixels that records, in caller colours, what is
/// drawn on it.
pub struct MonoFontDrawTarget<C, M> {
    parent: Vec<DrawOp<C>>,
    colors: M,
}

impl<C: Copy, M: ColorMapping<C>> MonoFontDrawTarget<C, M> {
    /// What has been recorded so far.
    pub closed spec fn recorded(&self) -> Seq<DrawOpModel<C>> {
        ops_view(self.parent@)
    }

    pub closed spec fn mapping(&self) -> M {
        self.colors
    }

    /// Draws on top of the operations in `parent`, mapping pixels by `colors`.
    pub fn new(parent: Vec<DrawOp<C>>, colors: M) -> (r: Self)
        ensures
            r.recorded() == ops_view(parent@),
            r.mapping() == colors,
    {
        Self { parent, colors }
    }

    /// Fills `area` with an "on" or "off" colour.
    pub fn fill_solid(&mut self, area: Rectangle, color: BinaryColor)
        ensures
            final(self).mapping() == old(self).mapping(),
            final(self).recorded() == old(self).recorded() + mapped_fill(
                match color {
                    BinaryColor::On => old(self).mapping().on_color(),
                    BinaryColor::Off => old(self).mapping().off_color(),
                },
                area,
            ),
    {
        let mapped = match color {
            BinaryColor::On => self.colors.on(),
            BinaryColor::Off => self.colors.off(),
        };
        match mapped {
            Some(c) => {
                proof {
                    lemma_ops_view_push(self.parent@, DrawOp::Fill { area, color: c });
                }
                self.parent.push(DrawOp::Fill { area, color: c });
                assert(self.recorded() =~= old(self).recorded() + mapped_fill(mapped, area));
            },
            None => {
                assert(self.recorded() =~= old(self).recorded() + mapped_fill(mapped, area));
            },
        }
    }

    /// Draws the "on" pixels of a glyph bitmap whose top-left pixel goes to
    /// `top_left`. "Off" pixels are left alone: the background is filled
    /// beforehand.
    pub fn draw_glyph(&mut self, top_left: Point, width: u32, data: Vec<u8>)
        ensures
            final(self).mapping() == old(self).mapping(),
            final(self).recorded() == old(self).recorded() + mapped_glyph(
                old(self).mapping().on_color(),
                top_left,
                width,
                data@,
            ),
    {
        let on = self.colors.on();
        let ghost bits = data@;
        match on {
            Some(c) => {
                if data.len() > 0 {
                    let op = DrawOp::Glyph { top_left, width, data, color: c };
                    proof {
                        lemma_ops_view_push(self.parent@, op);
                    }
                    self.parent.push(op);
                }
                assert(self.recorded() =~= old(self).recorded() + mapped_glyph(
                    on,
                    top_left,
                    width,
                    bits,
                ));
            },
            None => {
                assert(self.recorded() =~= old(self).recorded() + mapped_glyph(
                    on,
                    top_left,
                    width,
                    bits,
                ));
            },
        }
    }

    /// The recorded operations.
    pub fn into_ops(self) -> (r: Vec<DrawOp<C>>)
        ensures
            ops_view(r@) == self.recorded(),
    {
        self.parent
    }
}

} // verus!

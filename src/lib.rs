//! Reading glyphs out of PCF bitmap fonts and laying them out as text.

mod codec;
mod draw_target;
mod geometry;
mod pcf;
mod style;

pub use codec::{
    i16_from_be_bytes_ref, i16_from_le_bytes_ref, i32_from_be_bytes_ref, i32_from_le_bytes_ref,
    u16_from_be_bytes_ref, u16_from_le_bytes_ref, u32_from_be_bytes_ref, u32_from_le_bytes_ref,
};
pub use draw_target::{Background, Both, ColorMapping, Foreground, MonoFontDrawTarget, Neither};
pub use geometry::{
    Baseline, BinaryColor, DecorationColor, DrawOp, Point, Rectangle, Size, TextMetrics,
};
pub use pcf::{
    bytes_per_row, load_pcf_font, Error, GlyphPaddingFormat, GlyphPlacement, MetricsEntry, PcfFont,
};
pub use style::{PcfFontStyle, PcfFontStyleBuilder};

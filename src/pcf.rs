//! The PCF font container: finding and checking its tables, and reading
//! glyph indices, metrics and bitmaps out of it.
//!
//! The container is held in memory; reading past its end is reported as
//! `Error::Io`, as a failing read of a byte source would be.
use vstd::prelude::*;
use vstd::arithmetic::div_mod::lemma_fundamental_div_mod;
use vstd::slice::slice_subrange;
use crate::codec::{
    spec_i16_be, spec_i32_be, spec_u16_be, spec_u32_be, spec_u32_le, i16_from_be_bytes_ref,
    i32_from_be_bytes_ref, u16_from_be_bytes_ref, u32_from_be_bytes_ref, u32_from_le_bytes_ref,
};

verus! {

/// What can go wrong while loading a font or reading a glyph.
#[derive(Debug, Clone, Copy, PartialEq, Eq, Structural)]
#[non_exhaustive]
pub enum Error {
    /// The container uses a layout or encoding that is not handled.
    UnsupportedFormat,
    /// The data is not organized in an expected way, possibly corrupted.
    CorruptedData,
    /// The code point has no glyph.
    NotFound,
    /// A read went past the end of the container.
    Io,
    /// Anything else, such as an output buffer too small for a glyph.
    Other,
}

/// How the rows of a glyph bitmap are padded in the container.
#[derive(Debug, Clone, Copy, PartialEq, Eq, Structural)]
pub enum GlyphPaddingFormat {
    /// padded to one byte
    Byte,
    /// padded to 2 bytes
    Short,
    /// padded to 4 bytes
    Int,
}

/// The container's signature.
pub const PCF_MAGIC: [u8; 4] = [0x01, 0x66, 0x63, 0x70];

/// Table kinds, as written in the table of contents.
pub const PCF_ACCELERATORS: u32 = 0x02;
pub const PCF_METRICS: u32 = 0x04;
pub const PCF_BITMAPS: u32 = 0x08;
pub const PCF_BDF_ENCODINGS: u32 = 0x20;
pub const PCF_BDF_ACCELERATORS: u32 = 0x100;

/// Accelerator format flag: ink bounds follow the plain bounds.
pub const PCF_ACCEL_W_INKBOUNDS: u32 = 0x100;
/// Metrics format flag: entries are stored in the 5-byte form.
pub const PCF_COMPRESSED_METRICS: u32 = 0x100;
/// How each row of a glyph bitmap is padded (0: bytes, 1: shorts, 2: ints).
pub const PCF_GLYPH_PAD_MASK: u32 = 0x03;
/// Set when the most significant byte comes first.
pub const PCF_BYTE_MASK: u32 = 0x04;
/// Set when the most significant bit comes first.
pub const PCF_BIT_MASK: u32 = 0x08;
/// What the bitmap bits are stored in (0: bytes, 1: shorts, 2: ints).
pub const PCF_SCAN_UNIT_MASK: u32 = 0x30;

/// `width` pixels rounded up to whole units of `bytes_align` bytes, in bytes.
pub open spec fn spec_bytes_per_row(width: int, bytes_align: int) -> int {
    ((width + 8 * bytes_align - 1) / (8 * bytes_align)) * bytes_align
}

/// The row length is the least multiple of `bytes_align` bytes that holds `width` bits.
pub proof fn lemma_bytes_per_row_rounds_up(width: nat, bytes_align: int)
    requires
        bytes_align >= 1,
    ensures
        spec_bytes_per_row(width as int, bytes_align) * 8 >= width,
        spec_bytes_per_row(width as int, bytes_align) * 8 < width + 8 * bytes_align,
        spec_bytes_per_row(width as int, bytes_align) % bytes_align == 0,
        spec_bytes_per_row(width as int, bytes_align) >= 0,
{
    let unit = 8 * bytes_align;
    let x = width + unit - 1;
    let q = x / unit;
    lemma_fundamental_div_mod(x, unit);
    assert(0 <= x % unit < unit);
    assert(q >= 0) by (nonlinear_arith)
        requires
            x == unit * q + x % unit,
            0 <= x % unit < unit,
            x >= 0,
    ;
    assert(q * bytes_align * 8 >= width && q * bytes_align * 8 < width + unit) by (nonlinear_arith)
        requires
            x == unit * q + x % unit,
            0 <= x % unit < unit,
            unit == 8 * bytes_align,
            x == width + unit - 1,
    ;
    vstd::arithmetic::div_mod::lemma_mod_multiples_basic(q, bytes_align);
    assert(q * bytes_align >= 0) by (nonlinear_arith)
        requires
            q >= 0,
            bytes_align >= 1,
    ;
}

/// Returns the length of each row in bytes: `width` bits rounded up to whole
/// units of `bytes_align` bytes.
pub fn bytes_per_row(width: usize, bytes_align: usize) -> (r: usize)
    requires
        bytes_align >= 1,
        width + 8 * bytes_align <= usize::MAX,
    ensures
        r == spec_bytes_per_row(width as int, bytes_align as int),
        r * 8 >= width,
        r * 8 < width + 8 * bytes_align,
        r % bytes_align == 0,
{
    proof {
        lemma_bytes_per_row_rounds_up(width as nat, bytes_align as int);
    }
    let unit_align_bits = bytes_align * 8;
    let block_count = (width + unit_align_bits - 1) / unit_align_bits;
    proof {
        assert(block_count * bytes_align * 8 < width + unit_align_bits);
        assert(block_count * bytes_align <= usize::MAX) by (nonlinear_arith)
            requires
                block_count * bytes_align * 8 < width + unit_align_bits,
                width + unit_align_bits <= usize::MAX,
        ;
    }
    block_count * bytes_align
}

/// Per-glyph metrics.
#[derive(Debug, Clone, Copy, PartialEq, Eq, Structural)]
pub struct MetricsEntry {
    pub left_side_bearing: i16,
    pub right_side_bearing: i16,
    pub character_width: i16,
    pub character_ascent: i16,
    pub character_descent: i16,
    pub character_attributes: u16,
}

/// The compressed form: five bytes, each biased by 0x80.
pub open spec fn spec_metrics_compressed(b: Seq<u8>) -> MetricsEntry {
    MetricsEntry {
        left_side_bearing: (b[0] - 0x80) as i16,
        right_side_bearing: (b[1] - 0x80) as i16,
        character_width: (b[2] - 0x80) as i16,
        character_ascent: (b[3] - 0x80) as i16,
        character_descent: (b[4] - 0x80) as i16,
        character_attributes: 0,
    }
}

/// The standard form: five big-endian `i16` and a big-endian `u16`.
pub open spec fn spec_metrics_standard(b: Seq<u8>) -> MetricsEntry {
    MetricsEntry {
        left_side_bearing: spec_i16_be(b.subrange(0, 2)),
        right_side_bearing: spec_i16_be(b.subrange(2, 4)),
        character_width: spec_i16_be(b.subrange(4, 6)),
        character_ascent: spec_i16_be(b.subrange(6, 8)),
        character_descent: spec_i16_be(b.subrange(8, 10)),
        character_attributes: spec_u16_be(b.subrange(10, 12)),
    }
}

impl MetricsEntry {
    /// Decodes the compressed form from the first five bytes of `data`.
    pub fn new_from_compressed(data: &[u8]) -> (r: Self)
        requires
            data@.len() >= 5,
        ensures
            r == spec_metrics_compressed(data@),
    {
        MetricsEntry {
            left_side_bearing: data[0] as i16 - 0x80,
            right_side_bearing: data[1] as i16 - 0x80,
            character_width: data[2] as i16 - 0x80,
            character_ascent: data[3] as i16 - 0x80,
            character_descent: data[4] as i16 - 0x80,
            character_attributes: 0,
        }
    }

    /// Decodes the standard form from the first twelve bytes of `data`.
    pub fn new_from_standard(data: &[u8]) -> (r: Self)
        requires
            data@.len() >= 12,
        ensures
            r == spec_metrics_standard(data@),
    {
        MetricsEntry {
            left_side_bearing: i16_from_be_bytes_ref(slice_subrange(data, 0, 2)),
            right_side_bearing: i16_from_be_bytes_ref(slice_subrange(data, 2, 4)),
            character_width: i16_from_be_bytes_ref(slice_subrange(data, 4, 6)),
            character_ascent: i16_from_be_bytes_ref(slice_subrange(data, 6, 8)),
            character_descent: i16_from_be_bytes_ref(slice_subrange(data, 8, 10)),
            character_attributes: u16_from_be_bytes_ref(slice_subrange(data, 10, 12)),
        }
    }

    /// Width of the glyph's visible pixels.
    pub open spec fn spec_glyph_width(&self) -> int {
        self.right_side_bearing - self.left_side_bearing
    }

    /// Height of the glyph's visible pixels.
    pub open spec fn spec_glyph_height(&self) -> int {
        self.character_ascent + self.character_descent
    }
}


/// Whether `n` bytes can be read at `off`.
pub open spec fn readable(d: Seq<u8>, off: int, n: int) -> bool {
    0 <= off && 0 <= n && off + n <= d.len()
}

pub open spec fn le_u32_at(d: Seq<u8>, off: int) -> u32 {
    spec_u32_le(d.subrange(off, off + 4))
}

pub open spec fn be_u32_at(d: Seq<u8>, off: int) -> u32 {
    spec_u32_be(d.subrange(off, off + 4))
}

pub open spec fn be_i32_at(d: Seq<u8>, off: int) -> i32 {
    spec_i32_be(d.subrange(off, off + 4))
}

pub open spec fn be_u16_at(d: Seq<u8>, off: int) -> u16 {
    spec_u16_be(d.subrange(off, off + 2))
}

/// Returns the `n` bytes at `off`, or `Error::Io` where they run past the end.
fn read_bytes(d: &[u8], off: u64, n: u64) -> (r: Result<&[u8], Error>)
    ensures
        r matches Ok(s) ==> readable(d@, off as int, n as int) && s@ == d@.subrange(
            off as int,
            off + n,
        ),
        r matches Err(e) ==> !readable(d@, off as int, n as int) && e == Error::Io,
{
    let len = d.len() as u64;
    if off <= len && n <= len - off {
        Ok(slice_subrange(d, off as usize, (off + n) as usize))
    } else {
        Err(Error::Io)
    }
}

/// Fails with `Error::Io` unless `n` bytes can be read at `off`.
fn check_readable(d: &[u8], off: u64, n: u64) -> (r: Result<(), Error>)
    ensures
        r matches Ok(_) <==> readable(d@, off as int, n as int),
        r matches Err(e) ==> e == Error::Io,
{
    let len = d.len() as u64;
    if off <= len && n <= len - off {
        Ok(())
    } else {
        Err(Error::Io)
    }
}

fn le_u32_in(d: &[u8], off: u64) -> (r: u32)
    requires
        readable(d@, off as int, 4),
    ensures
        r == le_u32_at(d@, off as int),
{
    let len = d.len();
    assert(off + 4 <= len);
    u32_from_le_bytes_ref(slice_subrange(d, off as usize, (off + 4) as usize))
}

fn be_u32_in(d: &[u8], off: u64) -> (r: u32)
    requires
        readable(d@, off as int, 4),
    ensures
        r == be_u32_at(d@, off as int),
{
    let len = d.len();
    assert(off + 4 <= len);
    u32_from_be_bytes_ref(slice_subrange(d, off as usize, (off + 4) as usize))
}

fn be_i32_in(d: &[u8], off: u64) -> (r: i32)
    requires
        readable(d@, off as int, 4),
    ensures
        r == be_i32_at(d@, off as int),
{
    let len = d.len();
    assert(off + 4 <= len);
    i32_from_be_bytes_ref(slice_subrange(d, off as usize, (off + 4) as usize))
}

fn be_u16_in(d: &[u8], off: u64) -> (r: u16)
    requires
        readable(d@, off as int, 2),
    ensures
        r == be_u16_at(d@, off as int),
{
    let len = d.len();
    assert(off + 2 <= len);
    u16_from_be_bytes_ref(slice_subrange(d, off as usize, (off + 2) as usize))
}

/// Whether the container starts with the signature.
pub open spec fn has_magic(d: Seq<u8>) -> bool {
    d[0] == 0x01 && d[1] == 0x66 && d[2] == 0x63 && d[3] == 0x70
}

/// Number of entries in the table of contents.
pub open spec fn table_count(d: Seq<u8>) -> u32 {
    le_u32_at(d, 4)
}

/// Kind of the `i`-th table of contents entry.
pub open spec fn toc_type(d: Seq<u8>, i: int) -> u32 {
    le_u32_at(d, 8 + 16 * i)
}

/// Format flags of the `i`-th table of contents entry.
pub open spec fn toc_format(d: Seq<u8>, i: int) -> u32 {
    le_u32_at(d, 8 + 16 * i + 4)
}

/// Absolute offset of the table of the `i`-th entry.
pub open spec fn toc_offset(d: Seq<u8>, i: int) -> u32 {
    le_u32_at(d, 8 + 16 * i + 12)
}

/// The last of the first `n` entries with the given kind; a later entry
/// of a kind replaces an earlier one.
pub open spec fn last_table(d: Seq<u8>, n: int, kind: u32) -> Option<int>
    decreases n,
{
    if n <= 0 {
        None
    } else if toc_type(d, n - 1) == kind {
        Some(n - 1)
    } else {
        last_table(d, n - 1, kind)
    }
}

/// The accelerators entry: the BDF one, else the plain one.
pub open spec fn accel_table(d: Seq<u8>, n: int) -> Option<int> {
    match last_table(d, n, PCF_BDF_ACCELERATORS) {
        Some(i) => Some(i),
        None => last_table(d, n, PCF_ACCELERATORS),
    }
}

/// The failure, if any, of a required table: missing, or not stored most
/// significant byte and bit first.
pub open spec fn table_problem(d: Seq<u8>, t: Option<int>) -> Option<Error> {
    match t {
        None => Some(Error::CorruptedData),
        Some(i) => if toc_format(d, i) & (PCF_BYTE_MASK | PCF_BIT_MASK) != (PCF_BYTE_MASK
            | PCF_BIT_MASK) {
            Some(Error::UnsupportedFormat)
        } else {
            None
        },
    }
}

/// What a loaded font holds.
pub struct FontModel {
    /// The whole container.
    pub data: Seq<u8>,
    pub glyph_count: u32,
    pub ascent: i32,
    pub descent: i32,
    pub metrics_compressed: bool,
    /// Width, height, x offset and y offset of the union of all glyphs.
    pub bounding_box: (i16, i16, i16, i16),
    pub padding: GlyphPaddingFormat,
    pub min_char_or_byte2: u16,
    pub max_char_or_byte2: u16,
    pub min_byte1: u16,
    pub max_byte1: u16,
    pub default_char: u16,
    /// Start of the code point to glyph index table.
    pub encoded_glyph_indices_location: int,
    /// Start of the table of bitmap offsets, one per glyph.
    pub bitmap_position_lut_location: int,
    /// Start of the bitmap data.
    pub bitmap_data_location: int,
    /// Start of the metrics entries.
    pub metrics_data_location: int,
}

pub open spec fn padding_of(bits: u32) -> GlyphPaddingFormat {
    if bits == 1 {
        GlyphPaddingFormat::Short
    } else if bits == 2 {
        GlyphPaddingFormat::Int
    } else {
        GlyphPaddingFormat::Byte
    }
}

pub open spec fn fits_i16(x: int) -> bool {
    i16::MIN <= x <= i16::MAX
}

/// Where the min and max bounds of the accelerator table `a` start.
pub open spec fn accel_bounds_location(d: Seq<u8>, a: int) -> int {
    toc_offset(d, a) + 24 + if toc_format(d, a) & PCF_ACCEL_W_INKBOUNDS != 0 {
        24int
    } else {
        0int
    }
}

/// Bounding box from the min and max bounds: width, height, x offset, y offset.
pub open spec fn bounding_box_of(minb: MetricsEntry, maxb: MetricsEntry) -> (int, int, int, int) {
    (
        maxb.right_side_bearing - minb.left_side_bearing,
        maxb.character_ascent + maxb.character_descent,
        minb.left_side_bearing as int,
        -maxb.character_descent,
    )
}

/// The glyph count, read from the bitmaps table `b`.
pub open spec fn bitmap_glyph_count(d: Seq<u8>, b: int) -> u32 {
    be_u32_at(d, toc_offset(d, b) + 4)
}

pub open spec fn metrics_compressed_of(d: Seq<u8>, m: int) -> bool {
    toc_format(d, m) & PCF_COMPRESSED_METRICS != 0
}

/// The entry count of the metrics table `m`.
pub open spec fn metrics_count(d: Seq<u8>, m: int) -> u32 {
    if metrics_compressed_of(d, m) {
        be_u16_at(d, toc_offset(d, m) + 4) as u32
    } else {
        be_u32_at(d, toc_offset(d, m) + 4)
    }
}

/// Loading, once the four tables are found and known to be in the handled
/// byte and bit order.
pub open spec fn load_tables(d: Seq<u8>, b: int, m: int, e: int, a: int) -> Result<
    FontModel,
    Error,
> {
    let bf = toc_format(d, b);
    let bo = toc_offset(d, b) as int;
    let mo = toc_offset(d, m) as int;
    let eo = toc_offset(d, e) as int;
    let ao = toc_offset(d, a) as int;
    let gc = bitmap_glyph_count(d, b);
    let compressed = metrics_compressed_of(d, m);
    let bl = accel_bounds_location(d, a);
    if bf & PCF_SCAN_UNIT_MASK != 0 {
        Err(Error::UnsupportedFormat)
    } else if bf & PCF_GLYPH_PAD_MASK == PCF_GLYPH_PAD_MASK {
        Err(Error::CorruptedData)
    } else if !readable(d, bo + 4, 4) || !readable(d, bo + 8 + 4 * gc, 12) || !readable(d, mo, 8) {
        Err(Error::Io)
    } else if metrics_count(d, m) != gc {
        Err(Error::CorruptedData)
    } else if !readable(d, eo + 4, 10) || !readable(d, ao + 12, 8) || !readable(d, bl, 24) {
        Err(Error::Io)
    } else {
        let bbox = bounding_box_of(
            spec_metrics_standard(d.subrange(bl, bl + 12)),
            spec_metrics_standard(d.subrange(bl + 12, bl + 24)),
        );
        if !(fits_i16(bbox.0) && fits_i16(bbox.1) && fits_i16(bbox.2) && fits_i16(bbox.3)) {
            Err(Error::CorruptedData)
        } else {
            Ok(
                FontModel {
                    data: d,
                    glyph_count: gc,
                    ascent: be_i32_at(d, ao + 12),
                    descent: be_i32_at(d, ao + 16),
                    metrics_compressed: compressed,
                    bounding_box: (bbox.0 as i16, bbox.1 as i16, bbox.2 as i16, bbox.3 as i16),
                    padding: padding_of(bf & PCF_GLYPH_PAD_MASK),
                    min_char_or_byte2: be_u16_at(d, eo + 4),
                    max_char_or_byte2: be_u16_at(d, eo + 6),
                    min_byte1: be_u16_at(d, eo + 8),
                    max_byte1: be_u16_at(d, eo + 10),
                    default_char: be_u16_at(d, eo + 12),
                    encoded_glyph_indices_location: eo + 14,
                    bitmap_position_lut_location: bo + 8,
                    bitmap_data_location: bo + 8 + 4 * (gc + 4),
                    metrics_data_location: mo + 4 + if compressed {
                        2int
                    } else {
                        4int
                    },
                },
            )
        }
    }
}

/// The result of loading the container `d`.
pub open spec fn load_spec(d: Seq<u8>) -> Result<FontModel, Error> {
    if !readable(d, 0, 4) {
        Err(Error::Io)
    } else if !has_magic(d) {
        Err(Error::UnsupportedFormat)
    } else if !readable(d, 4, 4) || !readable(d, 8, 16 * table_count(d)) {
        Err(Error::Io)
    } else {
        let n = table_count(d) as int;
        let b = last_table(d, n, PCF_BITMAPS);
        let m = last_table(d, n, PCF_METRICS);
        let e = last_table(d, n, PCF_BDF_ENCODINGS);
        let a = accel_table(d, n);
        if table_problem(d, b) is Some {
            Err(table_problem(d, b)->0)
        } else if table_problem(d, m) is Some {
            Err(table_problem(d, m)->0)
        } else if table_problem(d, e) is Some {
            Err(table_problem(d, e)->0)
        } else if table_problem(d, a) is Some {
            Err(table_problem(d, a)->0)
        } else {
            load_tables(d, b->0, m->0, e->0, a->0)
        }
    }
}


/// An opened font: the container and what was read from its tables.
pub struct PcfFont {
    data: Vec<u8>,
    /// Glyph count, as the bitmaps table gives it.
    glyph_count: u32,
    /// The number of pixels above the baseline of a typical ascender
    ascent: i32,
    /// The number of pixels below the baseline of a typical descender
    descent: i32,
    /// Whether metrics are compressed.
    metrics_compressed: bool,
    /// The maximum glyph size as a 4-tuple of: width, height, x_offset, y_offset
    bounding_box: (i16, i16, i16, i16),
    glyph_row_padding_format: GlyphPaddingFormat,
    min_char_or_byte2: u16,
    max_char_or_byte2: u16,
    min_byte1: u16,
    max_byte1: u16,
    default_char: u16,
    /// Use data here to get the glyph index of a code point.
    encoded_glyph_indices_location: u64,
    /// The absolute offset to the bitmap offsets look up table.
    bitmap_position_lut_location: u64,
    /// The absolute offset to the first bitmap data in the bitmap table.
    bitmap_data_location: u64,
    /// The absolute offset to the first metric entry.
    metrics_data_location: u64,
}

/// Bound on the locations of a loaded font: table offsets are `u32`, and a
/// few of them are moved on by at most four bytes per glyph.
pub const LOCATION_BOUND: u64 = 0x10_0000_0000;

impl View for PcfFont {
    type V = FontModel;

    closed spec fn view(&self) -> FontModel {
        FontModel {
            data: self.data@,
            glyph_count: self.glyph_count,
            ascent: self.ascent,
            descent: self.descent,
            metrics_compressed: self.metrics_compressed,
            bounding_box: self.bounding_box,
            padding: self.glyph_row_padding_format,
            min_char_or_byte2: self.min_char_or_byte2,
            max_char_or_byte2: self.max_char_or_byte2,
            min_byte1: self.min_byte1,
            max_byte1: self.max_byte1,
            default_char: self.default_char,
            encoded_glyph_indices_location: self.encoded_glyph_indices_location as int,
            bitmap_position_lut_location: self.bitmap_position_lut_location as int,
            bitmap_data_location: self.bitmap_data_location as int,
            metrics_data_location: self.metrics_data_location as int,
        }
    }
}

impl PcfFont {
    #[verifier::type_invariant]
    spec fn locations_bounded(&self) -> bool {
        &&& self.encoded_glyph_indices_location < LOCATION_BOUND
        &&& self.bitmap_position_lut_location < LOCATION_BOUND
        &&& self.bitmap_data_location < LOCATION_BOUND
        &&& self.metrics_data_location < LOCATION_BOUND
    }
}

pub open spec fn index_of(t: Option<u64>) -> Option<int> {
    match t {
        Some(i) => Some(i as int),
        None => None,
    }
}

/// Checks a required table, and returns its entry's index.
fn check_table(d: &[u8], t: Option<u64>, count: u32) -> (r: Result<u64, Error>)
    requires
        readable(d@, 8, 16 * count),
        t matches Some(i) ==> i < count,
    ensures
        r matches Ok(i) ==> table_problem(d@, index_of(t)) is None && t == Some(i),
        r matches Err(e) ==> table_problem(d@, index_of(t)) == Some(e),
{
    match t {
        None => Err(Error::CorruptedData),
        Some(i) => {
            let format = le_u32_in(d, 8 + 16 * i + 4);
            if format & (PCF_BYTE_MASK | PCF_BIT_MASK) != (PCF_BYTE_MASK | PCF_BIT_MASK) {
                Err(Error::UnsupportedFormat)
            } else {
                Ok(i)
            }
        },
    }
}

/// The entries of the four required tables among the first `count` entries
/// of the table of contents.
fn scan_toc(d: &[u8], count: u32) -> (r: (Option<u64>, Option<u64>, Option<u64>, Option<u64>))
    requires
        count == table_count(d@),
        readable(d@, 8, 16 * count),
    ensures
        index_of(r.0) == last_table(d@, count as int, PCF_BITMAPS),
        index_of(r.1) == last_table(d@, count as int, PCF_METRICS),
        index_of(r.2) == last_table(d@, count as int, PCF_BDF_ENCODINGS),
        index_of(r.3) == accel_table(d@, count as int),
        r.0 matches Some(j) ==> j < count,
        r.1 matches Some(j) ==> j < count,
        r.2 matches Some(j) ==> j < count,
        r.3 matches Some(j) ==> j < count,
{
    let mut bitmaps: Option<u64> = None;
    let mut metrics: Option<u64> = None;
    let mut encodings: Option<u64> = None;
    let mut bdf_accelerators: Option<u64> = None;
    let mut accelerators: Option<u64> = None;
    let mut i: u64 = 0;
    while i < count as u64
        invariant
            i <= count,
            count == table_count(d@),
            readable(d@, 8, 16 * count),
            index_of(bitmaps) == last_table(d@, i as int, PCF_BITMAPS),
            index_of(metrics) == last_table(d@, i as int, PCF_METRICS),
            index_of(encodings) == last_table(d@, i as int, PCF_BDF_ENCODINGS),
            index_of(bdf_accelerators) == last_table(d@, i as int, PCF_BDF_ACCELERATORS),
            index_of(accelerators) == last_table(d@, i as int, PCF_ACCELERATORS),
            bitmaps matches Some(j) ==> j < i,
            metrics matches Some(j) ==> j < i,
            encodings matches Some(j) ==> j < i,
            bdf_accelerators matches Some(j) ==> j < i,
            accelerators matches Some(j) ==> j < i,
        decreases count - i,
    {
        // the last entry of each kind wins
        let kind = le_u32_in(d, 8 + 16 * i);
        if kind == PCF_BITMAPS {
            bitmaps = Some(i);
        } else if kind == PCF_METRICS {
            metrics = Some(i);
        } else if kind == PCF_BDF_ENCODINGS {
            encodings = Some(i);
        } else if kind == PCF_BDF_ACCELERATORS {
            bdf_accelerators = Some(i);
        } else if kind == PCF_ACCELERATORS {
            accelerators = Some(i);
        }
        i = i + 1;
    }
    if bdf_accelerators.is_none() {
        // the plain accelerators serve the same purpose
        bdf_accelerators = accelerators;
    }
    (bitmaps, metrics, encodings, bdf_accelerators)
}

/// The bounding box from the accelerator bounds at `bl`, or
/// `Error::CorruptedData` where a field does not fit an `i16`.
fn read_bounding_box(d: &[u8], bl: u64) -> (r: Result<(i16, i16, i16, i16), Error>)
    requires
        readable(d@, bl as int, 24),
    ensures
        ({
            let bbox = bounding_box_of(
                spec_metrics_standard(d@.subrange(bl as int, bl + 12)),
                spec_metrics_standard(d@.subrange(bl + 12, bl + 24)),
            );
            &&& r matches Ok(v) ==> fits_i16(bbox.0) && fits_i16(bbox.1) && fits_i16(bbox.2)
                && fits_i16(bbox.3) && v == (bbox.0 as i16, bbox.1 as i16, bbox.2 as i16,
                bbox.3 as i16)
            &&& r matches Err(e) ==> !(fits_i16(bbox.0) && fits_i16(bbox.1) && fits_i16(bbox.2)
                && fits_i16(bbox.3)) && e == Error::CorruptedData
        }),
{
    let len = d.len();
    let minbounds = MetricsEntry::new_from_standard(
        slice_subrange(d, bl as usize, (bl + 12) as usize),
    );
    let maxbounds = MetricsEntry::new_from_standard(
        slice_subrange(d, (bl + 12) as usize, (bl + 24) as usize),
    );
    let width = maxbounds.right_side_bearing as i32 - minbounds.left_side_bearing as i32;
    let height = maxbounds.character_ascent as i32 + maxbounds.character_descent as i32;
    let y_offset = -(maxbounds.character_descent as i32);
    if !(i16::MIN as i32 <= width && width <= i16::MAX as i32 && i16::MIN as i32 <= height
        && height <= i16::MAX as i32 && y_offset <= i16::MAX as i32) {
        return Err(Error::CorruptedData);
    }
    Ok((width as i16, height as i16, minbounds.left_side_bearing, y_offset as i16))
}

/// Reads the four tables whose entries are `b`, `m`, `e` and `a`.
#[verifier::rlimit(30)]
fn open_tables(data: Vec<u8>, b: u64, m: u64, e: u64, a: u64) -> (r: Result<PcfFont, Error>)
    requires
        readable(data@, 8, 16 * table_count(data@)),
        b < table_count(data@),
        m < table_count(data@),
        e < table_count(data@),
        a < table_count(data@),
    ensures
        r matches Ok(f) ==> load_tables(data@, b as int, m as int, e as int, a as int) == Ok::<
            FontModel,
            Error,
        >(f@),
        r matches Err(err) ==> load_tables(data@, b as int, m as int, e as int, a as int) == Err::<
            FontModel,
            Error,
        >(err),
{
    let d = data.as_slice();
    let len = d.len();
    let bf = le_u32_in(d, 8 + 16 * b + 4);
    if bf & PCF_SCAN_UNIT_MASK != 0 {
        // only bits stored in bytes are handled
        return Err(Error::UnsupportedFormat);
    }
    let pad = bf & PCF_GLYPH_PAD_MASK;
    if pad == PCF_GLYPH_PAD_MASK {
        return Err(Error::CorruptedData);
    }
    let glyph_row_padding_format = if pad == 1 {
        GlyphPaddingFormat::Short
    } else if pad == 2 {
        GlyphPaddingFormat::Int
    } else {
        GlyphPaddingFormat::Byte
    };

    // bitmaps table: format, glyph count, offsets, then four bitmap sizes
    let bo = le_u32_in(d, 8 + 16 * b + 12) as u64;
    check_readable(d, bo + 4, 4)?;
    let glyph_count = be_u32_in(d, bo + 4);
    check_readable(d, bo + 8 + 4 * (glyph_count as u64), 12)?;

    // metrics table: format, count, entries
    let mf = le_u32_in(d, 8 + 16 * m + 4);
    let mo = le_u32_in(d, 8 + 16 * m + 12) as u64;
    check_readable(d, mo, 8)?;
    let metrics_compressed = mf & PCF_COMPRESSED_METRICS != 0;
    let metrics_count = if metrics_compressed {
        be_u16_in(d, mo + 4) as u32
    } else {
        be_u32_in(d, mo + 4)
    };
    if metrics_count != glyph_count {
        return Err(Error::CorruptedData);
    }

    // encodings table: format, code point ranges, default char, indices
    let eo = le_u32_in(d, 8 + 16 * e + 12) as u64;
    check_readable(d, eo + 4, 10)?;

    // accelerators table: format, eight flag bytes, ascent, descent,
    // max overlap, bounds, and ink bounds if the format says so
    let af = le_u32_in(d, 8 + 16 * a + 4);
    let ao = le_u32_in(d, 8 + 16 * a + 12) as u64;
    check_readable(d, ao + 12, 8)?;
    let bl = ao + 24 + if af & PCF_ACCEL_W_INKBOUNDS != 0 {
        24
    } else {
        0
    };
    check_readable(d, bl, 24)?;
    let bounding_box = read_bounding_box(d, bl)?;
    let font = PcfFont {
        glyph_count,
        ascent: be_i32_in(d, ao + 12),
        descent: be_i32_in(d, ao + 16),
        metrics_compressed,
        bounding_box,
        glyph_row_padding_format,
        min_char_or_byte2: be_u16_in(d, eo + 4),
        max_char_or_byte2: be_u16_in(d, eo + 6),
        min_byte1: be_u16_in(d, eo + 8),
        max_byte1: be_u16_in(d, eo + 10),
        default_char: be_u16_in(d, eo + 12),
        encoded_glyph_indices_location: eo + 14,
        bitmap_position_lut_location: bo + 8,
        bitmap_data_location: bo + 8 + 4 * (glyph_count as u64 + 4),
        metrics_data_location: mo + 4 + if metrics_compressed {
            2
        } else {
            4
        },
        data,
    };
    Ok(font)
}

/// Checks and loads the PCF font held in `data`.
///
/// Loading is all or nothing: no partly read font is returned.
pub fn load_pcf_font(data: Vec<u8>) -> (r: Result<PcfFont, Error>)
    ensures
        r matches Ok(f) ==> load_spec(data@) == Ok::<FontModel, Error>(f@),
        r matches Err(e) ==> load_spec(data@) == Err::<FontModel, Error>(e),
{
    let d = data.as_slice();
    check_readable(d, 0, 4)?;
    if !(d[0] == PCF_MAGIC[0] && d[1] == PCF_MAGIC[1] && d[2] == PCF_MAGIC[2] && d[3]
        == PCF_MAGIC[3]) {
        return Err(Error::UnsupportedFormat);
    }
    check_readable(d, 4, 4)?;
    let count = le_u32_in(d, 4);
    check_readable(d, 8, 16 * count as u64)?;
    let (bitmaps, metrics, encodings, accelerators) = scan_toc(d, count);
    let b = check_table(d, bitmaps, count)?;
    let m = check_table(d, metrics, count)?;
    let e = check_table(d, encodings, count)?;
    let a = check_table(d, accelerators, count)?;
    open_tables(data, b, m, e, a)
}


/// Row padding unit of a padding format, in bytes.
pub open spec fn padding_unit(p: GlyphPaddingFormat) -> int {
    match p {
        GlyphPaddingFormat::Byte => 1,
        GlyphPaddingFormat::Short => 2,
        GlyphPaddingFormat::Int => 4,
    }
}

/// The glyph index stored for `code_point`: its high byte selects the row and
/// its low byte the column of the encoding table.
pub open spec fn glyph_index_spec(f: FontModel, code_point: u16) -> Result<u16, Error> {
    let enc1 = code_point / 256;
    let enc2 = code_point % 256;
    if !(f.min_byte1 <= enc1 <= f.max_byte1 && f.min_char_or_byte2 <= enc2
        <= f.max_char_or_byte2) {
        Err(Error::NotFound)
    } else {
        let index = (enc1 - f.min_byte1) * (f.max_char_or_byte2 - f.min_char_or_byte2 + 1) + (
        enc2 - f.min_char_or_byte2);
        let off = f.encoded_glyph_indices_location + 2 * index;
        if !readable(f.data, off, 2) {
            Err(Error::Io)
        } else if be_u16_at(f.data, off) == 0xFFFF {
            Err(Error::NotFound)
        } else {
            Ok(be_u16_at(f.data, off))
        }
    }
}

/// Offset of a glyph's bitmap from the start of the bitmap data.
pub open spec fn bitmap_offset_spec(f: FontModel, glyph_index: u16) -> Result<u32, Error> {
    let off = f.bitmap_position_lut_location + 4 * glyph_index;
    if readable(f.data, off, 4) {
        Ok(be_u32_at(f.data, off))
    } else {
        Err(Error::Io)
    }
}

/// Metrics entry of a glyph index.
pub open spec fn metrics_spec(f: FontModel, glyph_index: u16) -> Result<MetricsEntry, Error> {
    if f.metrics_compressed {
        let off = f.metrics_data_location + 5 * glyph_index;
        if readable(f.data, off, 5) {
            Ok(spec_metrics_compressed(f.data.subrange(off, off + 5)))
        } else {
            Err(Error::Io)
        }
    } else {
        let off = f.metrics_data_location + 12 * glyph_index;
        if readable(f.data, off, 12) {
            Ok(spec_metrics_standard(f.data.subrange(off, off + 12)))
        } else {
            Err(Error::Io)
        }
    }
}

/// Metrics entry of a code point.
pub open spec fn glyph_metrics_spec(f: FontModel, code_point: u16) -> Result<MetricsEntry, Error> {
    match glyph_index_spec(f, code_point) {
        Ok(i) => metrics_spec(f, i),
        Err(e) => Err(e),
    }
}

/// Where and how a glyph's bitmap is stored.
#[derive(Debug, Clone, Copy)]
pub struct GlyphPlacement {
    /// Absolute offset of the first row.
    pub start: u64,
    /// Width in pixels.
    pub width: usize,
    /// Height in pixels.
    pub height: usize,
    /// Length of a stored row, padding included.
    pub source_row_bytes: usize,
    /// Length of a row padded to bytes only.
    pub row_bytes: usize,
    pub metrics: MetricsEntry,
}

/// Locates the glyph of `code_point`. A glyph whose metrics give a negative
/// width or height is `Error::CorruptedData`.
pub open spec fn placement_spec(f: FontModel, code_point: u16) -> Result<GlyphPlacement, Error> {
    match glyph_index_spec(f, code_point) {
        Err(e) => Err(e),
        Ok(i) => match bitmap_offset_spec(f, i) {
            Err(e) => Err(e),
            Ok(bo) => match metrics_spec(f, i) {
                Err(e) => Err(e),
                Ok(m) => {
                    let w = m.spec_glyph_width();
                    let h = m.spec_glyph_height();
                    if w < 0 || h < 0 {
                        Err(Error::CorruptedData)
                    } else {
                        Ok(
                            GlyphPlacement {
                                start: (f.bitmap_data_location + bo) as u64,
                                width: w as usize,
                                height: h as usize,
                                source_row_bytes: spec_bytes_per_row(
                                    w,
                                    padding_unit(f.padding),
                                ) as usize,
                                row_bytes: spec_bytes_per_row(w, 1) as usize,
                                metrics: m,
                            },
                        )
                    }
                },
            },
        },
    }
}

/// Length of a glyph bitmap with rows padded to bytes.
pub open spec fn placement_len(p: GlyphPlacement) -> int {
    p.height * p.row_bytes
}

/// Size limits of a glyph located in a loaded font.
pub open spec fn placement_bounded(p: GlyphPlacement) -> bool {
    &&& p.height <= 0x10000
    &&& p.width <= 0x10000
    &&& p.row_bytes <= p.source_row_bytes <= 0x4000
    &&& p.start < 2 * LOCATION_BOUND
}

/// Whether every row of the glyph can be read; rows of no bytes always can.
pub open spec fn rows_readable(d: Seq<u8>, p: GlyphPlacement) -> bool {
    p.height == 0 || p.row_bytes == 0 || readable(
        d,
        p.start + (p.height - 1) * p.source_row_bytes,
        p.row_bytes as int,
    )
}

/// Byte `j` of row `r` of a glyph, as stored.
pub open spec fn stored_byte(d: Seq<u8>, p: GlyphPlacement, r: int, j: int) -> u8 {
    d[p.start + r * p.source_row_bytes + j]
}

/// Byte `j` of row `r` of a bitmap whose rows are `row_bytes` long.
pub open spec fn row_byte(buf: Seq<u8>, row_bytes: int, r: int, j: int) -> u8 {
    buf[r * row_bytes + j]
}

/// `buf` holds the rows of the glyph, each padded to bytes only.
pub open spec fn holds_rows(buf: Seq<u8>, d: Seq<u8>, p: GlyphPlacement) -> bool {
    forall|r: int, j: int|
        0 <= r < p.height && 0 <= j < p.row_bytes ==> #[trigger] row_byte(
            buf,
            p.row_bytes as int,
            r,
            j,
        ) == stored_byte(d, p, r, j)
}

/// The glyph of `code_point` once its rows are known to be readable.
pub open spec fn fetch_spec(f: FontModel, code_point: u16) -> Result<GlyphPlacement, Error> {
    match placement_spec(f, code_point) {
        Ok(p) => if rows_readable(f.data, p) {
            Ok(p)
        } else {
            Err(Error::Io)
        },
        Err(e) => Err(e),
    }
}

/// The bitmap of a glyph with each row padded to bytes only.
pub open spec fn glyph_data(d: Seq<u8>, p: GlyphPlacement) -> Seq<u8> {
    Seq::new(
        (p.height * p.row_bytes) as nat,
        |k: int| stored_byte(d, p, k / p.row_bytes as int, k % p.row_bytes as int),
    )
}

/// A buffer of the right length that holds the rows is the glyph's bitmap.
proof fn lemma_holds_rows_is_glyph_data(buf: Seq<u8>, d: Seq<u8>, p: GlyphPlacement)
    requires
        buf.len() == p.height * p.row_bytes,
        holds_rows(buf, d, p),
    ensures
        buf == glyph_data(d, p),
{
    let rb = p.row_bytes as int;
    let h = p.height as int;
    assert forall|k: int| 0 <= k < buf.len() implies buf[k] == glyph_data(d, p)[k] by {
        assert(rb > 0) by (nonlinear_arith)
            requires
                0 <= k < h * rb,
                h >= 0,
                rb >= 0,
        ;
        lemma_fundamental_div_mod(k, rb);
        let r = k / rb;
        let j = k % rb;
        assert(0 <= j < rb);
        assert(0 <= r < h) by (nonlinear_arith)
            requires
                k == rb * r + j,
                0 <= j < rb,
                0 <= k < h * rb,
        ;
        assert(row_byte(buf, rb, r, j) == stored_byte(d, p, r, j));
        assert(r * rb == rb * r) by (nonlinear_arith);
    }
    assert(buf =~= glyph_data(d, p));
}

proof fn lemma_row_start(r: int, j: int, h: int, rb: int)
    requires
        0 <= r < h,
        0 <= j < rb,
    ensures
        0 <= r * rb + j < h * rb,
        r * rb + j < (r + 1) * rb,
        r * rb <= r * rb + j,
{
    assert(r * rb + j < h * rb) by (nonlinear_arith)
        requires
            0 <= r < h,
            0 <= j < rb,
    ;
    assert(0 <= r * rb) by (nonlinear_arith)
        requires
            0 <= r,
            0 <= rb,
    ;
    assert((r + 1) * rb == r * rb + rb) by (nonlinear_arith);
}

proof fn lemma_stored_in_range(r: int, j: int, h: int, src: int, rb: int)
    requires
        0 <= r < h,
        0 <= j < rb,
        0 <= src,
    ensures
        0 <= r * src + j < (h - 1) * src + rb,
{
    assert(0 <= r * src + j < (h - 1) * src + rb) by (nonlinear_arith)
        requires
            0 <= r < h,
            0 <= j < rb,
            0 <= src,
    ;
}

impl PcfFont {
    /// The glyph bounding box: width, height, x offset, y offset.
    pub fn bounding_box(&self) -> (r: (i16, i16, i16, i16))
        ensures
            r == self@.bounding_box,
    {
        self.bounding_box
    }

    pub fn glyph_count(&self) -> (r: u32)
        ensures
            r == self@.glyph_count,
    {
        self.glyph_count
    }

    pub fn ascent(&self) -> (r: i32)
        ensures
            r == self@.ascent,
    {
        self.ascent
    }

    pub fn desent(&self) -> (r: i32)
        ensures
            r == self@.descent,
    {
        self.descent
    }

    pub fn row_padding_mode(&self) -> (r: GlyphPaddingFormat)
        ensures
            r == self@.padding,
    {
        self.glyph_row_padding_format
    }

    /// The code point drawn in place of one that has no glyph.
    pub fn default_char(&self) -> (r: u16)
        ensures
            r == self@.default_char,
    {
        self.default_char
    }

    /// Bytes needed to hold any glyph within the bounding box, rows padded to
    /// bytes. A negative width or height counts as zero.
    pub fn max_bytes_per_glyph(&self) -> (r: usize)
        ensures
            r == spec_bytes_per_row(
                if self@.bounding_box.0 < 0 {
                    0
                } else {
                    self@.bounding_box.0 as int
                },
                1,
            ) * if self@.bounding_box.1 < 0 {
                0
            } else {
                self@.bounding_box.1 as int
            },
    {
        let width: usize = if self.bounding_box.0 < 0 {
            0
        } else {
            self.bounding_box.0 as usize
        };
        let height: usize = if self.bounding_box.1 < 0 {
            0
        } else {
            self.bounding_box.1 as usize
        };
        let row_bytes = bytes_per_row(width, 1);
        assert(height * row_bytes <= 0x8000 * 0x1000) by (nonlinear_arith)
            requires
                height <= 0x7fff,
                row_bytes <= 0x1000,
        ;
        height * row_bytes
    }

    /// Override the default character.
    pub fn override_default_char(&mut self, value: u16)
        ensures
            final(self)@ == (FontModel { default_char: value, ..old(self)@ }),
    {
        proof {
            use_type_invariant(&*self);
        }
        self.default_char = value;
    }

    fn get_glyph_index(&self, code_point: u16) -> (r: Result<u16, Error>)
        ensures
            r == glyph_index_spec(self@, code_point),
    {
        proof {
            use_type_invariant(self);
        }
        let enc1 = code_point / 256;
        let enc2 = code_point % 256;
        if !(self.min_byte1 <= enc1 && enc1 <= self.max_byte1 && self.min_char_or_byte2 <= enc2
            && enc2 <= self.max_char_or_byte2) {
            return Err(Error::NotFound);
        }
        let row = (enc1 - self.min_byte1) as u64;
        let row_len = (self.max_char_or_byte2 - self.min_char_or_byte2) as u64 + 1;
        assert(row * row_len <= 0x100 * 0x10000) by (nonlinear_arith)
            requires
                row < 0x100,
                row_len <= 0x10000,
        ;
        let index = row * row_len + (enc2 - self.min_char_or_byte2) as u64;
        // each index takes 2 bytes
        let off = self.encoded_glyph_indices_location + 2 * index;
        let d = self.data.as_slice();
        check_readable(d, off, 2)?;
        let glyph_index = be_u16_in(d, off);
        // 0xFFFF means there's no matching glyph
        if glyph_index == 0xFFFF {
            Err(Error::NotFound)
        } else {
            Ok(glyph_index)
        }
    }

    fn get_glyph_bitmap_offset(&self, glyph_index: u16) -> (r: Result<u32, Error>)
        ensures
            r == bitmap_offset_spec(self@, glyph_index),
    {
        proof {
            use_type_invariant(self);
        }
        // each bitmap offset takes 4 bytes
        let off = self.bitmap_position_lut_location + 4 * glyph_index as u64;
        let d = self.data.as_slice();
        check_readable(d, off, 4)?;
        Ok(be_u32_in(d, off))
    }

    fn get_metrics(&self, glyph_index: u16) -> (r: Result<MetricsEntry, Error>)
        ensures
            r == metrics_spec(self@, glyph_index),
    {
        proof {
            use_type_invariant(self);
        }
        let d = self.data.as_slice();
        if self.metrics_compressed {
            let off = self.metrics_data_location + 5 * glyph_index as u64;
            let b = read_bytes(d, off, 5)?;
            Ok(MetricsEntry::new_from_compressed(b))
        } else {
            let off = self.metrics_data_location + 12 * glyph_index as u64;
            let b = read_bytes(d, off, 12)?;
            Ok(MetricsEntry::new_from_standard(b))
        }
    }

    /// The metrics of the glyph of `code_point`.
    pub fn get_glyph_metrics(&self, code_point: u16) -> (r: Result<MetricsEntry, Error>)
        ensures
            r == glyph_metrics_spec(self@, code_point),
    {
        let glyph_index = self.get_glyph_index(code_point)?;
        self.get_metrics(glyph_index)
    }

    /// Where the glyph of `code_point` is stored, and its metrics.
    pub fn locate_glyph(&self, code_point: u16) -> (r: Result<GlyphPlacement, Error>)
        ensures
            r == placement_spec(self@, code_point),
            r matches Ok(p) ==> placement_bounded(p),
    {
        proof {
            use_type_invariant(self);
        }
        let glyph_index = self.get_glyph_index(code_point)?;
        let bitmap_offset = self.get_glyph_bitmap_offset(glyph_index)?;
        let metrics = self.get_metrics(glyph_index)?;
        let w = metrics.right_side_bearing as i32 - metrics.left_side_bearing as i32;
        let h = metrics.character_ascent as i32 + metrics.character_descent as i32;
        if w < 0 || h < 0 {
            return Err(Error::CorruptedData);
        }
        let width = w as usize;
        let unit: usize = match self.glyph_row_padding_format {
            GlyphPaddingFormat::Byte => 1,
            GlyphPaddingFormat::Short => 2,
            GlyphPaddingFormat::Int => 4,
        };
        Ok(
            GlyphPlacement {
                start: self.bitmap_data_location + bitmap_offset as u64,
                width,
                height: h as usize,
                source_row_bytes: bytes_per_row(width, unit),
                row_bytes: bytes_per_row(width, 1),
                metrics,
            },
        )
    }

    /// Copies the rows of a located glyph into `buf`, dropping the padding
    /// beyond whole bytes.
    fn copy_rows(&self, p: GlyphPlacement, buf: &mut [u8])
        requires
            placement_bounded(p),
            rows_readable(self@.data, p),
            placement_len(p) <= old(buf)@.len(),
        ensures
            final(buf)@.len() == old(buf)@.len(),
            holds_rows(final(buf)@, self@.data, p),
            forall|k: int|
                placement_len(p) <= k < old(buf)@.len() ==> final(buf)@[k] == old(buf)@[k],
    {
        let d = self.data.as_slice();
        let len = d.len();
        let ghost d0 = d@;
        let ghost h = p.height as int;
        let ghost rb = p.row_bytes as int;
        let ghost src = p.source_row_bytes as int;
        let mut r: usize = 0;
        while r < p.height
            invariant
                d@ == self@.data,
                d0 == d@,
                d@.len() == len,
                0 <= r <= h,
                h == p.height,
                rb == p.row_bytes,
                src == p.source_row_bytes,
                placement_bounded(p),
                rows_readable(d0, p),
                placement_len(p) <= old(buf)@.len(),
                buf@.len() == old(buf)@.len(),
                forall|rr: int, jj: int|
                    0 <= rr < r && 0 <= jj < rb ==> #[trigger] row_byte(buf@, rb, rr, jj)
                        == stored_byte(self@.data, p, rr, jj),
                forall|k: int| r * rb <= k < buf@.len() ==> buf@[k] == old(buf)@[k],
            decreases h - r,
        {
            assert(r * rb + rb <= h * rb) by (nonlinear_arith)
                requires
                    r < h,
                    rb >= 0,
            ;
            assert(r * src <= 0x10000 * 0x4000) by (nonlinear_arith)
                requires
                    r <= 0x10000,
                    src <= 0x4000,
            ;
            assert(h * rb <= 0x10000 * 0x4000) by (nonlinear_arith)
                requires
                    0 <= h <= 0x10000,
                    0 <= rb,
                    rb <= 0x4000,
            ;
            let row_start = r * p.row_bytes;
            let source_start = p.start + (r * p.source_row_bytes) as u64;
            let mut j: usize = 0;
            while j < p.row_bytes
                invariant
                    d@ == self@.data,
                    d0 == d@,
                    d@.len() == len,
                    0 <= r < h,
                    0 <= j <= rb,
                    h == p.height,
                    rb == p.row_bytes,
                    src == p.source_row_bytes,
                    row_start == r * rb,
                    source_start == p.start + r * src,
                    r * rb + rb <= h * rb,
                    h * rb <= 0x10000 * 0x4000,
                    placement_bounded(p),
                    rows_readable(d0, p),
                    placement_len(p) <= old(buf)@.len(),
                    buf@.len() == old(buf)@.len(),
                    forall|rr: int, jj: int|
                        0 <= rr < r && 0 <= jj < rb ==> #[trigger] row_byte(buf@, rb, rr, jj)
                            == stored_byte(self@.data, p, rr, jj),
                    forall|jj: int|
                        0 <= jj < j ==> #[trigger] row_byte(buf@, rb, r as int, jj)
                            == stored_byte(self@.data, p, r as int, jj),
                    forall|k: int| r * rb + j <= k < buf@.len() ==> buf@[k] == old(buf)@[k],
                decreases rb - j,
            {
                proof {
                    lemma_stored_in_range(r as int, j as int, h, src, rb);
                    assert(p.start + (h - 1) * src + rb <= len);
                }
                let byte = d[(source_start + j as u64) as usize];
                let ghost prev = buf@;
                buf[row_start + j] = byte;
                proof {
                    assert forall|rr: int, jj: int|
                        0 <= rr < r && 0 <= jj < rb implies #[trigger] row_byte(
                            buf@,
                            rb,
                            rr,
                            jj,
                        ) == stored_byte(self@.data, p, rr, jj) by {
                        lemma_row_start(rr, jj, r as int, rb);
                        assert(row_byte(prev, rb, rr, jj) == stored_byte(self@.data, p, rr, jj));
                    }
                    assert(byte == stored_byte(self@.data, p, r as int, j as int));
                    assert forall|jj: int| 0 <= jj < j + 1 implies #[trigger] row_byte(
                        buf@,
                        rb,
                        r as int,
                        jj,
                    ) == stored_byte(self@.data, p, r as int, jj) by {
                        if jj < j {
                            assert(row_byte(prev, rb, r as int, jj) == stored_byte(
                                self@.data,
                                p,
                                r as int,
                                jj,
                            ));
                        }
                    }
                }
                j = j + 1;
            }
            r = r + 1;
            assert((r - 1) * rb + rb == r * rb) by (nonlinear_arith);
        }
    }

    /// Reads the bitmap of the glyph of `code_point` into `buf`, rows padded
    /// to bytes, and returns `(length, width)`: the number of bytes written and
    /// the glyph's width in pixels. A glyph may be empty and still take space
    /// when drawn. Nothing is written where an error is returned.
    pub fn read_glyph_raw(&self, code_point: u16, buf: &mut [u8]) -> (r: Result<(usize, usize), Error>)
        ensures
            final(buf)@.len() == old(buf)@.len(),
            match placement_spec(self@, code_point) {
                Err(e) => r == Err::<(usize, usize), Error>(e) && final(buf)@ == old(buf)@,
                Ok(p) => if placement_len(p) > old(buf)@.len() {
                    r == Err::<(usize, usize), Error>(Error::Other) && final(buf)@ == old(buf)@
                } else if !rows_readable(self@.data, p) {
                    r == Err::<(usize, usize), Error>(Error::Io) && final(buf)@ == old(buf)@
                } else {
                    &&& r == Ok::<(usize, usize), Error>(
                        (placement_len(p) as usize, p.width),
                    )
                    &&& holds_rows(final(buf)@, self@.data, p)
                    &&& forall|k: int|
                        placement_len(p) <= k < old(buf)@.len() ==> final(buf)@[k] == old(
                            buf,
                        )@[k]
                },
            },
    {
        let p = self.locate_glyph(code_point)?;
        assert(p.height * p.row_bytes <= 0x10000 * 0x4000) by (nonlinear_arith)
            requires
                p.height <= 0x10000,
                p.row_bytes <= 0x4000,
        ;
        assert(p.height * p.source_row_bytes <= 0x10000 * 0x4000) by (nonlinear_arith)
            requires
                p.height <= 0x10000,
                p.source_row_bytes <= 0x4000,
        ;
        let length = p.height * p.row_bytes;
        if length > buf.len() {
            return Err(Error::Other);
        }
        if p.height > 0 && p.row_bytes > 0 {
            assert((p.height - 1) * p.source_row_bytes <= p.height * p.source_row_bytes)
                by (nonlinear_arith)
                requires
                    p.height >= 1,
                    p.source_row_bytes >= 0,
            ;
            let last = p.start + ((p.height - 1) * p.source_row_bytes) as u64;
            check_readable(self.data.as_slice(), last, p.row_bytes as u64)?;
        }
        self.copy_rows(p, buf);
        Ok((length, p.width))
    }

    /// Locates the glyph of `code_point` and checks that its rows can be read.
    pub fn fetch_placement(&self, code_point: u16) -> (r: Result<GlyphPlacement, Error>)
        ensures
            r == fetch_spec(self@, code_point),
            r matches Ok(p) ==> placement_bounded(p),
    {
        let p = self.locate_glyph(code_point)?;
        if p.height > 0 && p.row_bytes > 0 {
            assert((p.height - 1) * p.source_row_bytes <= 0x10000 * 0x4000) by (nonlinear_arith)
                requires
                    1 <= p.height <= 0x10000,
                    p.source_row_bytes <= 0x4000,
            ;
            let last = p.start + ((p.height - 1) * p.source_row_bytes) as u64;
            check_readable(self.data.as_slice(), last, p.row_bytes as u64)?;
        }
        Ok(p)
    }

    /// The glyph of `code_point` and its bitmap, rows padded to bytes.
    pub fn read_glyph(&self, code_point: u16) -> (r: Result<(GlyphPlacement, Vec<u8>), Error>)
        ensures
            match fetch_spec(self@, code_point) {
                Ok(p) => r matches Ok((q, v)) && q == p && v@ == glyph_data(self@.data, p),
                Err(e) => r matches Err(e2) && e2 == e,
            },
    {
        let p = self.fetch_placement(code_point)?;
        assert(p.height * p.row_bytes <= 0x10000 * 0x4000) by (nonlinear_arith)
            requires
                p.height <= 0x10000,
                p.row_bytes <= 0x4000,
        ;
        let mut v: Vec<u8> = vec![0u8; p.height * p.row_bytes];
        self.copy_rows(p, v.as_mut_slice());
        proof {
            lemma_holds_rows_is_glyph_data(v@, self@.data, p);
        }
        Ok((p, v))
    }
}


/// A code point outside the stored two-byte range has no glyph.
pub proof fn lemma_outside_range_not_found(f: FontModel, code_point: u16)
    requires
        !(f.min_byte1 <= code_point / 256 <= f.max_byte1 && f.min_char_or_byte2 <= code_point % 256
            <= f.max_char_or_byte2),
    ensures
        glyph_index_spec(f, code_point) == Err::<u16, Error>(Error::NotFound),
        placement_spec(f, code_point) == Err::<GlyphPlacement, Error>(Error::NotFound),
        glyph_metrics_spec(f, code_point) == Err::<MetricsEntry, Error>(Error::NotFound),
{
}

/// A code point whose slot in the encoding table holds 0xFFFF has no glyph.
pub proof fn lemma_empty_slot_not_found(f: FontModel, code_point: u16)
    requires
        f.min_byte1 <= code_point / 256 <= f.max_byte1,
        f.min_char_or_byte2 <= code_point % 256 <= f.max_char_or_byte2,
        ({
            let index = (code_point / 256 - f.min_byte1) * (f.max_char_or_byte2
                - f.min_char_or_byte2 + 1) + (code_point % 256 - f.min_char_or_byte2);
            let off = f.encoded_glyph_indices_location + 2 * index;
            readable(f.data, off, 2) && be_u16_at(f.data, off) == 0xFFFF
        }),
    ensures
        glyph_index_spec(f, code_point) == Err::<u16, Error>(Error::NotFound),
        placement_spec(f, code_point) == Err::<GlyphPlacement, Error>(Error::NotFound),
        glyph_metrics_spec(f, code_point) == Err::<MetricsEntry, Error>(Error::NotFound),
{
}

/// A container that does not start with the signature is refused as
/// `Error::UnsupportedFormat`.
pub proof fn lemma_bad_magic(d: Seq<u8>)
    requires
        d.len() >= 4,
        !has_magic(d),
    ensures
        load_spec(d) == Err::<FontModel, Error>(Error::UnsupportedFormat),
{
}

/// A container whose metrics count differs from its glyph count is refused as
/// `Error::CorruptedData`, once its tables are found, handled and readable.
pub proof fn lemma_count_mismatch(d: Seq<u8>, b: int, m: int, e: int, a: int)
    requires
        toc_format(d, b) & PCF_SCAN_UNIT_MASK == 0,
        toc_format(d, b) & PCF_GLYPH_PAD_MASK != PCF_GLYPH_PAD_MASK,
        readable(d, toc_offset(d, b) + 4, 4),
        readable(d, toc_offset(d, b) + 8 + 4 * bitmap_glyph_count(d, b), 12),
        readable(d, toc_offset(d, m) as int, 8),
        metrics_count(d, m) != bitmap_glyph_count(d, b),
    ensures
        load_tables(d, b, m, e, a) == Err::<FontModel, Error>(Error::CorruptedData),
{
}

/// A loaded font's bounding box is made from the accelerator bounds: width is
/// the largest right bearing less the smallest left bearing, height the
/// largest ascent plus the largest descent.
pub proof fn lemma_loaded_bounding_box(d: Seq<u8>)
    requires
        load_spec(d) is Ok,
    ensures
        ({
            let n = table_count(d) as int;
            let a = accel_table(d, n)->0;
            let bl = accel_bounds_location(d, a);
            let minb = spec_metrics_standard(d.subrange(bl, bl + 12));
            let maxb = spec_metrics_standard(d.subrange(bl + 12, bl + 24));
            let bbox = load_spec(d)->Ok_0.bounding_box;
            &&& bbox.0 == maxb.right_side_bearing - minb.left_side_bearing
            &&& bbox.1 == maxb.character_ascent + maxb.character_descent
            &&& bbox.2 == minb.left_side_bearing
            &&& bbox.3 == -maxb.character_descent
        }),
{
}

} // verus!

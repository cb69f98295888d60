//! Fixed-width integers read from raw bytes, in both byte orders.
//!
//! Table headers of the font container are little-endian while the table
//! payloads are big-endian, so both orders are needed.
use vstd::prelude::*;

verus! {

/// The value of two bytes read least significant first.
pub open spec fn spec_u16_le(b: Seq<u8>) -> u16 {
    (b[0] as u16) | ((b[1] as u16) << 8u16)
}

/// The value of two bytes read most significant first.
pub open spec fn spec_u16_be(b: Seq<u8>) -> u16 {
    (b[1] as u16) | ((b[0] as u16) << 8u16)
}

/// The value of four bytes read least significant first.
pub open spec fn spec_u32_le(b: Seq<u8>) -> u32 {
    (b[0] as u32) | ((b[1] as u32) << 8u32) | ((b[2] as u32) << 16u32) | ((b[3] as u32) << 24u32)
}

/// The value of four bytes read most significant first.
pub open spec fn spec_u32_be(b: Seq<u8>) -> u32 {
    (b[3] as u32) | ((b[2] as u32) << 8u32) | ((b[1] as u32) << 16u32) | ((b[0] as u32) << 24u32)
}

/// Two's complement reading of `spec_u16_le`.
pub open spec fn spec_i16_le(b: Seq<u8>) -> i16 {
    spec_u16_le(b) as i16
}

/// Two's complement reading of `spec_u16_be`.
pub open spec fn spec_i16_be(b: Seq<u8>) -> i16 {
    spec_u16_be(b) as i16
}

/// Two's complement reading of `spec_u32_le`.
pub open spec fn spec_i32_le(b: Seq<u8>) -> i32 {
    spec_u32_le(b) as i32
}

/// Two's complement reading of `spec_u32_be`.
pub open spec fn spec_i32_be(b: Seq<u8>) -> i32 {
    spec_u32_be(b) as i32
}

/// The two bytes of `v`, least significant first.
pub open spec fn u16_le_bytes(v: u16) -> Seq<u8> {
    seq![(v & 0xff) as u8, (v >> 8u16) as u8]
}

/// The two bytes of `v`, most significant first.
pub open spec fn u16_be_bytes(v: u16) -> Seq<u8> {
    seq![(v >> 8u16) as u8, (v & 0xff) as u8]
}

/// The four bytes of `v`, least significant first.
pub open spec fn u32_le_bytes(v: u32) -> Seq<u8> {
    seq![
        (v & 0xff) as u8,
        ((v >> 8u32) & 0xff) as u8,
        ((v >> 16u32) & 0xff) as u8,
        (v >> 24u32) as u8,
    ]
}

/// The four bytes of `v`, most significant first.
pub open spec fn u32_be_bytes(v: u32) -> Seq<u8> {
    seq![
        (v >> 24u32) as u8,
        ((v >> 16u32) & 0xff) as u8,
        ((v >> 8u32) & 0xff) as u8,
        (v & 0xff) as u8,
    ]
}

/// Reads a `u32` from the first four bytes of `buf`, least significant first.
pub fn u32_from_le_bytes_ref(buf: &[u8]) -> (r: u32)
    requires
        buf@.len() >= 4,
    ensures
        r == spec_u32_le(buf@),
{
    (buf[0] as u32) | ((buf[1] as u32) << 8u32) | ((buf[2] as u32) << 16u32) | ((buf[3] as u32)
        << 24u32)
}

/// Reads an `i32` from the first four bytes of `buf`, least significant first.
pub fn i32_from_le_bytes_ref(buf: &[u8]) -> (r: i32)
    requires
        buf@.len() >= 4,
    ensures
        r == spec_i32_le(buf@),
{
    u32_from_le_bytes_ref(buf) as i32
}

/// Reads a `u32` from the first four bytes of `buf`, most significant first.
pub fn u32_from_be_bytes_ref(buf: &[u8]) -> (r: u32)
    requires
        buf@.len() >= 4,
    ensures
        r == spec_u32_be(buf@),
{
    (buf[3] as u32) | ((buf[2] as u32) << 8u32) | ((buf[1] as u32) << 16u32) | ((buf[0] as u32)
        << 24u32)
}

/// Reads an `i32` from the first four bytes of `buf`, most significant first.
pub fn i32_from_be_bytes_ref(buf: &[u8]) -> (r: i32)
    requires
        buf@.len() >= 4,
    ensures
        r == spec_i32_be(buf@),
{
    u32_from_be_bytes_ref(buf) as i32
}

/// Reads a `u16` from the first two bytes of `buf`, least significant first.
pub fn u16_from_le_bytes_ref(buf: &[u8]) -> (r: u16)
    requires
        buf@.len() >= 2,
    ensures
        r == spec_u16_le(buf@),
{
    (buf[0] as u16) | ((buf[1] as u16) << 8u16)
}

/// Reads an `i16` from the first two bytes of `buf`, least significant first.
pub fn i16_from_le_bytes_ref(buf: &[u8]) -> (r: i16)
    requires
        buf@.len() >= 2,
    ensures
        r == spec_i16_le(buf@),
{
    ((buf[0] as u16) | ((buf[1] as u16) << 8u16)) as i16
}

/// Reads a `u16` from the first two bytes of `buf`, most significant first.
pub fn u16_from_be_bytes_ref(buf: &[u8]) -> (r: u16)
    requires
        buf@.len() >= 2,
    ensures
        r == spec_u16_be(buf@),
{
    (buf[1] as u16) | ((buf[0] as u16) << 8u16)
}

/// Reads an `i16` from the first two bytes of `buf`, most significant first.
pub fn i16_from_be_bytes_ref(buf: &[u8]) -> (r: i16)
    requires
        buf@.len() >= 2,
    ensures
        r == spec_i16_be(buf@),
{
    ((buf[1] as u16) | ((buf[0] as u16) << 8u16)) as i16
}

/// Decoding the little- or big-endian bytes of a 16-bit value gives the value back.
pub proof fn lemma_u16_round_trip(v: u16)
    ensures
        spec_u16_le(u16_le_bytes(v)) == v,
        spec_u16_be(u16_be_bytes(v)) == v,
{
    let lo = (v & 0xff) as u8;
    let hi = (v >> 8u16) as u8;
    assert((lo as u16) | ((hi as u16) << 8u16) == v) by (bit_vector)
        requires
            lo == (v & 0xff) as u8,
            hi == (v >> 8u16) as u8,
    ;
}

/// Decoding the little- or big-endian bytes of a signed 16-bit value gives the value back.
pub proof fn lemma_i16_round_trip(v: i16)
    ensures
        spec_i16_le(u16_le_bytes(v as u16)) == v,
        spec_i16_be(u16_be_bytes(v as u16)) == v,
{
    lemma_u16_round_trip(v as u16);
    assert((v as u16) as i16 == v) by (bit_vector);
}

/// Decoding the little- or big-endian bytes of a 32-bit value gives the value back.
pub proof fn lemma_u32_round_trip(v: u32)
    ensures
        spec_u32_le(u32_le_bytes(v)) == v,
        spec_u32_be(u32_be_bytes(v)) == v,
{
    let b0 = (v & 0xff) as u8;
    let b1 = ((v >> 8u32) & 0xff) as u8;
    let b2 = ((v >> 16u32) & 0xff) as u8;
    let b3 = (v >> 24u32) as u8;
    assert((b0 as u32) | ((b1 as u32) << 8u32) | ((b2 as u32) << 16u32) | ((b3 as u32) << 24u32)
        == v) by (bit_vector)
        requires
            b0 == (v & 0xff) as u8,
            b1 == ((v >> 8u32) & 0xff) as u8,
            b2 == ((v >> 16u32) & 0xff) as u8,
            b3 == (v >> 24u32) as u8,
    ;
}

/// Decoding the little- or big-endian bytes of a signed 32-bit value gives the value back.
pub proof fn lemma_i32_round_trip(v: i32)
    ensures
        spec_i32_le(u32_le_bytes(v as u32)) == v,
        spec_i32_be(u32_be_bytes(v as u32)) == v,
{
    lemma_u32_round_trip(v as u32);
    assert((v as u32) as i32 == v) by (bit_vector);
}

} // verus!

use pcf_font::{
    bytes_per_row, i16_from_be_bytes_ref, i16_from_le_bytes_ref, i32_from_be_bytes_ref,
    i32_from_le_bytes_ref, u16_from_be_bytes_ref, u16_from_le_bytes_ref, u32_from_be_bytes_ref,
    u32_from_le_bytes_ref, MetricsEntry,
};

#[test]
fn test_converters_le() {
    let bytes: [u8; 4] = [0x0C, 0x4E, 0x02, 0x00];
    let value1 = u32_from_le_bytes_ref(&bytes);
    let value2 = u32::from_le_bytes(bytes);
    assert_eq!(value1, value2);
}

#[test]
fn test_converters_be() {
    let bytes: [u8; 4] = [0x00, 0x12, 0x75, 0x27];
    let value1 = u32_from_be_bytes_ref(&bytes);
    let value2 = u32::from_be_bytes(bytes);
    assert_eq!(value1, value2);
}

#[test]
fn round_trip_32_bit_values() {
    for v in [0u32, 1, 0x7f, 0x80, 0xff, 0x100, 0x1234_5678, 0x8000_0000, 0xdead_beef, u32::MAX] {
        assert_eq!(u32_from_le_bytes_ref(&v.to_le_bytes()), v);
        assert_eq!(u32_from_be_bytes_ref(&v.to_be_bytes()), v);
    }
    for v in [0i32, 1, -1, i32::MIN, i32::MAX, -123_456, 987_654] {
        assert_eq!(i32_from_le_bytes_ref(&v.to_le_bytes()), v);
        assert_eq!(i32_from_be_bytes_ref(&v.to_be_bytes()), v);
    }
}

#[test]
fn round_trip_16_bit_values() {
    for v in [0u16, 1, 0x7f, 0x80, 0xff, 0x100, 0x1234, 0x8000, u16::MAX] {
        assert_eq!(u16_from_le_bytes_ref(&v.to_le_bytes()), v);
        assert_eq!(u16_from_be_bytes_ref(&v.to_be_bytes()), v);
    }
    for v in [0i16, 1, -1, i16::MIN, i16::MAX, -1234, 4321] {
        assert_eq!(i16_from_le_bytes_ref(&v.to_le_bytes()), v);
        assert_eq!(i16_from_be_bytes_ref(&v.to_be_bytes()), v);
    }
}

#[test]
fn converters_read_only_the_leading_bytes() {
    let bytes: [u8; 6] = [0x12, 0x34, 0x56, 0x78, 0x9a, 0xbc];
    assert_eq!(u16_from_be_bytes_ref(&bytes), 0x1234);
    assert_eq!(u16_from_le_bytes_ref(&bytes), 0x3412);
    assert_eq!(u32_from_be_bytes_ref(&bytes), 0x1234_5678);
    assert_eq!(u32_from_le_bytes_ref(&bytes), 0x7856_3412);
    assert_eq!(i16_from_be_bytes_ref(&[0xff, 0xfe]), -2);
    assert_eq!(i32_from_le_bytes_ref(&[0xfe, 0xff, 0xff, 0xff]), -2);
}

#[test]
fn row_bytes_round_up_to_the_padding_unit() {
    assert_eq!(bytes_per_row(9, 1), 2);
    assert_eq!(bytes_per_row(8, 4), 4);
    assert_eq!(bytes_per_row(0, 1), 0);
    assert_eq!(bytes_per_row(0, 2), 0);
    assert_eq!(bytes_per_row(0, 4), 0);
    assert_eq!(bytes_per_row(8, 1), 1);
    assert_eq!(bytes_per_row(17, 2), 4);
    assert_eq!(bytes_per_row(33, 4), 8);
    assert_eq!(bytes_per_row(1, 2), 2);
}

#[test]
fn compressed_metrics_remove_the_bias() {
    let m = MetricsEntry::new_from_compressed(&[0x81, 0x82, 0x83, 0x84, 0x85]);
    assert_eq!(m.left_side_bearing, 1);
    assert_eq!(m.right_side_bearing, 2);
    assert_eq!(m.character_width, 3);
    assert_eq!(m.character_ascent, 4);
    assert_eq!(m.character_descent, 5);
    assert_eq!(m.character_attributes, 0);
    let n = MetricsEntry::new_from_compressed(&[0x00, 0x80, 0xff, 0x7f, 0x80]);
    assert_eq!(n.left_side_bearing, -128);
    assert_eq!(n.right_side_bearing, 0);
    assert_eq!(n.character_width, 127);
    assert_eq!(n.character_ascent, -1);
}

#[test]
fn standard_metrics_are_big_endian() {
    let data: [u8; 12] = [0xff, 0xfe, 0x00, 0x07, 0x00, 0x08, 0x00, 0x0a, 0x00, 0x02, 0x12, 0x34];
    let m = MetricsEntry::new_from_standard(&data);
    assert_eq!(m.left_side_bearing, -2);
    assert_eq!(m.right_side_bearing, 7);
    assert_eq!(m.character_width, 8);
    assert_eq!(m.character_ascent, 10);
    assert_eq!(m.character_descent, 2);
    assert_eq!(m.character_attributes, 0x1234);
}

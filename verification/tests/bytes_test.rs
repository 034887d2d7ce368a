use pinocchio_sample::bytes::{read_u32_le, read_u64_le, u32_to_le, u64_to_le};

#[test]
fn u32_to_le_puts_the_lowest_byte_first() {
    assert_eq!(u32_to_le(0), [0, 0, 0, 0]);
    assert_eq!(u32_to_le(1), [1, 0, 0, 0]);
    assert_eq!(u32_to_le(0x1234_5678), [0x78, 0x56, 0x34, 0x12]);
    assert_eq!(u32_to_le(u32::MAX), [255, 255, 255, 255]);
    assert_eq!(u32_to_le(0xdead_beef), 0xdead_beefu32.to_le_bytes());
}

#[test]
fn u64_to_le_puts_the_lowest_byte_first() {
    assert_eq!(u64_to_le(0), [0; 8]);
    assert_eq!(u64_to_le(256), [0, 1, 0, 0, 0, 0, 0, 0]);
    assert_eq!(
        u64_to_le(0x0102_0304_0506_0708),
        [0x08, 0x07, 0x06, 0x05, 0x04, 0x03, 0x02, 0x01]
    );
    assert_eq!(u64_to_le(u64::MAX), [255; 8]);
    assert_eq!(u64_to_le(0xfeed_face_cafe_f00d), 0xfeed_face_cafe_f00du64.to_le_bytes());
}

#[test]
fn read_u32_le_reads_at_a_place() {
    let input = [9u8, 0x78, 0x56, 0x34, 0x12, 9];
    assert_eq!(read_u32_le(&input, 1), Some(0x1234_5678));
    assert_eq!(read_u32_le(&input, 0), Some(0x3456_7809));
    assert_eq!(read_u32_le(&input, 2), Some(0x0912_3456));
    assert_eq!(read_u32_le(&[255, 255, 255, 255], 0), Some(u32::MAX));
}

#[test]
fn read_u32_le_needs_four_bytes() {
    let input = [1u8, 2, 3, 4, 5];
    assert_eq!(read_u32_le(&input, 2), None);
    assert_eq!(read_u32_le(&input, 5), None);
    assert_eq!(read_u32_le(&input, usize::MAX), None);
    assert_eq!(read_u32_le(&[1, 2, 3], 0), None);
    assert_eq!(read_u32_le(&[], 0), None);
}

#[test]
fn read_u64_le_reads_at_a_place() {
    let input = [7u8, 0x08, 0x07, 0x06, 0x05, 0x04, 0x03, 0x02, 0x01];
    assert_eq!(read_u64_le(&input, 1), Some(0x0102_0304_0506_0708));
    assert_eq!(read_u64_le(&input, 0), Some(0x0203_0405_0607_0807));
    assert_eq!(read_u64_le(&[255; 8], 0), Some(u64::MAX));
}

#[test]
fn read_u64_le_needs_eight_bytes() {
    let input = [0u8; 9];
    assert_eq!(read_u64_le(&input, 2), None);
    assert_eq!(read_u64_le(&input, usize::MAX - 3), None);
    assert_eq!(read_u64_le(&[0; 7], 0), None);
}

#[test]
fn values_are_read_back_from_their_bytes() {
    for value in [0u64, 1, 255, 256, 65_535, 65_536, 1 << 32, (1 << 56) + 12_345, u64::MAX] {
        assert_eq!(read_u64_le(&u64_to_le(value), 0), Some(value));
    }
    for value in [0u32, 1, 255, 256, 65_535, 65_536, 1 << 24, u32::MAX] {
        assert_eq!(read_u32_le(&u32_to_le(value), 0), Some(value));
    }
}

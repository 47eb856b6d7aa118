use raw_processor::tiff::{
    offset_of, read_i32, read_short_or_long, read_u16, read_u32, read_u64, type_size,
};

#[test]
fn read_u16_both_byte_orders() {
    let data = [0x34u8, 0x12, 0xff];
    assert_eq!(read_u16(&data, 0, true), 0x1234);
    assert_eq!(read_u16(&data, 0, false), 0x3412);
    assert_eq!(read_u16(&data, 1, true), 0xff12);
}

#[test]
fn read_u16_past_end_is_zero() {
    let data = [0x34u8, 0x12, 0xff];
    assert_eq!(read_u16(&data, 2, true), 0);
    assert_eq!(read_u16(&data, 3, false), 0);
    assert_eq!(read_u16(&data, usize::MAX, true), 0);
}

#[test]
fn read_u32_both_byte_orders() {
    let data = [0x78u8, 0x56, 0x34, 0x12];
    assert_eq!(read_u32(&data, 0, true), 0x1234_5678);
    assert_eq!(read_u32(&data, 0, false), 0x7856_3412);
    assert_eq!(read_u32(&data, 1, true), 0);
}

#[test]
fn read_i32_is_twos_complement() {
    let data = [0xffu8, 0xff, 0xff, 0xff, 0x00, 0x00, 0x00, 0x80];
    assert_eq!(read_i32(&data, 0, true), -1);
    assert_eq!(read_i32(&data, 4, true), i32::MIN);
    assert_eq!(read_i32(&data, 4, false), 128);
    assert_eq!(read_i32(&data, 5, true), 0);
}

#[test]
fn read_u64_both_byte_orders() {
    let data = [1u8, 2, 3, 4, 5, 6, 7, 8];
    assert_eq!(read_u64(&data, 0, true), 0x0807_0605_0403_0201);
    assert_eq!(read_u64(&data, 0, false), 0x0102_0304_0506_0708);
    assert_eq!(read_u64(&data, 1, false), 0);
}

#[test]
fn short_or_long_depends_on_type() {
    let data = [0x01u8, 0x02, 0x03, 0x04];
    assert_eq!(read_short_or_long(&data, 0, 3, true), 0x0201);
    assert_eq!(read_short_or_long(&data, 0, 4, true), 0x0403_0201);
    assert_eq!(read_short_or_long(&data, 0, 11, true), 0x0403_0201);
}

#[test]
fn type_sizes() {
    for t in [1u16, 2, 6, 7] {
        assert_eq!(type_size(t), 1);
    }
    for t in [3u16, 8] {
        assert_eq!(type_size(t), 2);
    }
    for t in [4u16, 9, 11] {
        assert_eq!(type_size(t), 4);
    }
    for t in [5u16, 10, 12] {
        assert_eq!(type_size(t), 8);
    }
    assert_eq!(type_size(0), 1);
    assert_eq!(type_size(99), 1);
}

#[test]
fn offsets_saturate() {
    assert_eq!(offset_of(10, 3, 4), 22);
    assert_eq!(offset_of(usize::MAX - 1, 1, 4), usize::MAX);
    assert_eq!(offset_of(0, usize::MAX, 2), usize::MAX);
}

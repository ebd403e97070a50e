use aira_tiff::byteorder::{BigEndian, ByteOrder, LittleEndian};

#[test]
fn read_and_write_in_both_orders() {
    let bytes = [0x12u8, 0x34, 0x56, 0x78, 0x9a, 0xbc, 0xde, 0xf0];
    assert_eq!(BigEndian::read_u16(&bytes), 0x1234);
    assert_eq!(LittleEndian::read_u16(&bytes), 0x3412);
    assert_eq!(BigEndian::read_u32(&bytes), 0x1234_5678);
    assert_eq!(LittleEndian::read_u32(&bytes), 0x7856_3412);
    assert_eq!(BigEndian::read_u64(&bytes), 0x1234_5678_9abc_def0);
    assert_eq!(LittleEndian::read_u64(&bytes), 0xf0de_bc9a_7856_3412);
    assert_eq!(BigEndian::read_i16(&[0xff, 0xfe]), -2);
    assert_eq!(LittleEndian::read_i32(&[0xfe, 0xff, 0xff, 0xff]), -2);

    let mut buf = [0u8; 10];
    BigEndian::write_u32(0x0102_0304, &mut buf);
    assert_eq!(buf[..4], [1, 2, 3, 4]);
    LittleEndian::write_u32(0x0102_0304, &mut buf);
    assert_eq!(buf[..4], [4, 3, 2, 1]);
    LittleEndian::write_i16(-2, &mut buf);
    assert_eq!(buf[..2], [0xfe, 0xff]);
}

#[test]
fn read_after_write_round_trips() {
    let mut buf = [0u8; 16];
    for v in [0u64, 1, 0x1234_5678_9abc_def0, u64::MAX] {
        BigEndian::write_u64(v, &mut buf);
        assert_eq!(BigEndian::read_u64(&buf), v);
        LittleEndian::write_u64(v, &mut buf);
        assert_eq!(LittleEndian::read_u64(&buf), v);
    }
    let v = 0x0102_0304_0506_0708_090a_0b0c_0d0e_0f10u128;
    BigEndian::write_u128(v, &mut buf);
    assert_eq!(buf[0], 1);
    assert_eq!(BigEndian::read_u128(&buf), v);
    LittleEndian::write_i64(-5, &mut buf);
    assert_eq!(LittleEndian::read_i64(&buf), -5);
}

#[test]
fn decode_after_encode_round_trips() {
    for v in [0u32, 1, 0xdead_beef, u32::MAX] {
        assert_eq!(BigEndian::decode_u32(BigEndian::encode_u32(v)), v);
        assert_eq!(LittleEndian::decode_u32(LittleEndian::encode_u32(v)), v);
    }
    assert_eq!(BigEndian::decode_i16(BigEndian::encode_i16(-300)), -300);
    assert_eq!(LittleEndian::decode_u128(LittleEndian::encode_u128(7)), 7);
}

#[test]
fn decode_matches_native_layout() {
    let v = 0x1122_3344u32;
    assert_eq!(BigEndian::decode_u32(u32::from_ne_bytes(v.to_be_bytes())), v);
    assert_eq!(LittleEndian::decode_u32(u32::from_ne_bytes(v.to_le_bytes())), v);
    assert_eq!(BigEndian::encode_u16(0x0102).to_ne_bytes(), [1, 2]);
    assert_eq!(LittleEndian::encode_u16(0x0102).to_ne_bytes(), [2, 1]);
}

#[test]
fn slices_act_element_wise() {
    let src = [0u8, 1, 0, 2, 0, 3];
    let mut dst = [0u16; 3];
    BigEndian::read_slice_u16(&src, &mut dst);
    assert_eq!(dst, [1, 2, 3]);
    LittleEndian::read_slice_u16(&src, &mut dst);
    assert_eq!(dst, [0x100, 0x200, 0x300]);

    let mut out = [0u8; 6];
    BigEndian::write_slice_u16(&[1, 2, 3], &mut out);
    assert_eq!(out, src);

    let mut values = [1u32, 0xabcd, u32::MAX];
    let original = values;
    BigEndian::encode_slice_u32(&mut values);
    BigEndian::decode_slice_u32(&mut values);
    assert_eq!(values, original);
    LittleEndian::encode_slice_u64(&mut [5u64, 6]);
}

#[test]
fn signed_slices_act_element_wise() {
    let src = [0xffu8, 0xfe, 0x00, 0x05];
    let mut dst = [0i16; 2];
    BigEndian::read_slice_i16(&src, &mut dst);
    assert_eq!(dst, [-2, 5]);
    let mut out = [0u8; 4];
    LittleEndian::write_slice_i16(&[-2, 5], &mut out);
    assert_eq!(out, [0xfe, 0xff, 0x05, 0x00]);
    let mut values = [-1i64, 3, i64::MIN];
    let original = values;
    LittleEndian::encode_slice_i64(&mut values);
    LittleEndian::decode_slice_i64(&mut values);
    assert_eq!(values, original);
}

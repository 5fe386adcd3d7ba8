use from_bytes::{decode_member, DecodeError, PackedSize, StructFromBytes, MAX_MEMBER_SIZE};

#[test]
fn primitive_packed_sizes() {
    assert_eq!(u8::packed_size(), 1);
    assert_eq!(u16::packed_size(), 2);
    assert_eq!(u32::packed_size(), 4);
    assert_eq!(u64::packed_size(), 8);
    assert_eq!(u128::packed_size(), 16);
    assert_eq!(i8::packed_size(), 1);
    assert_eq!(i16::packed_size(), 2);
    assert_eq!(i32::packed_size(), 4);
    assert_eq!(i64::packed_size(), 8);
    assert_eq!(i128::packed_size(), 16);
}

#[test]
fn array_packed_sizes_multiply() {
    assert_eq!(<[u8; 1]>::packed_size(), 1);
    assert_eq!(<[u8; 16]>::packed_size(), 16);
    assert_eq!(<[u16; 3]>::packed_size(), 6);
    assert_eq!(<[u32; 10]>::packed_size(), 40);
    assert_eq!(<[u64; 12]>::packed_size(), 96);
    assert_eq!(<[i16; 14]>::packed_size(), 28);
    assert_eq!(<[i64; 16]>::packed_size(), 128);
    assert_eq!(<[u128; 16]>::packed_size(), 256);
}

#[test]
fn composite_packed_sizes_add() {
    assert_eq!(<(u8, u16)>::packed_size(), 3);
    assert_eq!(<(u8, u16, u32)>::packed_size(), 7);
    assert_eq!(<(u64, i8, [u16; 4], i32)>::packed_size(), 8 + 1 + 8 + 4);
    assert!(<(u128, u128)>::packed_size() <= 2 * MAX_MEMBER_SIZE);
}

#[test]
fn u16_little_endian_scenario() {
    let buf = [0x01u8, 0x00];
    assert_eq!(*u16::from_bytes(&buf, 0).unwrap(), 1);
    let first = *u8::from_bytes(&buf, 0).unwrap();
    let second = *u8::from_bytes(&buf, 1).unwrap();
    assert_eq!((first, second), (1, 0));
}

#[test]
fn composite_scenario() {
    assert_eq!(<(u8, u16)>::packed_size(), 3);
    let buf = [0x05u8, 0x02, 0x00];
    let (a, b) = *<(u8, u16)>::from_bytes(&buf, 0).unwrap();
    assert_eq!(a, 5);
    assert_eq!(b, 2);
}

#[test]
fn u64_from_short_buffer_is_out_of_bounds() {
    let buf = [0u8; 4];
    assert_eq!(u64::from_bytes(&buf, 0), Err(DecodeError::OutOfBounds));
}

#[test]
fn offset_past_end_is_out_of_bounds() {
    let buf = [1u8, 2, 3];
    assert_eq!(u8::from_bytes(&buf, 3), Err(DecodeError::OutOfBounds));
    assert_eq!(u16::from_bytes(&buf, 2), Err(DecodeError::OutOfBounds));
    assert_eq!(u8::from_bytes(&buf, usize::MAX), Err(DecodeError::OutOfBounds));
    assert_eq!(u32::from_bytes(&[], 0), Err(DecodeError::OutOfBounds));
    assert_eq!(*u8::from_bytes(&buf, 2).unwrap(), 3);
}

#[test]
fn window_ending_at_buffer_end_is_read() {
    let buf = [0xAAu8, 0x78, 0x56, 0x34, 0x12];
    assert_eq!(*u32::from_bytes(&buf, 1).unwrap(), 0x1234_5678);
}

#[test]
fn unsigned_values_are_little_endian() {
    let buf = [0x78u8, 0x56, 0x34, 0x12, 0xF0, 0xDE, 0xBC, 0x9A];
    assert_eq!(*u32::from_bytes(&buf, 0).unwrap(), 0x1234_5678);
    assert_eq!(*u64::from_bytes(&buf, 0).unwrap(), 0x9ABC_DEF0_1234_5678);
    assert_eq!(*u16::from_bytes(&buf, 3).unwrap(), 0xF012);
    let ones = [0xFFu8; 16];
    assert_eq!(*u128::from_bytes(&ones, 0).unwrap(), u128::MAX);
    let mut one = [0u8; 16];
    one[15] = 0x80;
    assert_eq!(*u128::from_bytes(&one, 0).unwrap(), 1u128 << 127);
}

#[test]
fn signed_values_are_twos_complement() {
    assert_eq!(*i8::from_bytes(&[0x80], 0).unwrap(), -128);
    assert_eq!(*i8::from_bytes(&[0x7F], 0).unwrap(), 127);
    assert_eq!(*i16::from_bytes(&[0xFF, 0xFF], 0).unwrap(), -1);
    assert_eq!(*i16::from_bytes(&[0x00, 0x80], 0).unwrap(), i16::MIN);
    assert_eq!(*i32::from_bytes(&[0xFE, 0xFF, 0xFF, 0xFF], 0).unwrap(), -2);
    assert_eq!(*i32::from_bytes(&[0xFF, 0xFF, 0xFF, 0x7F], 0).unwrap(), i32::MAX);
    assert_eq!(*i64::from_bytes(&[0x00, 0, 0, 0, 0, 0, 0, 0x80], 0).unwrap(), i64::MIN);
    assert_eq!(*i128::from_bytes(&[0xFF; 16], 0).unwrap(), -1);
    let mut min = [0u8; 16];
    min[15] = 0x80;
    assert_eq!(*i128::from_bytes(&min, 0).unwrap(), i128::MIN);
    let mut max = [0xFFu8; 16];
    max[15] = 0x7F;
    assert_eq!(*i128::from_bytes(&max, 0).unwrap(), i128::MAX);
}

#[test]
fn bytes_outside_the_window_do_not_matter() {
    let mut buf = [0x11u8, 0x22, 0x34, 0x12, 0x33, 0x44];
    let before = *u16::from_bytes(&buf, 2).unwrap();
    assert_eq!(before, 0x1234);
    buf[0] = 0xFF;
    buf[1] = 0xEE;
    buf[4] = 0xDD;
    buf[5] = 0xCC;
    assert_eq!(*u16::from_bytes(&buf, 2).unwrap(), before);
    let longer = [0x34u8, 0x12, 0x99, 0x98, 0x97];
    assert_eq!(*u16::from_bytes(&longer, 0).unwrap(), before);
}

#[test]
fn arrays_decode_elements_in_order() {
    let buf = [0x00u8, 0x01, 0x00, 0x02, 0x00, 0x03, 0x00];
    assert_eq!(*<[u16; 3]>::from_bytes(&buf, 1).unwrap(), [1, 2, 3]);
    let bytes: Vec<u8> = (0u8..16).collect();
    assert_eq!(*<[u8; 16]>::from_bytes(&bytes, 0).unwrap(), [0, 1, 2, 3, 4, 5, 6, 7, 8, 9, 10, 11, 12, 13, 14, 15]);
    assert_eq!(*<[u8; 1]>::from_bytes(&bytes, 15).unwrap(), [15]);
    assert_eq!(*<[i32; 2]>::from_bytes(&[0xFF, 0xFF, 0xFF, 0xFF, 0x05, 0, 0, 0], 0).unwrap(), [-1, 5]);
    assert_eq!(*<[u32; 4]>::from_bytes(&[0u8; 16], 0).unwrap(), [0; 4]);
}

#[test]
fn array_past_the_end_is_out_of_bounds() {
    let buf = [0u8; 7];
    assert_eq!(<[u16; 4]>::from_bytes(&buf, 0), Err(DecodeError::OutOfBounds));
    assert_eq!(<[u8; 6]>::from_bytes(&buf, 2), Err(DecodeError::OutOfBounds));
    assert!(<[u8; 6]>::from_bytes(&buf, 1).is_ok());
}

#[test]
fn composites_decode_members_at_running_offsets() {
    let buf = [0x01u8, 0x02, 0x03, 0x00, 0x04, 0x00, 0x00, 0x00, 0xFF];
    let (a, b, c) = *<(u8, [u8; 2], u16)>::from_bytes(&buf, 0).unwrap();
    assert_eq!((a, b, c), (1, [2, 3], 0x0400));
    let (w, x, y, z) = *<(u16, u8, i8, u32)>::from_bytes(&buf, 1).unwrap();
    assert_eq!((w, x, y, z), (0x0302, 0, 4, 0xFF00_0000));
}

#[test]
fn composite_past_the_end_is_out_of_bounds() {
    let buf = [0x05u8, 0x02];
    assert_eq!(<(u8, u16)>::from_bytes(&buf, 0), Err(DecodeError::OutOfBounds));
    assert_eq!(<(u8, u8, u8)>::from_bytes(&buf, 0), Err(DecodeError::OutOfBounds));
}

#[test]
fn decode_member_returns_the_next_offset() {
    let buf = [0x05u8, 0x02, 0x00, 0x07];
    let (a, next) = decode_member::<u8>(&buf, 0).unwrap();
    assert_eq!((a, next), (5, 1));
    let (b, next) = decode_member::<u16>(&buf, next).unwrap();
    assert_eq!((b, next), (2, 3));
    let (c, next) = decode_member::<u8>(&buf, next).unwrap();
    assert_eq!((c, next), (7, 4));
    assert_eq!(decode_member::<u8>(&buf, next), Err(DecodeError::OutOfBounds));
}

use krun_boot::bytes::{copy_into, push_zeros, u16_le, u32_le, u64_le};

#[test]
fn little_endian_fields() {
    for value in [0u64, 1, 0xFF, 0x0102_0304_0506_0708, u64::MAX] {
        assert_eq!(u64_le(value), value.to_le_bytes());
        assert_eq!(u32_le(value as u32), (value as u32).to_le_bytes());
        assert_eq!(u16_le(value as u16), (value as u16).to_le_bytes());
    }
}

#[test]
fn copying_and_padding() {
    let mut buffer = [9u8; 5];
    copy_into(&mut buffer, 1, &[1, 2]);
    assert_eq!(buffer, [9, 1, 2, 9, 9]);
    copy_into(&mut buffer, 5, &[]);
    assert_eq!(buffer, [9, 1, 2, 9, 9]);
    let mut padded = vec![7u8];
    push_zeros(&mut padded, 3);
    assert_eq!(padded, vec![7, 0, 0, 0]);
}

use espflashtool::{from_be16, from_le, from_le16, from_le24, from_le32};

#[test]
fn test_little_endian_reads() {
    assert_eq!(from_le16(&[0x34, 0x12]), 0x1234);
    assert_eq!(from_le24(&[0x56, 0x34, 0x12]), 0x123456);
    assert_eq!(from_le32(&[0x78, 0x56, 0x34, 0x12]), 0x12345678);
    assert_eq!(from_le(&[]), 0);
    assert_eq!(from_le(&[0xAB]), 0xAB);
    assert_eq!(from_le(&[0xCD, 0xAB]), 0xABCD);
    assert_eq!(from_le(&[0xEF, 0xCD, 0xAB]), 0xABCDEF);
    assert_eq!(from_le(&[0x78, 0x56, 0x34, 0x12]), 0x12345678);
}

#[test]
fn test_big_endian_read() {
    assert_eq!(from_be16(&[0x12, 0x34]), 0x1234);
}

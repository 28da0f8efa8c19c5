//! Big-endian integers.

use vintage_kvm::bytes::{u16_from_be, u16_to_be, u32_to_be, write_at};

#[test]
fn big_endian_bytes() {
    assert_eq!(u16_to_be(0x1234), (0x12, 0x34));
    assert_eq!(u16_from_be(0x12, 0x34), 0x1234);
    assert_eq!(u32_to_be(0xDEAD_BEEF), [0xDE, 0xAD, 0xBE, 0xEF]);
}

#[test]
fn write_in_the_middle() {
    let mut out = [0u8; 6];
    write_at(&mut out, 2, &[1, 2, 3]);
    assert_eq!(out, [0, 0, 1, 2, 3, 0]);
    write_at(&mut out, 6, &[]);
    assert_eq!(out, [0, 0, 1, 2, 3, 0]);
}

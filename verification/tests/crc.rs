//! CRCs and CRC engines.

use vintage_kvm::crc::{
    Crc16Engine, Crc32Engine, SoftwareCrc16Ccitt, SoftwareCrc32Reflected,
};
use vintage_kvm::crc_sniffer::{
    crc16_result, crc16_setup, crc32_setup, self_test_passes, SniffCalc,
};
use vintage_kvm::packet::{crc16, crc32};

#[test]
fn software_crc16_matches_compute() {
    let mut e = SoftwareCrc16Ccitt::new();
    e.update(b"123456789");
    assert_eq!(e.finalize(), crc16::compute(b"123456789"));
}

#[test]
fn software_crc16_split_updates_match() {
    let mut e = SoftwareCrc16Ccitt::new();
    e.update(b"123");
    e.update(b"456");
    e.update(b"789");
    assert_eq!(e.finalize(), crc16::compute(b"123456789"));
}

#[test]
fn software_crc32_matches_compute() {
    let mut e = SoftwareCrc32Reflected::new();
    e.update(b"123456789");
    assert_eq!(e.finalize(), crc32::compute(b"123456789"));
}

#[test]
fn software_crc32_split_updates_match() {
    let mut e = SoftwareCrc32Reflected::new();
    e.update(b"123");
    e.update(b"456");
    e.update(b"789");
    assert_eq!(e.finalize(), crc32::compute(b"123456789"));
}

#[test]
fn reset_returns_to_init() {
    let mut e = SoftwareCrc32Reflected::new();
    e.update(b"junk");
    e.reset();
    e.update(b"123456789");
    assert_eq!(e.finalize(), crc32::compute(b"123456789"));
}

#[test]
fn empty_buf_returns_init() {
    assert_eq!(crc16::compute(&[]), crc16::INIT);
}

#[test]
fn crc16_known_vector() {
    // Standard CCITT-FALSE test vector: CRC("123456789") == 0x29B1.
    assert_eq!(crc16::compute(b"123456789"), 0x29B1);
}

#[test]
fn empty_buf() {
    assert_eq!(crc32::compute(&[]), 0);
}

#[test]
fn crc32_known_vector() {
    // Standard test vector: CRC32("123456789") == 0xCBF43926.
    assert_eq!(crc32::compute(b"123456789"), 0xCBF43926);
}

#[test]
fn crc16_update_continues_from_register() {
    let half = crc16::update(crc16::INIT, b"12345");
    assert_eq!(crc16::update(half, b"6789"), 0x29B1);
}

#[test]
fn crc32_update_continues_from_register() {
    let half = crc32::update(crc32::INIT, b"12345");
    assert_eq!(crc32::update(half, b"6789") ^ crc32::XOROUT, 0xCBF43926);
}

#[test]
fn crc16_tells_neighbouring_damage() {
    let good = [0x10u8, 0x20, 0x30, 0x40, 0x50];
    for at in 0..4usize {
        for damage in 1u16..=0xFFFF {
            let mut bad = good;
            bad[at] ^= (damage >> 8) as u8;
            bad[at + 1] ^= (damage & 0xFF) as u8;
            assert_ne!(crc16::compute(&bad), crc16::compute(&good));
        }
    }
}

#[test]
fn crc32_tells_four_byte_damage() {
    let good = [1u8, 2, 3, 4, 5, 6, 7, 8];
    let mut damage: u32 = 1;
    for _ in 0..10_000 {
        damage = damage.wrapping_mul(1664525).wrapping_add(1013904223);
        if damage == 0 {
            continue;
        }
        let d = damage.to_le_bytes();
        for at in 0..5usize {
            let mut bad = good;
            for k in 0..4usize {
                bad[at + k] ^= d[k];
            }
            assert_ne!(crc32::compute(&bad), crc32::compute(&good));
        }
    }
}

#[test]
fn crc16_engine_reset_forgets() {
    let mut e = SoftwareCrc16Ccitt::default();
    e.update(b"junk");
    e.reset();
    assert_eq!(e.finalize(), 0xFFFF);
    e.update(b"123456789");
    assert_eq!(e.finalize(), 0x29B1);
}

#[test]
fn crc32_engine_starts_from_nothing() {
    let e = SoftwareCrc32Reflected::default();
    assert_eq!(e.finalize(), 0);
}

#[test]
fn sniffer_settings() {
    let s32 = crc32_setup();
    assert_eq!(s32.calc, SniffCalc::Crc32Reversed);
    assert_eq!(s32.init, 0xFFFF_FFFF);
    assert!(s32.out_rev && s32.out_inv);
    let s16 = crc16_setup();
    assert_eq!(s16.calc, SniffCalc::Crc16);
    assert_eq!(s16.init, 0xFFFF);
    assert!(!s16.out_rev && !s16.out_inv);
    assert_eq!(crc16_result(0xABCD_29B1), 0x29B1);
}

#[test]
fn sniffer_self_test() {
    assert!(self_test_passes(b"123456789", 0xCBF43926, 0x29B1));
    assert!(!self_test_passes(b"123456789", 0xCBF43927, 0x29B1));
    assert!(!self_test_passes(b"123456789", 0xCBF43926, 0x29B0));
}

//! Images in blocks.

use vintage_kvm::block_source::{BlockSource, SliceBlob};
use vintage_kvm::packet::crc32 as crc32_mod;
use vintage_kvm::protocol::stage_blobs::{
    stage2_block, stage2_crc32, EmbeddedStage2, STAGE2_PLACEHOLDER, STAGE2_SIZE,
};

const BLOB: &[u8] = b"Hello, vintage-kvm protocol!";

fn make() -> SliceBlob {
    SliceBlob::new(BLOB, crc32_mod::compute(BLOB))
}

#[test]
fn total_size_matches_data_len() {
    assert_eq!(make().total_size(), BLOB.len());
}

#[test]
fn crc32_matches() {
    assert_eq!(make().crc32(), crc32_mod::compute(BLOB));
}

#[test]
fn first_block_covers_data_when_block_size_exceeds_blob() {
    let s = make();
    let (data, n) = s.block(0, 64).unwrap();
    assert_eq!(n as usize, BLOB.len());
    assert_eq!(data, BLOB);
}

#[test]
fn last_block_may_be_short() {
    // 28-byte blob, 8-byte blocks → last block is 4 bytes (28 mod 8)
    let s = make();
    let (data, n) = s.block(3, 8).unwrap();
    assert_eq!(n, 4);
    assert_eq!(data, &BLOB[24..28]);
}

#[test]
fn past_end_returns_none() {
    let s = make();
    // blob is 28 B, 8-byte blocks → blocks 0..3 valid (0,1,2,3), block 4 None
    assert!(s.block(4, 8).is_none());
}

#[test]
fn blocks_put_together_are_the_image() {
    let s = make();
    for size in 1usize..40 {
        let mut joined: Vec<u8> = vec![];
        let mut n = 0u16;
        while let Some((data, count)) = s.block(n, size) {
            assert_eq!(data.len(), count as usize);
            joined.extend_from_slice(data);
            n += 1;
        }
        assert_eq!(joined.as_slice(), BLOB);
    }
}

#[test]
fn huge_block_numbers_are_past_the_end() {
    let s = make();
    assert!(s.block(u16::MAX, usize::MAX).is_none());
    let (data, n) = s.block(0, 28).unwrap();
    assert_eq!(data, BLOB);
    assert_eq!(n, 28);
    assert!(s.block(1, 28).is_none());
}

#[test]
fn block_count_is_modulo_256() {
    const BIG: &[u8] = &[7u8; 300];
    let s = SliceBlob::new(BIG, 0);
    let (data, n) = s.block(0, 260).unwrap();
    assert_eq!(data.len(), 260);
    assert_eq!(n, 4);
}

#[test]
fn embedded_image() {
    let blob = EmbeddedStage2::new();
    assert_eq!(blob.total_size(), STAGE2_SIZE);
    assert_eq!(blob.total_size(), STAGE2_PLACEHOLDER.len());
    assert_eq!(blob.crc32(), stage2_crc32());
    assert_eq!(blob.crc32(), crc32_mod::compute(&STAGE2_PLACEHOLDER));
    assert_eq!(EmbeddedStage2::default().crc32(), stage2_crc32());
    assert_eq!(EmbeddedStage2::with_crc(5).crc32(), 5);
    let (data, n) = blob.block(0, 64).unwrap();
    assert_eq!(data, &STAGE2_PLACEHOLDER[..]);
    assert_eq!(n as usize, STAGE2_SIZE);
    assert!(blob.block(1, 64).is_none());
    assert_eq!(
        &STAGE2_PLACEHOLDER[13..],
        b"PICO1284 Stage 2 placeholder v0.1\r\n$"
    );
}

#[test]
fn embedded_image_in_small_blocks() {
    let (data, n) = stage2_block(3, 16).unwrap();
    assert_eq!(data, &STAGE2_PLACEHOLDER[48..]);
    assert_eq!(n, 1);
    assert!(stage2_block(4, 16).is_none());
}

//! The embedded Stage 2 image.
//!
//! The image is a tiny DOS `.COM` program that prints a banner through
//! `INT 21h AH=09h` and exits with errorlevel 0. It fits in one download block,
//! so a download exercises the case of a short last block.

use vstd::prelude::*;

use crate::block_source::{slice_block, BlockSource};
use crate::packet::crc32;

verus! {

pub const STAGE2_SIZE: usize = 49;

/// Stage 2 placeholder: prints "PICO1284 Stage 2 placeholder v0.1\r\n".
///
/// ```text
/// 0100  B4 09           MOV  AH, 09h          ; DOS print-string
/// 0102  BA 0D 01        MOV  DX, 010Dh        ; string offset
/// 0105  CD 21           INT  21h
/// 0107  B8 00 4C        MOV  AX, 4C00h        ; exit, AL = errorlevel 0
/// 010A  CD 21           INT  21h
/// 010C  CC              INT3                  ; never reached
/// 010D  'PICO1284 Stage 2 placeholder v0.1\r\n$'
/// ```
pub const STAGE2_PLACEHOLDER: [u8; STAGE2_SIZE] = [
    0xB4, 0x09,
    0xBA, 0x0D, 0x01,
    0xCD, 0x21,
    0xB8, 0x00, 0x4C,
    0xCD, 0x21,
    0xCC,
    0x50, 0x49, 0x43, 0x4F, 0x31, 0x32, 0x38, 0x34, 0x20, 0x53, 0x74, 0x61,
    0x67, 0x65, 0x20, 0x32, 0x20, 0x70, 0x6C, 0x61, 0x63, 0x65, 0x68, 0x6F,
    0x6C, 0x64, 0x65, 0x72, 0x20, 0x76, 0x30, 0x2E, 0x31, 0x0D, 0x0A, 0x24,
];

/// The image as a slice.
fn stage2_image() -> (r: &'static [u8])
    ensures
        r@ == STAGE2_PLACEHOLDER@,
        r@.len() == STAGE2_SIZE,
{
    &STAGE2_PLACEHOLDER
}

/// The CRC of the image.
pub fn stage2_crc32() -> (r: u32)
    ensures
        r == crc32::crc_of(STAGE2_PLACEHOLDER@),
{
    crc32::compute(stage2_image())
}

/// Block `block_no` of the image and its length modulo 256, or `None` past the
/// end.
pub fn stage2_block(block_no: u16, block_size: usize) -> (r: Option<(&'static [u8], u8)>)
    requires
        block_no * block_size < STAGE2_SIZE ==> block_no * block_size + block_size <= usize::MAX,
    ensures
        match r {
            Some((data, count)) => crate::block_source::block_of(
                STAGE2_PLACEHOLDER@,
                block_no as nat,
                block_size as nat,
            ) == Some(data@) && count == data@.len() % 256,
            None => crate::block_source::block_of(
                STAGE2_PLACEHOLDER@,
                block_no as nat,
                block_size as nat,
            ) is None,
        },
{
    slice_block(stage2_image(), block_no, block_size)
}

/// The embedded image as a block source. Its CRC is computed once, when it is
/// made.
pub struct EmbeddedStage2 {
    crc: u32,
}

impl EmbeddedStage2 {
    /// The embedded image with its CRC.
    pub fn new() -> (r: Self)
        ensures
            r.declared_crc() == crc32::crc_of(STAGE2_PLACEHOLDER@),
    {
        EmbeddedStage2 { crc: stage2_crc32() }
    }

    /// The embedded image with a CRC that was computed elsewhere.
    pub fn with_crc(crc: u32) -> (r: Self)
        ensures
            r.declared_crc() == crc,
    {
        EmbeddedStage2 { crc }
    }
}

impl Default for EmbeddedStage2 {
    fn default() -> (r: Self)
        ensures
            r.declared_crc() == crc32::crc_of(STAGE2_PLACEHOLDER@),
    {
        Self::new()
    }
}

impl BlockSource for EmbeddedStage2 {
    open spec fn image(&self) -> Seq<u8> {
        STAGE2_PLACEHOLDER@
    }

    closed spec fn declared_crc(&self) -> u32 {
        self.crc
    }

    fn total_size(&self) -> usize {
        STAGE2_SIZE
    }

    fn crc32(&self) -> u32 {
        self.crc
    }

    fn block(&self, block_no: u16, block_size: usize) -> Option<(&[u8], u8)> {
        stage2_block(block_no, block_size)
    }
}

/// The embedded image is served as it is: 49 bytes, of which byte `i` of a block is the
/// one at the block's number times its size plus `i`. The CRC is the one computed, or the
/// one handed in.
pub proof fn law_image_is_served(
    block_no: u16,
    size: usize,
    got: Option<(&'static [u8], u8)>,
    sum: u32,
    own: EmbeddedStage2,
    other: EmbeddedStage2,
    crc: u32,
)
    requires
        call_ensures(stage2_block, (block_no, size), got),
        call_ensures(stage2_crc32, (), sum),
        call_ensures(EmbeddedStage2::new, (), own),
        call_ensures(EmbeddedStage2::with_crc, (crc,), other),
    ensures
        got is None <==> block_no * size >= 49,
        got matches Some((block, count)) ==> {
            &&& block_no * size + block@.len() == (if block_no * size + size <= 49 {
                block_no * size + size
            } else {
                49
            })
            &&& count == block@.len() % 256
            &&& forall|i: int|
                0 <= i < block@.len() ==> #[trigger] block@[i] == STAGE2_PLACEHOLDER@[block_no
                    * size + i]
        },
        own.image() == STAGE2_PLACEHOLDER@ && other.image() == STAGE2_PLACEHOLDER@,
        own.declared_crc() == sum && other.declared_crc() == crc,
{
}

} // verus!

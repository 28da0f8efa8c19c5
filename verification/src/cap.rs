//! Capability response payload.
//!
//! | Offset | Size   | Field |
//! |--------|--------|-------|
//! | 0      | u8     | `version_major` (must be 1) |
//! | 1      | u8     | `version_minor` |
//! | 2-22   | 21 B   | reserved (zeros) |
//! | 23     | u8     | `active_parallel_mode` |
//! | 24-27  | 4 B    | reserved (zeros) |
//! | 28     | u32 BE | `stage2_image_size` |
//! | 32     | u32 BE | `stage2_image_crc32` |

use vstd::prelude::*;

use crate::block_source::BlockSource;
use crate::bytes::{u32_to_be, write_at};

verus! {

pub const VERSION_MAJOR: u8 = 1;

pub const VERSION_MINOR: u8 = 0;

/// Active mode of a plain parallel port.
pub const ACTIVE_MODE_SPP: u8 = 1;

pub const PAYLOAD_LEN: usize = 36;

/// `n` zero bytes.
pub open spec fn zeros(n: nat) -> Seq<u8> {
    Seq::new(n, |i: int| 0u8)
}

/// The payload for an image of `size` bytes with CRC `crc`. The size field holds
/// 32 bits.
pub open spec fn cap_payload(size: int, crc: u32, active_mode: u8) -> Seq<u8> {
    seq![VERSION_MAJOR, VERSION_MINOR] + zeros(21) + seq![active_mode] + zeros(4)
        + crate::bytes::be32((size % 0x1_0000_0000) as u32) + crate::bytes::be32(crc)
}

/// What the host reads back from a payload: version, mode, image size and CRC.
pub proof fn law_cap_payload_fields(size: int, crc: u32, active_mode: u8)
    requires
        0 <= size <= u32::MAX,
    ensures
        ({
            let p = cap_payload(size, crc, active_mode);
            &&& p.len() == PAYLOAD_LEN
            &&& p[0] == VERSION_MAJOR
            &&& p[1] == VERSION_MINOR
            &&& forall|i: int| 2 <= i < 23 || 24 <= i < 28 ==> p[i] == 0
            &&& p[23] == active_mode
            &&& crate::bytes::from_be32(p.subrange(28, 32)) == size
            &&& crate::bytes::from_be32(p.subrange(32, 36)) == crc
        }),
{
    let p = cap_payload(size, crc, active_mode);
    assert(p.subrange(28, 32) =~= crate::bytes::be32(size as u32));
    assert(p.subrange(32, 36) =~= crate::bytes::be32(crc));
    crate::bytes::law_be32_round_trip(size as u32, p.subrange(28, 32));
    crate::bytes::law_be32_round_trip(crc, p.subrange(32, 36));
}

proof fn lemma_low_word(size: usize)
    ensures
        size as u32 == (size as int) % 0x1_0000_0000,
{
    let wide = size as u64;
    assert(wide as u32 == wide % 0x1_0000_0000) by (bit_vector);
}

/// Fills the front of `out` with the payload for `blob` and returns its length.
/// The active mode comes from the caller, because it depends on the parallel
/// port and not on the blob.
pub fn build_cap_rsp_payload<B: BlockSource>(blob: &B, active_mode: u8, out: &mut [u8]) -> (r:
    usize)
    requires
        old(out)@.len() >= PAYLOAD_LEN,
    ensures
        r == PAYLOAD_LEN,
        final(out)@ == cap_payload(blob.image().len() as int, blob.declared_crc(), active_mode)
            + old(out)@.subrange(PAYLOAD_LEN as int, old(out)@.len() as int),
{
    let ghost before = out@;
    let size: usize = blob.total_size();
    let crc: u32 = blob.crc32();
    let blank: [u8; PAYLOAD_LEN] = [0;PAYLOAD_LEN];
    write_at(out, 0, &blank);
    out[0] = VERSION_MAJOR;
    out[1] = VERSION_MINOR;
    out[23] = active_mode;
    proof {
        lemma_low_word(size);
    }
    write_at(out, 28, &u32_to_be(size as u32));
    write_at(out, 32, &u32_to_be(crc));
    assert(out@ =~= cap_payload(size as int, crc, active_mode) + before.subrange(
        PAYLOAD_LEN as int,
        before.len() as int,
    ));
    PAYLOAD_LEN
}

/// What stands where in the payload, by position and number: version 1.0 at the front,
/// the mode at 23, the size at 28 and the CRC at 32 with the high byte first, and zeros
/// everywhere else.
#[verifier::rlimit(40)]
pub proof fn law_payload_by_position(size: int, crc: u32, active_mode: u8)
    requires
        0 <= size <= u32::MAX,
    ensures
        ({
            let p = cap_payload(size, crc, active_mode);
            &&& p.len() == 36
            &&& p[0] == 1 && p[1] == 0
            &&& p[23] == active_mode
            &&& ((p[28] * 256 + p[29]) * 256 + p[30]) * 256 + p[31] == size
            &&& ((p[32] * 256 + p[33]) * 256 + p[34]) * 256 + p[35] == crc
            &&& forall|i: int| 2 <= i < 28 && i != 23 ==> #[trigger] p[i] == 0
        }),
{
    let p = cap_payload(size, crc, active_mode);
    assert(p[28] == crate::bytes::be32(size as u32)[0]);
    assert(p[29] == crate::bytes::be32(size as u32)[1]);
    assert(p[30] == crate::bytes::be32(size as u32)[2]);
    assert(p[31] == crate::bytes::be32(size as u32)[3]);
    assert(p[32] == crate::bytes::be32(crc)[0]);
    assert(p[33] == crate::bytes::be32(crc)[1]);
    assert(p[34] == crate::bytes::be32(crc)[2]);
    assert(p[35] == crate::bytes::be32(crc)[3]);
}

/// What is written for a blob: 36 bytes, with the size and the CRC that the blob declares
/// and the mode that is handed in, each at its place, and nothing behind.
pub proof fn law_payload_is_written<B: BlockSource>(
    blob: &B,
    active_mode: u8,
    out: &mut [u8],
    r: usize,
    i: int,
)
    requires
        old(out)@.len() >= 36,
        blob.image().len() <= u32::MAX,
        call_ensures(build_cap_rsp_payload::<B>, (blob, active_mode, out), r),
        0 <= i < old(out)@.len(),
    ensures
        r == 36,
        ({
            let p = final(out)@;
            &&& p.len() == old(out)@.len()
            &&& p[0] == 1 && p[1] == 0 && p[23] == active_mode
            &&& ((p[28] * 256 + p[29]) * 256 + p[30]) * 256 + p[31] == blob.image().len()
            &&& ((p[32] * 256 + p[33]) * 256 + p[34]) * 256 + p[35] == blob.declared_crc()
            &&& 2 <= i < 28 && i != 23 ==> p[i] == 0
            &&& i >= 36 ==> p[i] == old(out)@[i]
        }),
{
    let size = blob.image().len() as int;
    law_payload_by_position(size, blob.declared_crc(), active_mode);
    let payload = cap_payload(size, blob.declared_crc(), active_mode);
    assert(final(out)@[28] == payload[28] && final(out)@[29] == payload[29] && final(out)@[30]
        == payload[30] && final(out)@[31] == payload[31]);
    assert(final(out)@[32] == payload[32] && final(out)@[33] == payload[33] && final(out)@[34]
        == payload[34] && final(out)@[35] == payload[35]);
    assert(final(out)@[0] == payload[0] && final(out)@[1] == payload[1] && final(out)@[23]
        == payload[23]);
    if i < 36 {
        assert(final(out)@[i] == payload[i]);
    }
}

} // verus!

//! `CAP_REQ` → `CAP_RSP` → `CAP_ACK` capability handshake.
//!
//! The session always offers the embedded Stage 2 image and always reports a
//! plain parallel port.

use vstd::prelude::*;

use crate::protocol::stage_blobs::EmbeddedStage2;

pub use crate::cap::{ACTIVE_MODE_SPP, PAYLOAD_LEN, VERSION_MAJOR, VERSION_MINOR};

verus! {

/// The `CAP_RSP` payload of the session.
pub open spec fn cap_rsp_payload() -> Seq<u8> {
    let image = crate::protocol::stage_blobs::STAGE2_PLACEHOLDER@;
    crate::cap::cap_payload(
        image.len() as int,
        crate::packet::crc32::crc_of(image),
        ACTIVE_MODE_SPP,
    )
}

/// Fills the front of `out` with the `CAP_RSP` payload and returns its length.
pub fn build_cap_rsp_payload(out: &mut [u8]) -> (r: usize)
    requires
        old(out)@.len() >= PAYLOAD_LEN,
    ensures
        r == PAYLOAD_LEN,
        final(out)@ == cap_rsp_payload() + old(out)@.subrange(
            PAYLOAD_LEN as int,
            old(out)@.len() as int,
        ),
{
    crate::cap::build_cap_rsp_payload(&EmbeddedStage2::new(), ACTIVE_MODE_SPP, out)
}

/// What is written for the capability response: 36 bytes, with version 1.0 at the front,
/// mode 1 at 23, the size and the CRC of the image at 28 and 32, the high byte first, and
/// zeros elsewhere. Nothing behind is touched.
pub proof fn law_response_is_written(out: &mut [u8], r: usize, crc: u32, i: int)
    requires
        old(out)@.len() >= 36,
        call_ensures(build_cap_rsp_payload, (out,), r),
        call_ensures(crate::protocol::stage_blobs::stage2_crc32, (), crc),
        0 <= i < old(out)@.len(),
    ensures
        r == 36,
        ({
            let p = final(out)@;
            &&& p.len() == old(out)@.len()
            &&& p[0] == 1 && p[1] == 0 && p[23] == 1
            &&& ((p[28] * 256 + p[29]) * 256 + p[30]) * 256 + p[31] == 49
            &&& ((p[32] * 256 + p[33]) * 256 + p[34]) * 256 + p[35] == crc
            &&& 2 <= i < 28 && i != 23 ==> p[i] == 0
            &&& i >= 36 ==> p[i] == old(out)@[i]
        }),
{
    crate::cap::law_payload_by_position(49, crc, ACTIVE_MODE_SPP);
    let payload = cap_rsp_payload();
    assert(payload.len() == 36);
    assert(final(out)@[28] == payload[28] && final(out)@[29] == payload[29] && final(out)@[30]
        == payload[30] && final(out)@[31] == payload[31]);
    assert(final(out)@[32] == payload[32] && final(out)@[33] == payload[33] && final(out)@[34]
        == payload[34] && final(out)@[35] == payload[35]);
    assert(final(out)@[0] == payload[0] && final(out)@[1] == payload[1] && final(out)@[23]
        == payload[23]);
    if i < 36 {
        assert(final(out)@[i] == payload[i]);
    }
}

} // verus!

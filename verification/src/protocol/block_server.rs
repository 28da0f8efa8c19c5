//! Stage 2 block server.
//!
//! ```text
//! DOS  → Pico:  SEND_BLOCK    payload = u32 block_no (BE)
//! Pico → DOS:   RECV_BLOCK    payload = u32 block_no (BE)
//!                                     + u8  byte_count (1..=64)
//!                                     + byte_count data bytes
//! DOS  → Pico:  BLOCK_ACK     payload = u32 block_no (BE)     (success)
//!               BLOCK_NAK     payload = u32 block_no (BE)     (retry)
//! ```

use vstd::prelude::*;

use crate::bytes::{u16_from_be, u32_to_be, write_at};
use crate::protocol::stage_blobs::stage2_block;

verus! {

pub const BLOCK_SIZE: usize = 64;

/// Header of a `RECV_BLOCK` payload: block number and byte count.
pub const RECV_HDR_LEN: usize = 5;

/// Largest `RECV_BLOCK` payload.
pub const RECV_MAX_PAYLOAD: usize = 69;

/// Why a block request was refused.
#[derive(Debug, Clone, Copy, PartialEq, Eq)]
pub enum BlockError {
    BadRequestPayload,
    BlockOutOfRange,
}

/// The block number in a request payload. It is four bytes long, and the upper
/// half must be zero.
pub open spec fn requested_block(payload: Seq<u8>) -> Option<u16> {
    if payload.len() == 4 && payload[0] == 0 && payload[1] == 0 {
        Some(crate::bytes::from_be16(payload[2], payload[3]))
    } else {
        None
    }
}

/// Block `block_no` of the served image.
pub open spec fn served_block(block_no: u16) -> Option<Seq<u8>> {
    crate::block_source::block_of(
        crate::protocol::stage_blobs::STAGE2_PLACEHOLDER@,
        block_no as nat,
        BLOCK_SIZE as nat,
    )
}

/// The `RECV_BLOCK` payload that carries `data` as block `block_no`.
pub open spec fn recv_payload(block_no: u16, data: Seq<u8>) -> Seq<u8> {
    crate::bytes::be32(block_no as u32) + seq![data.len() as u8] + data
}

/// The next block expected after an acknowledgement with this payload.
pub open spec fn expected_after_ack(expected: u16, payload: Seq<u8>) -> u16 {
    if requested_block(payload) == Some(expected) && expected < u16::MAX {
        (expected + 1) as u16
    } else {
        expected
    }
}

/// Every block number is requested by its big-endian form.
pub proof fn law_request_names_its_block(block_no: u16)
    ensures
        requested_block(crate::bytes::be32(block_no as u32)) == Some(block_no),
{
}

/// A served block holds 1 to `BLOCK_SIZE` bytes, so its count byte is exact and
/// its payload fits.
pub proof fn law_served_block_fits(block_no: u16)
    ensures
        served_block(block_no) matches Some(data) ==> {
            &&& 1 <= data.len() <= BLOCK_SIZE
            &&& recv_payload(block_no, data).len() <= RECV_MAX_PAYLOAD
            &&& recv_payload(block_no, data)[4] == data.len()
            &&& recv_payload(block_no, data).skip(RECV_HDR_LEN as int) == data
        },
{
    if let Some(data) = served_block(block_no) {
        assert(recv_payload(block_no, data).skip(RECV_HDR_LEN as int) =~= data);
    }
}

/// The served blocks, requested in order, put together are the image; the block
/// behind the last is refused.
pub proof fn law_download_is_the_image()
    ensures
        ({
            let image = crate::protocol::stage_blobs::STAGE2_PLACEHOLDER@;
            let count = (image.len() + BLOCK_SIZE - 1) / BLOCK_SIZE as int;
            &&& crate::block_source::joined_blocks(image, count as nat, BLOCK_SIZE as nat) == image
            &&& forall|k: u16| k < count ==> #[trigger] served_block(k) is Some
            &&& forall|k: u16| k >= count ==> #[trigger] served_block(k) is None
        }),
{
    let image = crate::protocol::stage_blobs::STAGE2_PLACEHOLDER@;
    let count = (image.len() + BLOCK_SIZE - 1) / BLOCK_SIZE as int;
    crate::block_source::law_blocks_reassemble(image, count as nat, BLOCK_SIZE as nat);
}

/// Acknowledging a block again changes nothing.
pub proof fn law_ack_is_idempotent(expected: u16, payload: Seq<u8>)
    ensures
        expected_after_ack(expected_after_ack(expected, payload), payload) == expected_after_ack(
            expected,
            payload,
        ),
{
}

/// Tracks which block is expected to be requested next. A request out of order is
/// served all the same, because a refused block is requested again.
#[derive(Debug)]
pub struct BlockServer {
    pub expected_block: u16,
}

impl Default for BlockServer {
    fn default() -> (r: Self)
        ensures
            r.expected_block == 0,
    {
        Self::new()
    }
}

impl BlockServer {
    /// A server at the start of the image.
    pub fn new() -> (r: Self)
        ensures
            r.expected_block == 0,
    {
        BlockServer { expected_block: 0 }
    }

    /// Goes back to the start of the image.
    pub fn reset(&mut self)
        ensures
            final(self).expected_block == 0,
    {
        self.expected_block = 0;
    }

    /// Reads the block number of a `SEND_BLOCK` payload.
    pub fn parse_send_block(payload: &[u8]) -> (r: Result<u16, BlockError>)
        ensures
            match r {
                Ok(n) => requested_block(payload@) == Some(n),
                Err(e) => requested_block(payload@) is None && e == BlockError::BadRequestPayload,
            },
    {
        if payload.len() != 4 {
            return Err(BlockError::BadRequestPayload);
        }
        if payload[0] != 0 || payload[1] != 0 {
            return Err(BlockError::BadRequestPayload);
        }
        Ok(u16_from_be(payload[2], payload[3]))
    }

    /// Writes the `RECV_BLOCK` payload for `block_no` to the front of `out` and
    /// returns its length. Past the end of the image `out` is left as it was.
    pub fn build_recv_block(&self, block_no: u16, out: &mut [u8]) -> (r: Result<usize, BlockError>)
        requires
            old(out)@.len() >= RECV_MAX_PAYLOAD,
        ensures
            match r {
                Ok(n) => {
                    &&& served_block(block_no) matches Some(data)
                    &&& n == recv_payload(block_no, data).len()
                    &&& final(out)@ == recv_payload(block_no, data) + old(out)@.subrange(
                        n as int,
                        old(out)@.len() as int,
                    )
                },
                Err(e) => {
                    &&& served_block(block_no) is None
                    &&& e == BlockError::BlockOutOfRange
                    &&& final(out)@ == old(out)@
                },
            },
    {
        let ghost before = out@;
        let (data, count) = match stage2_block(block_no, BLOCK_SIZE) {
            Some(block) => block,
            None => {
                return Err(BlockError::BlockOutOfRange);
            },
        };
        write_at(out, 0, &u32_to_be(block_no as u32));
        out[4] = count;
        write_at(out, RECV_HDR_LEN, data);
        let n: usize = RECV_HDR_LEN + count as usize;
        assert(out@ =~= recv_payload(block_no, data@) + before.subrange(
            n as int,
            before.len() as int,
        ));
        Ok(n)
    }

    /// Takes a `BLOCK_ACK`. A repeated acknowledgement has no effect.
    pub fn handle_ack(&mut self, payload: &[u8])
        ensures
            final(self).expected_block == expected_after_ack(old(self).expected_block, payload@),
    {
        if let Ok(bn) = Self::parse_send_block(payload) {
            if bn == self.expected_block {
                self.expected_block = self.expected_block.saturating_add(1);
            }
        }
    }
}

/// A request is four bytes, the number with the high byte first, and names a block
/// exactly when the two high bytes are zero. Everything else is a bad payload.
pub proof fn law_request_by_position(payload: &[u8], got: Result<u16, BlockError>)
    requires
        call_ensures(BlockServer::parse_send_block, (payload,), got),
    ensures
        got is Ok <==> payload@.len() == 4 && payload@[0] == 0 && payload@[1] == 0,
        got matches Ok(n) ==> n == payload@[2] * 256 + payload@[3],
        got matches Err(e) ==> e == BlockError::BadRequestPayload,
        requested_block(payload@) == (match got {
            Ok(n) => Some(n),
            Err(_) => None,
        }),
{
}

/// A served block is the stretch of the image from 64 times its number on, up to 64 bytes
/// of it. Its payload is the number in four bytes with the high byte first, the count,
/// and the bytes. There is no block behind the end of the image.
pub proof fn law_block_by_position(block_no: u16)
    ensures
        ({
            let image = crate::protocol::stage_blobs::STAGE2_PLACEHOLDER@;
            let at = 64 * block_no;
            &&& served_block(block_no) is Some <==> at < image.len()
            &&& served_block(block_no) matches Some(data) ==> {
                let sent = recv_payload(block_no, data);
                &&& data.len() == (if at + 64 <= image.len() {
                    64
                } else {
                    image.len() - at
                })
                &&& forall|i: int| 0 <= i < data.len() ==> #[trigger] data[i] == image[at + i]
                &&& sent.len() == data.len() + 5
                &&& sent[0] == 0 && sent[1] == 0 && sent[2] * 256 + sent[3] == block_no
                &&& sent[4] == data.len()
                &&& forall|i: int| 0 <= i < data.len() ==> sent[5 + i] == #[trigger] data[i]
            }
        }),
{
    if let Some(data) = served_block(block_no) {
        let sent = recv_payload(block_no, data);
        let number = crate::bytes::be32(block_no as u32);
        assert(sent[0] == number[0] && sent[1] == number[1] && sent[2] == number[2] && sent[3]
            == number[3]);
    }
}

/// Only the acknowledgement of the very block that is expected moves on, and by one. The
/// last number is never left.
pub proof fn law_only_the_expected_ack_counts(expected: u16, payload: Seq<u8>)
    ensures
        ({
            let names_it = payload.len() == 4 && payload[0] == 0 && payload[1] == 0 && payload[2]
                * 256 + payload[3] == expected;
            expected_after_ack(expected, payload) == (if names_it && expected < 65535 {
                expected + 1
            } else {
                expected as int
            })
        }),
{
}

/// What is written for a block: its number in four bytes, the count, and its bytes of the
/// image, and nothing behind. For a block past the end nothing is written.
pub proof fn law_reply_is_written(
    server: BlockServer,
    block_no: u16,
    out: &mut [u8],
    r: Result<usize, BlockError>,
    i: int,
)
    requires
        old(out)@.len() >= 69,
        call_ensures(BlockServer::build_recv_block, (&server, block_no, out), r),
        0 <= i < old(out)@.len(),
    ensures
        ({
            let image = crate::protocol::stage_blobs::STAGE2_PLACEHOLDER@;
            let at = 64 * block_no;
            let count = if at + 64 <= image.len() {
                64
            } else {
                image.len() - at
            };
            &&& r is Ok <==> at < image.len()
            &&& r matches Err(e) ==> e == BlockError::BlockOutOfRange
            &&& r is Err ==> final(out)@[i] == old(out)@[i]
            &&& r matches Ok(n) ==> {
                &&& n == 5 + count
                &&& final(out)@[0] == 0 && final(out)@[1] == 0
                &&& final(out)@[2] * 256 + final(out)@[3] == block_no
                &&& final(out)@[4] == count
                &&& 5 <= i < n ==> final(out)@[i] == image[at + i - 5]
                &&& i >= n ==> final(out)@[i] == old(out)@[i]
            }
            &&& final(out)@.len() == old(out)@.len()
        }),
{
    law_block_by_position(block_no);
    if let Some(data) = served_block(block_no) {
        let sent = recv_payload(block_no, data);
        if 5 <= i < sent.len() {
            assert(sent[5 + (i - 5)] == data[i - 5]);
        }
    }
}

/// An acknowledgement of the expected block moves on to the next, up to the last number.
/// Any other payload changes nothing. A reset goes back to block 0, where a new server
/// starts.
pub proof fn law_server_moves_on(
    a: &mut BlockServer,
    payload: &[u8],
    b: &mut BlockServer,
    c: BlockServer,
)
    requires
        call_ensures(BlockServer::handle_ack, (a, payload), ()),
        call_ensures(BlockServer::reset, (b,), ()),
        call_ensures(BlockServer::new, (), c),
    ensures
        ({
            let expected = old(a).expected_block;
            let named = payload@.len() == 4 && payload@[0] == 0 && payload@[1] == 0 && payload@[2]
                * 256 + payload@[3] == expected;
            final(a).expected_block == (if named && expected < 65535 {
                expected + 1
            } else {
                expected as int
            })
        }),
        final(b).expected_block == 0,
        c.expected_block == 0,
{
    law_only_the_expected_ack_counts(old(a).expected_block, payload@);
}

/// By default it starts as a new one does.
pub proof fn law_block_server_by_default(d: BlockServer)
    requires
        call_ensures(BlockServer::default, (), d),
    ensures
        d.expected_block == 0,
{
}

} // verus!

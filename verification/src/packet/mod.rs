//! Wire packet encoding and decoding.
//!
//! ```text
//! SOH | CMD | SEQ | LEN_HI | LEN_LO | PAYLOAD | CRC_HI | CRC_LO | ETX
//! ```
//!
//! `LEN` is the payload length, big-endian. The CRC-16-CCITT covers everything
//! from `CMD` to the end of the payload. The decoder takes one complete framed
//! packet; the encoder writes into a buffer of the caller's.

pub mod commands;
pub mod crc16;
pub mod crc32;

use vstd::prelude::*;

use crate::bytes::{u16_from_be, u16_to_be, write_at};
use crate::fixed_vec::{payload_extend, payload_new, payload_slice};

verus! {

pub const SOH: u8 = 0x01;

pub const ETX: u8 = 0x03;

pub const HEADER_LEN: usize = 5;

pub const TRAILER_LEN: usize = 3;

pub const OVERHEAD: usize = 8;

/// The largest payload a packet carries.
pub const MAX_PAYLOAD: usize = 248;

/// The largest wire length of a single packet.
pub const MAX_PACKET: usize = 256;

/// What a packet says, apart from its framing.
#[verifier::ext_equal]
pub struct PacketView {
    pub cmd: u8,
    pub seq: u8,
    pub payload: Seq<u8>,
}

/// A packet taken off the wire.
#[derive(Debug)]
pub struct IncomingPacket {
    pub cmd: u8,
    pub seq: u8,
    pub payload: heapless::Vec<u8, MAX_PAYLOAD>,
}

impl View for IncomingPacket {
    type V = PacketView;

    open spec fn view(&self) -> PacketView {
        PacketView {
            cmd: self.cmd,
            seq: self.seq,
            payload: crate::fixed_vec::payload_bytes(self.payload),
        }
    }
}

/// A payload with the same bytes.
fn copy_payload(payload: &heapless::Vec<u8, MAX_PAYLOAD>) -> (r: heapless::Vec<u8, MAX_PAYLOAD>)
    ensures
        crate::fixed_vec::payload_bytes(r) == crate::fixed_vec::payload_bytes(*payload),
{
    let mut copy = payload_new();
    let _ = payload_extend(&mut copy, payload_slice(payload));
    assert(Seq::<u8>::empty() + crate::fixed_vec::payload_bytes(*payload)
        =~= crate::fixed_vec::payload_bytes(*payload));
    copy
}

impl Clone for IncomingPacket {
    fn clone(&self) -> (r: Self)
        ensures
            r@ == self@,
    {
        IncomingPacket { cmd: self.cmd, seq: self.seq, payload: copy_payload(&self.payload) }
    }
}

/// A packet made by the dispatcher that still has to be encoded and sent. The
/// dispatcher has set its sequence number.
#[derive(Debug)]
pub struct OutgoingPacket {
    pub cmd: u8,
    pub seq: u8,
    pub payload: heapless::Vec<u8, MAX_PAYLOAD>,
}

impl View for OutgoingPacket {
    type V = PacketView;

    open spec fn view(&self) -> PacketView {
        PacketView {
            cmd: self.cmd,
            seq: self.seq,
            payload: crate::fixed_vec::payload_bytes(self.payload),
        }
    }
}

impl Clone for OutgoingPacket {
    fn clone(&self) -> (r: Self)
        ensures
            r@ == self@,
    {
        OutgoingPacket { cmd: self.cmd, seq: self.seq, payload: copy_payload(&self.payload) }
    }
}

impl OutgoingPacket {
    /// A packet with the given payload, or `None` if the payload is too large.
    pub fn new(cmd: u8, seq: u8, payload_slice: &[u8]) -> (r: Option<Self>)
        ensures
            r is Some <==> payload_slice@.len() <= MAX_PAYLOAD,
            r matches Some(p) ==> p@ == (PacketView { cmd, seq, payload: payload_slice@ }),
    {
        if payload_slice.len() > MAX_PAYLOAD {
            return None;
        }
        let mut payload = payload_new();
        match payload_extend(&mut payload, payload_slice) {
            Ok(()) => {
                assert(Seq::<u8>::empty() + payload_slice@ =~= payload_slice@);
                Some(OutgoingPacket { cmd, seq, payload })
            },
            Err(()) => None,
        }
    }
}

/// Why a frame was rejected.
#[derive(Debug, Clone, Copy, PartialEq, Eq)]
pub enum DecodeError {
    TooShort,
    BadSoh,
    BadLen,
    BadEtx,
    BadCrc,
    PayloadOverflow,
}

/// Why a packet could not be framed.
#[derive(Debug, Clone, Copy, PartialEq, Eq)]
pub enum EncodeError {
    PayloadOverflow,
    OutputTooSmall,
}

/// The part of a frame that its CRC covers.
pub open spec fn body_of(p: PacketView) -> Seq<u8> {
    seq![p.cmd, p.seq] + crate::bytes::be16(p.payload.len() as u16) + p.payload
}

/// The frame that carries `p` on the wire.
pub open spec fn frame_of(p: PacketView) -> Seq<u8> {
    seq![SOH] + body_of(p) + crate::bytes::be16(crc16::crc_of(body_of(p))) + seq![ETX]
}

/// The payload length that a frame's header claims.
pub open spec fn claimed_len(buf: Seq<u8>) -> int {
    crate::bytes::from_be16(buf[3], buf[4]) as int
}

/// The CRC that a frame carries in front of its last byte.
pub open spec fn carried_crc(buf: Seq<u8>) -> u16 {
    crate::bytes::from_be16(buf[buf.len() - 3], buf[buf.len() - 2])
}

/// The first thing that is wrong with `buf` as a frame, if anything is.
pub open spec fn decode_fault(buf: Seq<u8>) -> Option<DecodeError> {
    if buf.len() < OVERHEAD {
        Some(DecodeError::TooShort)
    } else if buf[0] != SOH {
        Some(DecodeError::BadSoh)
    } else if claimed_len(buf) > MAX_PAYLOAD {
        Some(DecodeError::PayloadOverflow)
    } else if buf.len() != claimed_len(buf) + OVERHEAD {
        Some(DecodeError::BadLen)
    } else if buf.last() != ETX {
        Some(DecodeError::BadEtx)
    } else if crc16::crc_of(buf.subrange(1, buf.len() - 3)) != carried_crc(buf) {
        Some(DecodeError::BadCrc)
    } else {
        None
    }
}

/// What a faultless frame carries.
pub open spec fn packet_in(buf: Seq<u8>) -> PacketView {
    PacketView { cmd: buf[1], seq: buf[2], payload: buf.subrange(5, buf.len() - 3) }
}

/// Every buffer that is accepted is the frame of the packet that comes out of it,
/// byte for byte.
pub proof fn law_decode_then_encode(buf: Seq<u8>)
    ensures
        decode_fault(buf) is None ==> packet_in(buf).payload.len() <= MAX_PAYLOAD && frame_of(
            packet_in(buf),
        ) == buf,
{
    if decode_fault(buf) is None {
        let p = packet_in(buf);
        crate::bytes::law_be16_round_trip(0, buf[3], buf[4]);
        assert(body_of(p) =~= buf.subrange(1, buf.len() - 3));
        crate::bytes::law_be16_round_trip(0, buf[buf.len() - 3], buf[buf.len() - 2]);
        assert(frame_of(p) =~= buf);
    }
}

/// The frame of every packet whose payload fits is accepted, and the packet
/// comes out of it unchanged.
pub proof fn law_encode_then_decode(p: PacketView)
    requires
        p.payload.len() <= MAX_PAYLOAD,
    ensures
        frame_of(p).len() == p.payload.len() + OVERHEAD,
        decode_fault(frame_of(p)) is None,
        packet_in(frame_of(p)) == p,
{
    let buf = frame_of(p);
    crate::bytes::law_be16_round_trip(p.payload.len() as u16, 0, 0);
    crate::bytes::law_be16_round_trip(crc16::crc_of(body_of(p)), 0, 0);
    assert(buf.subrange(1, buf.len() - 3) =~= body_of(p));
    assert(packet_in(buf) =~= p);
}

/// Two packets with the same frame are the same packet.
pub proof fn law_frames_differ(p: PacketView, q: PacketView)
    requires
        p.payload.len() <= MAX_PAYLOAD,
        q.payload.len() <= MAX_PAYLOAD,
        frame_of(p) == frame_of(q),
    ensures
        p == q,
{
    law_encode_then_decode(p);
    law_encode_then_decode(q);
}

/// A frame with a changed CRC field, and nothing else changed, is rejected for
/// its CRC.
pub proof fn law_corrupt_crc_rejected(p: PacketView, hi: u8, lo: u8)
    requires
        p.payload.len() <= MAX_PAYLOAD,
        seq![hi, lo] != crate::bytes::be16(crc16::crc_of(body_of(p))),
    ensures
        decode_fault(
            frame_of(p).update(p.payload.len() as int + 5, hi).update(
                p.payload.len() as int + 6,
                lo,
            ),
        ) == Some(DecodeError::BadCrc),
{
    let at = p.payload.len() as int + 5;
    let buf = frame_of(p).update(at, hi).update(at + 1, lo);
    crate::bytes::law_be16_round_trip(p.payload.len() as u16, 0, 0);
    crate::bytes::law_be16_round_trip(0, hi, lo);
    assert(buf.subrange(1, buf.len() - 3) =~= body_of(p));
    assert(buf[3] == frame_of(p)[3] && buf[4] == frame_of(p)[4]);
}

/// A frame with a changed last byte, and nothing else changed, is rejected for
/// its end mark.
pub proof fn law_corrupt_etx_rejected(p: PacketView, end: u8)
    requires
        p.payload.len() <= MAX_PAYLOAD,
        end != ETX,
    ensures
        decode_fault(frame_of(p).update(p.payload.len() as int + 7, end)) == Some(
            DecodeError::BadEtx,
        ),
{
    let buf = frame_of(p).update(p.payload.len() as int + 7, end);
    crate::bytes::law_be16_round_trip(p.payload.len() as u16, 0, 0);
    assert(buf[3] == frame_of(p)[3] && buf[4] == frame_of(p)[4]);
}

/// A frame whose body was damaged within two neighbouring bytes is rejected:
/// for its CRC where the length field is whole, and for its length otherwise.
pub proof fn law_burst_rejected(p: PacketView, bad: Seq<u8>, at: int)
    requires
        p.payload.len() <= MAX_PAYLOAD,
        bad.len() == frame_of(p).len(),
        1 <= at <= p.payload.len() + 3,
        bad != frame_of(p),
        forall|i: int|
            0 <= i < bad.len() && i != at && i != at + 1 ==> bad[i] == frame_of(p)[i],
    ensures
        decode_fault(bad) == Some(
            if claimed_len(bad) == p.payload.len() {
                DecodeError::BadCrc
            } else if claimed_len(bad) > MAX_PAYLOAD {
                DecodeError::PayloadOverflow
            } else {
                DecodeError::BadLen
            },
        ),
{
    let good = frame_of(p);
    let n = good.len() as int;
    law_encode_then_decode(p);
    let body = body_of(p);
    let hurt = bad.subrange(1, n - 3);
    assert(good.subrange(1, n - 3) =~= body);
    assert forall|i: int| 0 <= i < body.len() implies body[i] == good[i + 1] && hurt[i] == bad[i
        + 1] by {}
    if body == hurt {
        assert(bad =~= good) by {
            assert forall|i: int| 0 <= i < n implies bad[i] == good[i] by {
                if 1 <= i < n - 3 {
                    assert(bad[i] == hurt[i - 1]);
                    assert(good[i] == body[i - 1]);
                }
            }
        }
    }
    assert forall|i: int| 0 <= i < body.len() && i != at - 1 && i != at implies body[i]
        == hurt[i] by {
        assert(bad[i + 1] == good[i + 1]);
    }
    crc16::law_burst_changes_crc(body, hurt, at - 1);
    assert(bad[n - 3] == good[n - 3] && bad[n - 2] == good[n - 2] && bad[n - 1] == good[n - 1]
        && bad[0] == good[0]);
    assert(carried_crc(bad) == carried_crc(good));
}

/// Decodes one complete wire packet. A buffer that is shorter or longer than
/// the framed packet is an error.
pub fn decode(buf: &[u8]) -> (r: Result<IncomingPacket, DecodeError>)
    ensures
        match r {
            Ok(p) => decode_fault(buf@) is None && p@ == packet_in(buf@) && buf@ == frame_of(p@),
            Err(e) => decode_fault(buf@) == Some(e),
        },
{
    if buf.len() < OVERHEAD {
        return Err(DecodeError::TooShort);
    }
    if buf[0] != SOH {
        return Err(DecodeError::BadSoh);
    }
    let payload_len: usize = u16_from_be(buf[3], buf[4]) as usize;
    if payload_len > MAX_PAYLOAD {
        return Err(DecodeError::PayloadOverflow);
    }
    if buf.len() != payload_len + OVERHEAD {
        return Err(DecodeError::BadLen);
    }
    let etx_off: usize = HEADER_LEN + payload_len + 2;
    if buf[etx_off] != ETX {
        return Err(DecodeError::BadEtx);
    }
    let crc_end: usize = HEADER_LEN + payload_len;
    let computed: u16 = crc16::compute(&buf[1..crc_end]);
    let on_wire: u16 = u16_from_be(buf[crc_end], buf[crc_end + 1]);
    if computed != on_wire {
        return Err(DecodeError::BadCrc);
    }
    let cmd: u8 = buf[1];
    let seq: u8 = buf[2];
    let mut payload = payload_new();
    let _ = payload_extend(&mut payload, &buf[HEADER_LEN..HEADER_LEN + payload_len]);
    proof {
        law_decode_then_encode(buf@);
        assert(Seq::<u8>::empty() + buf@.subrange(5, buf@.len() - 3) =~= buf@.subrange(
            5,
            buf@.len() - 3,
        ));
    }
    Ok(IncomingPacket { cmd, seq, payload })
}

/// Encodes a packet into the front of `out` and returns the length of the
/// frame. On an error `out` is left as it was.
#[verifier::rlimit(40)]
pub fn encode(cmd: u8, seq: u8, payload: &[u8], out: &mut [u8]) -> (r: Result<usize, EncodeError>)
    ensures
        match r {
            Ok(n) => {
                &&& payload@.len() <= MAX_PAYLOAD
                &&& n == payload@.len() + OVERHEAD
                &&& n <= old(out)@.len()
                &&& final(out)@ == frame_of(PacketView { cmd, seq, payload: payload@ })
                    + old(out)@.subrange(n as int, old(out)@.len() as int)
            },
            Err(EncodeError::PayloadOverflow) => payload@.len() > MAX_PAYLOAD && final(out)@
                == old(out)@,
            Err(EncodeError::OutputTooSmall) => payload@.len() <= MAX_PAYLOAD && old(out)@.len()
                < payload@.len() + OVERHEAD && final(out)@ == old(out)@,
        },
{
    if payload.len() > MAX_PAYLOAD {
        return Err(EncodeError::PayloadOverflow);
    }
    let total: usize = payload.len() + OVERHEAD;
    if out.len() < total {
        return Err(EncodeError::OutputTooSmall);
    }
    let ghost p = PacketView { cmd, seq, payload: payload@ };
    let ghost before = out@;
    out[0] = SOH;
    out[1] = cmd;
    out[2] = seq;
    let (len_hi, len_lo) = u16_to_be(payload.len() as u16);
    out[3] = len_hi;
    out[4] = len_lo;
    write_at(out, HEADER_LEN, payload);
    let crc_end: usize = HEADER_LEN + payload.len();
    assert(crate::bytes::be16(payload@.len() as u16) =~= seq![len_hi, len_lo]);
    assert(out@.subrange(1, crc_end as int) =~= body_of(p));
    let crc: u16 = crc16::compute(&out[1..crc_end]);
    let (crc_hi, crc_lo) = u16_to_be(crc);
    out[crc_end] = crc_hi;
    out[crc_end + 1] = crc_lo;
    out[crc_end + 2] = ETX;
    assert(crate::bytes::be16(crc) =~= seq![crc_hi, crc_lo]);
    assert(out@ =~= frame_of(p) + before.subrange(total as int, before.len() as int)) by {
        assert(out@.subrange(1, crc_end as int) =~= body_of(p));
        assert forall|i: int| 0 <= i < out@.len() implies out@[i] == (frame_of(p)
            + before.subrange(total as int, before.len() as int))[i] by {
            if 1 <= i < crc_end {
                assert(out@[i] == out@.subrange(1, crc_end as int)[i - 1]);
            }
        }
    }
    Ok(total)
}

/// Where everything stands in a frame, by position and number: 0x01, command, sequence
/// number, payload length with the high byte first, payload, CRC with the high byte
/// first, 0x03.
pub proof fn law_frame_by_position(p: PacketView, body: &[u8], crc: u16)
    requires
        p.payload.len() <= 248,
        call_ensures(crc16::compute, (body,), crc),
        body@ == frame_of(p).subrange(1, frame_of(p).len() - 3),
    ensures
        ({
            let f = frame_of(p);
            let n = p.payload.len() as int;
            &&& f.len() == n + 8
            &&& f[0] == 0x01 && f[1] == p.cmd && f[2] == p.seq
            &&& f[3] * 256 + f[4] == n
            &&& forall|i: int| 0 <= i < n ==> f[5 + i] == #[trigger] p.payload[i]
            &&& f[n + 5] * 256 + f[n + 6] == crc
            &&& f[n + 7] == 0x03
        }),
{
    law_encode_then_decode(p);
    let f = frame_of(p);
    assert(f.subrange(1, f.len() - 3) =~= body_of(p));
}

/// What is wrong with a buffer, by position and number. The first of these that holds
/// is the error: fewer than 8 bytes; no 0x01 at the front; a length field over 248; a
/// length that is not that of the buffer; no 0x03 at the end; a CRC that is not that of
/// the bytes between. If none holds the packet is what stands at its place, whatever
/// its command, its number and its bytes are.
pub proof fn law_decode_by_position(buf: &[u8], got: Result<IncomingPacket, DecodeError>, crc: u16)
    requires
        call_ensures(decode, (buf,), got),
        buf@.len() >= 8 ==> crc == crc16::crc_of(buf@.subrange(1, buf@.len() - 3)),
    ensures
        ({
            let b = buf@;
            let n = b.len() as int;
            let len = b[3] * 256 + b[4];
            if n < 8 {
                got matches Err(DecodeError::TooShort)
            } else if b[0] != 0x01 {
                got matches Err(DecodeError::BadSoh)
            } else if len > 248 {
                got matches Err(DecodeError::PayloadOverflow)
            } else if n != len + 8 {
                got matches Err(DecodeError::BadLen)
            } else if b[n - 1] != 0x03 {
                got matches Err(DecodeError::BadEtx)
            } else if crc != b[n - 3] * 256 + b[n - 2] {
                got matches Err(DecodeError::BadCrc)
            } else {
                &&& got matches Ok(p)
                &&& p.cmd == b[1] && p.seq == b[2]
                &&& p@.payload.len() == len
                &&& forall|i: int| 0 <= i < len ==> #[trigger] p@.payload[i] == b[5 + i]
            }
        }),
{
}

/// A packet is made exactly when its payload has at most 248 bytes, and holds what it was
/// made of.
pub proof fn law_packet_holds_its_parts(
    cmd: u8,
    seq: u8,
    payload: &[u8],
    made: Option<OutgoingPacket>,
)
    requires
        call_ensures(OutgoingPacket::new, (cmd, seq, payload), made),
    ensures
        made is Some <==> payload@.len() <= 248,
        made matches Some(p) ==> p.cmd == cmd && p.seq == seq && p@.payload == payload@,
{
}

/// What encoding writes: the start mark 0x01, command, number, the length with the high
/// byte first, the payload, the CRC of all this but the mark, and the end mark 0x03, with
/// nothing touched behind. A payload of more than 248 bytes is refused, and so is too
/// short an output, and then nothing is written.
pub proof fn law_encoding_is_written(
    cmd: u8,
    seq: u8,
    payload: &[u8],
    out: &mut [u8],
    r: Result<usize, EncodeError>,
    i: int,
)
    requires
        call_ensures(encode, (cmd, seq, payload, out), r),
        0 <= i < old(out)@.len(),
    ensures
        ({
            let n = payload@.len() as int;
            let f = final(out)@;
            &&& f.len() == old(out)@.len()
            &&& r is Ok <==> n <= 248 && n + 8 <= f.len()
            &&& n > 248 ==> r == Err::<usize, EncodeError>(EncodeError::PayloadOverflow)
            &&& n <= 248 && n + 8 > f.len() ==> r == Err::<usize, EncodeError>(
                EncodeError::OutputTooSmall,
            )
            &&& r is Err ==> f[i] == old(out)@[i]
            &&& r matches Ok(len) ==> {
                &&& len == n + 8
                &&& f[0] == 0x01 && f[1] == cmd && f[2] == seq && f[3] * 256 + f[4] == n
                &&& 5 <= i < n + 5 ==> f[i] == payload@[i - 5]
                &&& f[n + 5] * 256 + f[n + 6] == crc16::crc_of(f.subrange(1, n + 5))
                &&& f[n + 7] == 0x03
                &&& i >= n + 8 ==> f[i] == old(out)@[i]
            }
        }),
{
    if r is Ok {
        let p = PacketView { cmd, seq, payload: payload@ };
        let n = payload@.len() as int;
        let frame = frame_of(p);
        let body = body_of(p);
        let sum = crate::bytes::be16(crc16::crc_of(body));
        assert(frame.len() == n + 8);
        assert(final(out)@.subrange(1, n + 5) =~= body);
        assert(final(out)@[n + 5] == sum[0] && final(out)@[n + 6] == sum[1]);
        assert(final(out)@[n + 7] == frame[n + 7]);
        if 5 <= i < n + 5 {
            assert(final(out)@[i] == frame[i]);
        }
    }
}

} // verus!

//! Byte stream to packets.
//!
//! Bytes arrive one at a time from the parallel port. The reassembler looks for
//! `SOH`, gathers the rest of the header to learn the payload length, gathers
//! payload and trailer, and decodes the frame. Bytes in front of an `SOH` are
//! dropped, which recovers from noise after a power glitch or an interrupted
//! transfer.

use vstd::prelude::*;

use crate::bytes::u16_from_be;
use crate::packet::{
    decode, DecodeError, IncomingPacket, PacketView, HEADER_LEN, MAX_PACKET, OVERHEAD, SOH,
};

verus! {

/// What one received byte led to.
#[derive(Debug)]
pub enum StreamEvent {
    /// The byte stood in front of an `SOH` and was dropped.
    Dropped(u8),
    /// The byte is part of a frame that is not complete yet.
    Gathering,
    /// The header claims this payload length, which is too long. The header is
    /// dropped.
    TooLong(u16),
    /// The byte completed a frame that does not decode. The frame is dropped.
    Rejected(DecodeError),
    /// The byte completed a packet.
    Packet(IncomingPacket),
}

/// What a `StreamEvent` says.
pub enum EventView {
    Dropped(u8),
    Gathering,
    TooLong(u16),
    Rejected(DecodeError),
    Packet(PacketView),
}

impl View for StreamEvent {
    type V = EventView;

    open spec fn view(&self) -> EventView {
        match *self {
            StreamEvent::Dropped(b) => EventView::Dropped(b),
            StreamEvent::Gathering => EventView::Gathering,
            StreamEvent::TooLong(n) => EventView::TooLong(n),
            StreamEvent::Rejected(e) => EventView::Rejected(e),
            StreamEvent::Packet(p) => EventView::Packet(p@),
        }
    }
}

/// The length of the frame that a complete header announces.
pub open spec fn frame_len(header: Seq<u8>) -> int {
    crate::packet::claimed_len(header) + OVERHEAD
}

/// What the byte `b` leads to when `pending` has been gathered.
pub open spec fn event_on(pending: Seq<u8>, b: u8) -> EventView {
    let frame = pending.push(b);
    if pending.len() == 0 && b != SOH {
        EventView::Dropped(b)
    } else if frame.len() < HEADER_LEN {
        EventView::Gathering
    } else if frame_len(frame) > MAX_PACKET {
        EventView::TooLong(crate::bytes::from_be16(frame[3], frame[4]))
    } else if frame.len() < frame_len(frame) {
        EventView::Gathering
    } else {
        match crate::packet::decode_fault(frame) {
            Some(e) => EventView::Rejected(e),
            None => EventView::Packet(crate::packet::packet_in(frame)),
        }
    }
}

/// What is gathered after the byte `b`.
pub open spec fn pending_after(pending: Seq<u8>, b: u8) -> Seq<u8> {
    if event_on(pending, b) is Gathering {
        pending.push(b)
    } else {
        Seq::empty()
    }
}

/// Whether `pending` is the beginning of a frame that can still be completed.
pub open spec fn is_frame_start(pending: Seq<u8>) -> bool {
    &&& pending.len() > 0 ==> pending[0] == SOH
    &&& pending.len() >= HEADER_LEN ==> pending.len() < frame_len(pending) <= MAX_PACKET
}

/// The first packet that completes while `stream` is received: how many bytes
/// that takes, what is gathered afterwards, and the packet. Without such a
/// packet all of `stream` is taken.
pub open spec fn first_packet(pending: Seq<u8>, stream: Seq<u8>) -> (int, Seq<u8>, Option<
    PacketView,
>)
    decreases stream.len(),
{
    if stream.len() == 0 {
        (0, pending, None)
    } else {
        let after = pending_after(pending, stream[0]);
        match event_on(pending, stream[0]) {
            EventView::Packet(p) => (1, after, Some(p)),
            _ => {
                let (taken, left, found) = first_packet(after, stream.drop_first());
                (taken + 1, left, found)
            },
        }
    }
}

/// All packets that complete while `stream` is received.
pub open spec fn packets(pending: Seq<u8>, stream: Seq<u8>) -> Seq<PacketView>
    decreases stream.len(),
{
    if stream.len() == 0 {
        Seq::empty()
    } else {
        let later = packets(pending_after(pending, stream[0]), stream.drop_first());
        match event_on(pending, stream[0]) {
            EventView::Packet(p) => seq![p] + later,
            _ => later,
        }
    }
}

/// Whether `noise` holds no `SOH`.
pub open spec fn is_noise(noise: Seq<u8>) -> bool {
    forall|i: int| 0 <= i < noise.len() ==> noise[i] != SOH
}

/// A transmission: noise and a frame, again and again.
pub open spec fn transmission(parts: Seq<(Seq<u8>, PacketView)>) -> Seq<u8>
    decreases parts.len(),
{
    if parts.len() == 0 {
        Seq::empty()
    } else {
        parts[0].0 + crate::packet::frame_of(parts[0].1) + transmission(parts.drop_first())
    }
}

/// Taking the first packet and going on with the rest of the stream gives all
/// packets of the stream.
pub proof fn law_first_packet_is_first(pending: Seq<u8>, stream: Seq<u8>)
    ensures
        ({
            let (taken, left, found) = first_packet(pending, stream);
            &&& 0 <= taken <= stream.len()
            &&& found matches Some(p) ==> packets(pending, stream) == seq![p] + packets(
                left,
                stream.skip(taken),
            ) && left.len() == 0
            &&& found is None ==> taken == stream.len() && packets(pending, stream).len() == 0
        }),
    decreases stream.len(),
{
    if stream.len() > 0 {
        let after = pending_after(pending, stream[0]);
        if event_on(pending, stream[0]) is Packet {
            assert(stream.skip(1) =~= stream.drop_first());
        } else {
            law_first_packet_is_first(after, stream.drop_first());
            let (taken, left, found) = first_packet(after, stream.drop_first());
            assert(stream.skip(taken + 1) =~= stream.drop_first().skip(taken));
        }
    }
}

/// Noise leaves nothing behind and completes no packet.
pub proof fn law_noise_is_dropped(noise: Seq<u8>, stream: Seq<u8>)
    requires
        is_noise(noise),
    ensures
        packets(Seq::empty(), noise + stream) == packets(Seq::empty(), stream),
    decreases noise.len(),
{
    if noise.len() == 0 {
        assert(noise + stream =~= stream);
    } else {
        assert((noise + stream)[0] == noise[0]);
        assert((noise + stream).drop_first() =~= noise.drop_first() + stream);
        law_noise_is_dropped(noise.drop_first(), stream);
    }
}

/// Whether `frame` has the outline of a frame: a start mark and a length that
/// fits the header.
pub open spec fn has_outline(frame: Seq<u8>) -> bool {
    &&& frame.len() >= OVERHEAD
    &&& frame[0] == SOH
    &&& frame.len() == frame_len(frame)
    &&& frame.len() <= MAX_PACKET
}

proof fn lemma_gather(frame: Seq<u8>, k: int, stream: Seq<u8>)
    requires
        has_outline(frame),
        0 <= k < frame.len(),
    ensures
        packets(frame.take(k), frame.skip(k) + stream) == match crate::packet::decode_fault(
            frame,
        ) {
            Some(_) => packets(Seq::empty(), stream),
            None => seq![crate::packet::packet_in(frame)] + packets(Seq::empty(), stream),
        },
    decreases frame.len() - k,
{
    let pending = frame.take(k);
    let rest = frame.skip(k) + stream;
    assert(rest[0] == frame[k]);
    assert(pending.push(rest[0]) =~= frame.take(k + 1));
    assert(rest.drop_first() =~= frame.skip(k + 1) + stream);
    if k + 1 < frame.len() {
        lemma_gather(frame, k + 1, stream);
    } else {
        assert(frame.take(k + 1) =~= frame);
        assert(frame.skip(k + 1) + stream =~= stream);
    }
}

/// A whole frame is taken in one piece, whatever bytes it holds. If it decodes,
/// its packet is delivered; if not, it is dropped. Either way the stream goes on
/// behind it.
pub proof fn law_frame_is_taken_whole(frame: Seq<u8>, stream: Seq<u8>)
    requires
        has_outline(frame),
    ensures
        packets(Seq::empty(), frame + stream) == match crate::packet::decode_fault(frame) {
            Some(_) => packets(Seq::empty(), stream),
            None => seq![crate::packet::packet_in(frame)] + packets(Seq::empty(), stream),
        },
{
    lemma_gather(frame, 0, stream);
    assert(frame.take(0) =~= Seq::empty());
    assert(frame.skip(0) =~= frame);
}

/// The packets of a transmission are delivered exactly, in order, whatever noise
/// stands between the frames.
pub proof fn law_transmission_is_received(parts: Seq<(Seq<u8>, PacketView)>, tail: Seq<u8>)
    requires
        is_noise(tail),
        forall|i: int|
            0 <= i < parts.len() ==> is_noise(#[trigger] parts[i].0) && parts[i].1.payload.len()
                <= crate::packet::MAX_PAYLOAD,
    ensures
        packets(Seq::empty(), transmission(parts) + tail) == Seq::new(
            parts.len(),
            |i: int| parts[i].1,
        ),
    decreases parts.len(),
{
    if parts.len() == 0 {
        law_noise_is_dropped(tail, Seq::empty());
        assert(transmission(parts) + tail =~= tail + Seq::<u8>::empty());
    } else {
        let noise = parts[0].0;
        let p = parts[0].1;
        let frame = crate::packet::frame_of(p);
        let more = parts.drop_first();
        assert forall|i: int| 0 <= i < more.len() implies is_noise(#[trigger] more[i].0)
            && more[i].1.payload.len() <= crate::packet::MAX_PAYLOAD by {
            assert(more[i] == parts[i + 1]);
        }
        law_transmission_is_received(more, tail);
        let rest = transmission(more) + tail;
        assert(transmission(parts) + tail =~= noise + (frame + rest));
        law_noise_is_dropped(noise, frame + rest);
        crate::packet::law_encode_then_decode(p);
        crate::bytes::law_be16_round_trip(p.payload.len() as u16, 0, 0);
        law_frame_is_taken_whole(frame, rest);
        assert(seq![p] + Seq::new(more.len(), |i: int| more[i].1) =~= Seq::new(
            parts.len(),
            |i: int| parts[i].1,
        ));
    }
}

/// Gathers bytes into frames.
pub struct PacketReassembler {
    /// The frame being gathered.
    buf: [u8; MAX_PACKET],
    /// How many bytes of `buf` have been gathered.
    len: usize,
}

impl PacketReassembler {
    /// The bytes gathered so far.
    pub closed spec fn pending(&self) -> Seq<u8> {
        self.buf@.take(self.len as int)
    }

    /// Whether the gathered bytes are the beginning of a frame.
    pub closed spec fn wf(&self) -> bool {
        self.len < MAX_PACKET && is_frame_start(self.pending())
    }

    /// The gathered bytes are always the beginning of a frame that can still be
    /// completed.
    pub proof fn law_pending_is_a_frame_start(&self)
        requires
            self.wf(),
        ensures
            is_frame_start(self.pending()),
            self.pending().len() < MAX_PACKET,
    {
    }

    /// A reassembler that has gathered nothing.
    pub fn new() -> (r: Self)
        ensures
            r.wf(),
            r.pending() == Seq::<u8>::empty(),
    {
        let r = PacketReassembler { buf: [0;MAX_PACKET], len: 0 };
        assert(r.pending() =~= Seq::<u8>::empty());
        r
    }

    /// Takes the next byte of the stream.
    pub fn push_byte(&mut self, b: u8) -> (r: StreamEvent)
        requires
            old(self).wf(),
        ensures
            final(self).wf(),
            final(self).pending() == pending_after(old(self).pending(), b),
            r@ == event_on(old(self).pending(), b),
    {
        let ghost before = self.pending();
        if self.len == 0 && b != SOH {
            return StreamEvent::Dropped(b);
        }
        self.buf[self.len] = b;
        self.len = self.len + 1;
        let ghost frame = before.push(b);
        assert(self.pending() =~= frame);
        assert(frame[0] == SOH);
        if self.len < HEADER_LEN {
            return StreamEvent::Gathering;
        }
        assert(before.len() >= HEADER_LEN ==> frame_len(before) == frame_len(frame));
        let payload_len: u16 = u16_from_be(self.buf[3], self.buf[4]);
        let total: usize = payload_len as usize + OVERHEAD;
        if total > MAX_PACKET {
            self.len = 0;
            assert(self.pending() =~= Seq::<u8>::empty());
            return StreamEvent::TooLong(payload_len);
        }
        if self.len < total {
            return StreamEvent::Gathering;
        }
        let decoded = decode(&self.buf[0..self.len]);
        assert(self.buf@.subrange(0, self.len as int) =~= frame);
        self.len = 0;
        assert(self.pending() =~= Seq::<u8>::empty());
        match decoded {
            Ok(p) => StreamEvent::Packet(p),
            Err(e) => StreamEvent::Rejected(e),
        }
    }

    /// Takes bytes from `stream` until a packet is complete. Returns how many
    /// bytes were taken, and the packet; without one, the whole of `stream` was
    /// taken.
    pub fn next_packet(&mut self, stream: &[u8]) -> (r: (usize, Option<IncomingPacket>))
        requires
            old(self).wf(),
        ensures
            final(self).wf(),
            ({
                let (taken, left, found) = first_packet(old(self).pending(), stream@);
                &&& r.0 == taken
                &&& final(self).pending() == left
                &&& match r.1 {
                    Some(p) => found == Some(p@),
                    None => found is None,
                }
            }),
    {
        let mut i: usize = 0;
        assert(stream@.skip(0) =~= stream@);
        while i < stream.len()
            invariant
                self.wf(),
                i <= stream@.len(),
                ({
                    let (taken, left, found) = first_packet(self.pending(), stream@.skip(i as int));
                    first_packet(old(self).pending(), stream@) == (taken + i, left, found)
                }),
            decreases stream@.len() - i,
        {
            let ghost rest = stream@.skip(i as int);
            let ghost held = self.pending();
            assert(rest[0] == stream@[i as int]);
            assert(stream@.skip(i + 1) =~= rest.drop_first());
            let event = self.push_byte(stream[i]);
            i = i + 1;
            match event {
                StreamEvent::Packet(p) => {
                    assert(first_packet(held, rest) == (1int, self.pending(), Some(p@)));
                    return (i, Some(p));
                },
                _ => {},
            }
        }
        (i, None)
    }
}

impl Default for PacketReassembler {
    fn default() -> (r: Self)
        ensures
            r.wf(),
            r.pending() == Seq::<u8>::empty(),
    {
        Self::new()
    }
}

/// What a byte leads to, by number. In front of a frame every byte but 0x01 is dropped
/// and named. The fifth byte completes the header: a length over 248 is named and the
/// header dropped, and otherwise the frame is as long as the header says, plus 8. Up to
/// its last byte everything is gathered. The last byte brings the verdict of the
/// decoder. Whenever something is not gathered, nothing is left pending.
pub proof fn law_bytes_lead_to_events(pending: Seq<u8>, b: u8)
    requires
        is_frame_start(pending),
        pending.len() < 256,
    ensures
        ({
            let frame = pending.push(b);
            let len = frame[3] * 256 + frame[4];
            let ev = event_on(pending, b);
            let after = pending_after(pending, b);
            &&& pending.len() == 0 && b != 0x01 ==> ev == EventView::Dropped(b) && after.len() == 0
            &&& pending.len() == 0 && b == 0x01 ==> ev is Gathering
            &&& 1 <= pending.len() < 4 ==> ev is Gathering
            &&& pending.len() == 4 && len > 248 ==> ev == EventView::TooLong(len as u16)
                && after.len() == 0
            &&& pending.len() >= 4 && len <= 248 && frame.len() < len + 8 ==> ev is Gathering
            &&& pending.len() >= 4 && len <= 248 && frame.len() == len + 8 ==> {
                &&& after.len() == 0
                &&& ev == match crate::packet::decode_fault(frame) {
                    Some(e) => EventView::Rejected(e),
                    None => EventView::Packet(crate::packet::packet_in(frame)),
                }
            }
            &&& ev is Gathering ==> after == frame
        }),
{
    if pending.len() >= 5 {
        assert(pending.push(b)[3] == pending[3] && pending.push(b)[4] == pending[4]);
    }
}

/// Every packet with at most 248 bytes that stands whole in a stream behind noise without
/// a 0x01 is the first packet found, whatever follows, and is found with its last byte.
pub proof fn law_packet_behind_noise_is_found(noise: Seq<u8>, p: PacketView, rest: Seq<u8>)
    requires
        forall|i: int| 0 <= i < noise.len() ==> noise[i] != 0x01,
        p.payload.len() <= 248,
    ensures
        ({
            let stream = noise + crate::packet::frame_of(p) + rest;
            let (taken, left, found) = first_packet(Seq::empty(), stream);
            &&& found == Some(p)
            &&& taken == noise.len() + p.payload.len() + 8
            &&& left.len() == 0
        }),
    decreases noise.len(),
{
    let frame = crate::packet::frame_of(p);
    let stream = noise + frame + rest;
    crate::packet::law_encode_then_decode(p);
    crate::bytes::law_be16_round_trip(p.payload.len() as u16, 0, 0);
    if noise.len() > 0 {
        assert(stream[0] == noise[0]);
        assert(stream.drop_first() =~= noise.drop_first() + frame + rest);
        law_packet_behind_noise_is_found(noise.drop_first(), p, rest);
    } else {
        assert(stream =~= frame.skip(0) + rest);
        assert(frame.take(0) =~= Seq::<u8>::empty());
        lemma_found_in_frame(p, 0, rest);
    }
}

proof fn lemma_found_in_frame(p: PacketView, k: int, rest: Seq<u8>)
    requires
        p.payload.len() <= 248,
        0 <= k < p.payload.len() + 8,
    ensures
        ({
            let frame = crate::packet::frame_of(p);
            let (taken, left, found) = first_packet(frame.take(k), frame.skip(k) + rest);
            found == Some(p) && taken == frame.len() - k && left.len() == 0
        }),
    decreases p.payload.len() + 8 - k,
{
    let frame = crate::packet::frame_of(p);
    crate::packet::law_encode_then_decode(p);
    crate::bytes::law_be16_round_trip(p.payload.len() as u16, 0, 0);
    let pending = frame.take(k);
    let stream = frame.skip(k) + rest;
    assert(stream[0] == frame[k]);
    assert(pending.push(stream[0]) =~= frame.take(k + 1));
    assert(stream.drop_first() =~= frame.skip(k + 1) + rest);
    if k + 1 < frame.len() {
        lemma_found_in_frame(p, k + 1, rest);
    } else {
        assert(frame.take(k + 1) =~= frame);
    }
}

/// What one byte does: outside a frame it is dropped unless it is 0x01, and begins a frame
/// then. Within a frame it is gathered until the frame is as long as its header says, eight
/// bytes more than the payload. A payload of more than 248 bytes is given up with the
/// header. Then nothing is left over.
pub proof fn law_byte_is_pushed(r: &mut PacketReassembler, b: u8, event: StreamEvent)
    requires
        old(r).wf(),
        call_ensures(PacketReassembler::push_byte, (r, b), event),
    ensures
        ({
            let before = old(r).pending();
            let frame = before.push(b);
            let n = frame.len() as int;
            let claimed = frame[3] * 256 + frame[4];
            &&& n == 1 && b != 0x01 ==> event == StreamEvent::Dropped(b)
            &&& (n == 1 && b == 0x01) || 1 < n < 5 ==> event is Gathering
            &&& n >= 5 && claimed > 248 ==> event@ == EventView::TooLong(claimed as u16)
            &&& n >= 5 && claimed <= 248 && n < claimed + 8 ==> event is Gathering
            &&& n >= 5 && claimed <= 248 && n >= claimed + 8 ==> event is Packet || event
                is Rejected
            &&& event is Gathering ==> final(r).pending() == frame
            &&& !(event is Gathering) ==> final(r).pending().len() == 0
        }),
{
}

/// A new reassembler has gathered nothing. Taking a packet from a stream takes all bytes
/// up to the end of its frame, and the whole stream if none is complete.
pub proof fn law_packet_is_taken(
    new: PacketReassembler,
    r: &mut PacketReassembler,
    stream: &[u8],
    got: (usize, Option<IncomingPacket>),
)
    requires
        old(r).wf(),
        call_ensures(PacketReassembler::new, (), new),
        call_ensures(PacketReassembler::next_packet, (r, stream), got),
    ensures
        new.pending().len() == 0,
        got.0 <= stream@.len(),
        got.1 is None ==> got.0 == stream@.len(),
        got.1 is None <==> packets(old(r).pending(), stream@).len() == 0,
        got.1 matches Some(p) ==> {
            &&& packets(old(r).pending(), stream@) == seq![p@] + packets(
                Seq::empty(),
                stream@.skip(got.0 as int),
            )
            &&& final(r).pending().len() == 0
        },
{
    law_first_packet_is_first(old(r).pending(), stream@);
    if got.1 is Some {
        assert(final(r).pending() =~= Seq::<u8>::empty());
    }
}

/// By default it starts as a new one does.
pub proof fn law_packet_reassembler_by_default(d: PacketReassembler)
    requires
        call_ensures(PacketReassembler::default, (), d),
    ensures
        d.pending().len() == 0,
{
}

} // verus!

//! Protocol dispatcher.
//!
//! Handles the packet commands that Stage 1 sends: `CAP_REQ`, `CAP_ACK`, `PING`,
//! `SEND_BLOCK`, `BLOCK_ACK` and `BLOCK_NAK`. One incoming packet leads to a
//! reply, to a silent change of state, or to nothing. There is no I/O here: the
//! caller moves bytes between the dispatcher and the parallel port.

pub mod block_server;
pub mod cap;
pub mod stage_blobs;

use vstd::prelude::*;

use crate::fixed_vec::{frame_extend, frame_new, payload_slice};
use crate::packet::commands::{
    CMD_BLOCK_ACK, CMD_BLOCK_NAK, CMD_CAP_ACK, CMD_CAP_REQ, CMD_CAP_RSP, CMD_PING, CMD_PONG,
    CMD_RECV_BLOCK, CMD_SEND_BLOCK,
};
use crate::packet::{encode, IncomingPacket, PacketView, MAX_PACKET};
use crate::protocol::block_server::{BlockServer, RECV_MAX_PAYLOAD};

verus! {

/// State of one session.
#[derive(Debug)]
pub struct SessionState {
    pub block_server: BlockServer,
    /// Sequence number of the next outgoing packet.
    pub tx_seq: u8,
    /// Sequence number expected on the next incoming packet. A gap does not drop
    /// the packet.
    pub rx_seq_expected: u8,
    /// Whether Stage 1 has finished the capability handshake.
    pub cap_acked: bool,
}

/// A session at its start.
pub open spec fn fresh_session() -> SessionState {
    SessionState {
        block_server: BlockServer { expected_block: 0 },
        tx_seq: 0,
        rx_seq_expected: 0,
        cap_acked: false,
    }
}

impl SessionState {
    /// A session at its start.
    pub fn new() -> (r: Self)
        ensures
            r == fresh_session(),
    {
        SessionState {
            block_server: BlockServer::new(),
            tx_seq: 0,
            rx_seq_expected: 0,
            cap_acked: false,
        }
    }

    /// Goes back to the start of a session.
    pub fn reset(&mut self)
        ensures
            *final(self) == fresh_session(),
    {
        self.block_server.reset();
        self.tx_seq = 0;
        self.rx_seq_expected = 0;
        self.cap_acked = false;
    }

    /// The sequence number for the next outgoing packet, which is then used up.
    fn next_seq(&mut self) -> (r: u8)
        ensures
            r == old(self).tx_seq,
            *final(self) == (SessionState {
                tx_seq: next_number(old(self).tx_seq),
                ..*old(self)
            }),
    {
        let s: u8 = self.tx_seq;
        self.tx_seq = self.tx_seq.wrapping_add(1);
        s
    }
}

impl Default for SessionState {
    fn default() -> (r: Self)
        ensures
            r == fresh_session(),
    {
        Self::new()
    }
}

/// The sequence number behind `n`.
pub open spec fn next_number(n: u8) -> u8 {
    if n == 255 {
        0
    } else {
        (n + 1) as u8
    }
}

/// Outcome of one incoming packet.
pub enum DispatchOutcome {
    /// These bytes go back to the host.
    Reply(heapless::Vec<u8, MAX_PACKET>),
    /// The command has no reply.
    Silent,
    /// The command was malformed or unknown.
    Ignored,
}

/// What a `DispatchOutcome` says.
pub enum OutcomeView {
    Reply(Seq<u8>),
    Silent,
    Ignored,
}

impl View for DispatchOutcome {
    type V = OutcomeView;

    open spec fn view(&self) -> OutcomeView {
        match *self {
            DispatchOutcome::Reply(v) => OutcomeView::Reply(crate::fixed_vec::frame_bytes(v)),
            DispatchOutcome::Silent => OutcomeView::Silent,
            DispatchOutcome::Ignored => OutcomeView::Ignored,
        }
    }
}

/// The packet that answers `p`, apart from its sequence number: command and
/// payload, or `None` if nothing is sent.
pub open spec fn answer_to(p: PacketView) -> Option<(u8, Seq<u8>)> {
    if p.cmd == CMD_CAP_REQ {
        Some((CMD_CAP_RSP, cap::cap_rsp_payload()))
    } else if p.cmd == CMD_PING {
        Some((CMD_PONG, p.payload))
    } else if p.cmd == CMD_SEND_BLOCK {
        match block_server::requested_block(p.payload) {
            Some(n) => match block_server::served_block(n) {
                Some(data) => Some((CMD_RECV_BLOCK, block_server::recv_payload(n, data))),
                None => None,
            },
            None => None,
        }
    } else {
        None
    }
}

/// Whether `p` is taken without a reply.
pub open spec fn is_silent(p: PacketView) -> bool {
    p.cmd == CMD_CAP_ACK || p.cmd == CMD_BLOCK_ACK || p.cmd == CMD_BLOCK_NAK
}

/// The session once `p` has been noted, before any reply is made.
pub open spec fn session_noting(s: SessionState, p: PacketView) -> SessionState {
    let seen = SessionState { rx_seq_expected: next_number(p.seq), ..s };
    if p.cmd == CMD_CAP_REQ {
        fresh_session()
    } else if p.cmd == CMD_CAP_ACK {
        SessionState { cap_acked: true, ..seen }
    } else if p.cmd == CMD_BLOCK_ACK {
        SessionState {
            block_server: BlockServer {
                expected_block: block_server::expected_after_ack(
                    s.block_server.expected_block,
                    p.payload,
                ),
            },
            ..seen
        }
    } else {
        seen
    }
}

/// The session after `p` has been handled.
pub open spec fn session_after(s: SessionState, p: PacketView) -> SessionState {
    let noted = session_noting(s, p);
    if answer_to(p) is Some {
        SessionState { tx_seq: next_number(noted.tx_seq), ..noted }
    } else {
        noted
    }
}

/// The outcome of handling `p` in the session `s`.
pub open spec fn outcome_of(s: SessionState, p: PacketView) -> OutcomeView {
    match answer_to(p) {
        Some((cmd, payload)) => OutcomeView::Reply(
            crate::packet::frame_of(
                PacketView { cmd, seq: session_noting(s, p).tx_seq, payload },
            ),
        ),
        None => if is_silent(p) {
            OutcomeView::Silent
        } else {
            OutcomeView::Ignored
        },
    }
}

/// Handles one incoming packet.
pub fn handle_packet(p: &IncomingPacket, state: &mut SessionState) -> (r: DispatchOutcome)
    ensures
        *final(state) == session_after(*old(state), p@),
        r@ == outcome_of(*old(state), p@),
{
    state.rx_seq_expected = p.seq.wrapping_add(1);
    if p.cmd == CMD_CAP_REQ {
        handle_cap_req(state)
    } else if p.cmd == CMD_CAP_ACK {
        state.cap_acked = true;
        DispatchOutcome::Silent
    } else if p.cmd == CMD_PING {
        handle_ping(p, state)
    } else if p.cmd == CMD_SEND_BLOCK {
        handle_send_block(p, state)
    } else if p.cmd == CMD_BLOCK_ACK {
        state.block_server.handle_ack(payload_slice(&p.payload));
        DispatchOutcome::Silent
    } else if p.cmd == CMD_BLOCK_NAK {
        DispatchOutcome::Silent
    } else {
        DispatchOutcome::Ignored
    }
}

/// A capability request starts the session over, as the bootstrap protocol
/// demands, and is answered with the capability response.
fn handle_cap_req(state: &mut SessionState) -> (r: DispatchOutcome)
    ensures
        *final(state) == (SessionState { tx_seq: 1, ..fresh_session() }),
        r@ == OutcomeView::Reply(
            crate::packet::frame_of(
                PacketView { cmd: CMD_CAP_RSP, seq: 0, payload: cap::cap_rsp_payload() },
            ),
        ),
{
    state.reset();
    let mut payload: [u8; cap::PAYLOAD_LEN] = [0;cap::PAYLOAD_LEN];
    let n: usize = cap::build_cap_rsp_payload(&mut payload);
    assert(payload@.subrange(0, n as int) =~= cap::cap_rsp_payload());
    encode_reply(CMD_CAP_RSP, state.next_seq(), &payload[0..n])
}

/// A ping is answered with its own payload.
fn handle_ping(p: &IncomingPacket, state: &mut SessionState) -> (r: DispatchOutcome)
    ensures
        *final(state) == (SessionState {
            tx_seq: next_number(old(state).tx_seq),
            ..*old(state)
        }),
        r@ == OutcomeView::Reply(
            crate::packet::frame_of(
                PacketView { cmd: CMD_PONG, seq: old(state).tx_seq, payload: p@.payload },
            ),
        ),
{
    encode_reply(CMD_PONG, state.next_seq(), payload_slice(&p.payload))
}

/// A block request is answered with the block, if it names one.
fn handle_send_block(p: &IncomingPacket, state: &mut SessionState) -> (r: DispatchOutcome)
    requires
        p.cmd == CMD_SEND_BLOCK,
    ensures
        match answer_to(p@) {
            Some((cmd, payload)) => {
                &&& *final(state) == (SessionState {
                    tx_seq: next_number(old(state).tx_seq),
                    ..*old(state)
                })
                &&& r@ == OutcomeView::Reply(
                    crate::packet::frame_of(PacketView { cmd, seq: old(state).tx_seq, payload }),
                )
            },
            None => *final(state) == *old(state) && r@ == OutcomeView::Ignored,
        },
{
    let block_no: u16 = match BlockServer::parse_send_block(payload_slice(&p.payload)) {
        Ok(n) => n,
        Err(_) => {
            return DispatchOutcome::Ignored;
        },
    };
    let mut payload: [u8; RECV_MAX_PAYLOAD] = [0;RECV_MAX_PAYLOAD];
    let n: usize = match state.block_server.build_recv_block(block_no, &mut payload) {
        Ok(n) => n,
        Err(_) => {
            return DispatchOutcome::Ignored;
        },
    };
    proof {
        block_server::law_served_block_fits(block_no);
        let data = block_server::served_block(block_no)->0;
        assert(payload@.subrange(0, n as int) =~= block_server::recv_payload(block_no, data));
    }
    encode_reply(CMD_RECV_BLOCK, state.next_seq(), &payload[0..n])
}

/// Frames a reply.
fn encode_reply(cmd: u8, seq: u8, payload: &[u8]) -> (r: DispatchOutcome)
    ensures
        r@ == if payload@.len() <= crate::packet::MAX_PAYLOAD {
            OutcomeView::Reply(
                crate::packet::frame_of(PacketView { cmd, seq, payload: payload@ }),
            )
        } else {
            OutcomeView::Ignored
        },
{
    let mut out: [u8; MAX_PACKET] = [0;MAX_PACKET];
    match encode(cmd, seq, payload, &mut out) {
        Ok(n) => {
            let mut v = frame_new();
            let _ = frame_extend(&mut v, &out[0..n]);
            proof {
                let frame = crate::packet::frame_of(PacketView { cmd, seq, payload: payload@ });
                crate::packet::law_encode_then_decode(PacketView { cmd, seq, payload: payload@ });
                assert(out@.subrange(0, n as int) =~= frame);
                assert(Seq::<u8>::empty() + frame =~= frame);
            }
            DispatchOutcome::Reply(v)
        },
        Err(_) => DispatchOutcome::Ignored,
    }
}

/// Every reply is a frame that decodes, to the answer that the request asks for.
/// It carries the session's sequence number, and the session goes on with the
/// next one. Without a reply no number is used up.
pub proof fn law_replies_decode(s: SessionState, p: PacketView)
    requires
        p.payload.len() <= crate::packet::MAX_PAYLOAD,
    ensures
        match outcome_of(s, p) {
            OutcomeView::Reply(frame) => {
                let q = crate::packet::packet_in(frame);
                &&& crate::packet::decode_fault(frame) is None
                &&& answer_to(p) == Some((q.cmd, q.payload))
                &&& q.seq == if p.cmd == CMD_CAP_REQ {
                    0
                } else {
                    s.tx_seq
                }
                &&& session_after(s, p).tx_seq == next_number(q.seq)
            },
            _ => answer_to(p) is None && session_after(s, p).tx_seq == s.tx_seq,
        },
{
    if let Some((cmd, payload)) = answer_to(p) {
        if p.cmd == CMD_SEND_BLOCK {
            block_server::law_served_block_fits(block_server::requested_block(p.payload)->0);
        }
        crate::packet::law_encode_then_decode(
            PacketView { cmd, seq: session_noting(s, p).tx_seq, payload },
        );
    }
}

/// A capability request leads to the same reply and the same session from every
/// state.
pub proof fn law_cap_req_starts_over(s: SessionState, t: SessionState, p: PacketView)
    requires
        p.cmd == CMD_CAP_REQ,
    ensures
        outcome_of(s, p) == outcome_of(t, p),
        session_after(s, p) == (SessionState { tx_seq: 1, ..fresh_session() }),
        session_after(t, p) == session_after(s, p),
{
}

/// A ping is echoed, from every state.
pub proof fn law_ping_is_echoed(s: SessionState, p: PacketView)
    requires
        p.cmd == CMD_PING,
    ensures
        outcome_of(s, p) == OutcomeView::Reply(
            crate::packet::frame_of(
                PacketView { cmd: CMD_PONG, seq: s.tx_seq, payload: p.payload },
            ),
        ),
{
}

/// Requesting a block changes nothing but the sequence numbers, so a block that
/// was refused by the host can be requested again and comes back the same.
pub proof fn law_block_can_be_requested_again(s: SessionState, p: PacketView)
    requires
        p.cmd == CMD_SEND_BLOCK,
    ensures
        ({
            let t = session_after(s, p);
            &&& t.block_server == s.block_server
            &&& t.cap_acked == s.cap_acked
            &&& match outcome_of(s, p) {
                OutcomeView::Reply(frame) => outcome_of(t, p) matches OutcomeView::Reply(again)
                    && again.len() == frame.len() && forall|i: int|
                    0 <= i < frame.len() && i != 2 && i < frame.len() - 3 ==> again[i]
                        == frame[i],
                _ => outcome_of(t, p) == outcome_of(s, p),
            }
        }),
{
}

/// An acknowledged block moves the expected block on by one, and a repeated
/// acknowledgement, like a refusal, moves nothing.
pub proof fn law_ack_moves_on_once(s: SessionState, ack: PacketView, again: PacketView)
    requires
        ack.cmd == CMD_BLOCK_ACK,
        again.cmd == CMD_BLOCK_ACK && again.payload == ack.payload || again.cmd == CMD_BLOCK_NAK,
    ensures
        ({
            let t = session_after(s, ack);
            &&& outcome_of(s, ack) == OutcomeView::Silent
            &&& block_server::requested_block(ack.payload) == Some(s.block_server.expected_block)
                && s.block_server.expected_block < u16::MAX ==> t.block_server.expected_block
                == s.block_server.expected_block + 1
            &&& session_after(t, again).block_server == t.block_server
            &&& outcome_of(t, again) == OutcomeView::Silent
        }),
{
    block_server::law_ack_is_idempotent(s.block_server.expected_block, ack.payload);
}

/// What is answered depends on the request and on the sequence number to use, and on
/// nothing else: a gap in the host's sequence numbers, a missing acknowledgement of
/// the capabilities and a block out of order do not keep a packet from being handled.
pub proof fn law_nothing_gates_a_request(s: SessionState, t: SessionState, p: PacketView)
    requires
        s.tx_seq == t.tx_seq,
    ensures
        outcome_of(s, p) == outcome_of(t, p),
        session_after(s, p).tx_seq == session_after(t, p).tx_seq,
        session_after(s, p).rx_seq_expected == session_after(t, p).rx_seq_expected,
{
}

/// The request for block `block_no`.
pub open spec fn block_request(block_no: u16, seq: u8) -> PacketView {
    PacketView { cmd: CMD_SEND_BLOCK, seq, payload: crate::bytes::be32(block_no as u32) }
}

/// The block data that the host takes out of a reply.
pub open spec fn data_in_reply(outcome: OutcomeView) -> Seq<u8> {
    match outcome {
        OutcomeView::Reply(frame) => crate::packet::packet_in(frame).payload.skip(
            block_server::RECV_HDR_LEN as int,
        ),
        _ => Seq::empty(),
    }
}

/// What the host has put together when it has requested one block after the other,
/// with any sequence numbers and whatever state the session was in each time.
pub open spec fn downloaded(states: Seq<SessionState>, seqs: Seq<u8>) -> Seq<u8>
    decreases states.len(),
{
    if states.len() == 0 {
        Seq::empty()
    } else {
        let k = (states.len() - 1) as u16;
        downloaded(states.drop_last(), seqs.drop_last()) + data_in_reply(
            outcome_of(states.last(), block_request(k, seqs.last())),
        )
    }
}

proof fn lemma_block_comes(s: SessionState, block_no: u16, seq: u8)
    ensures
        data_in_reply(outcome_of(s, block_request(block_no, seq))) == (
        match block_server::served_block(block_no) {
            Some(data) => data,
            None => Seq::<u8>::empty(),
        }),
{
    let p = block_request(block_no, seq);
    block_server::law_request_names_its_block(block_no);
    block_server::law_served_block_fits(block_no);
    law_replies_decode(s, p);
}

proof fn lemma_downloaded(states: Seq<SessionState>, seqs: Seq<u8>)
    requires
        states.len() == seqs.len() <= u16::MAX,
    ensures
        downloaded(states, seqs) == crate::block_source::joined_blocks(
            stage_blobs::STAGE2_PLACEHOLDER@,
            states.len(),
            block_server::BLOCK_SIZE as nat,
        ),
    decreases states.len(),
{
    if states.len() > 0 {
        let k = (states.len() - 1) as u16;
        lemma_downloaded(states.drop_last(), seqs.drop_last());
        lemma_block_comes(states.last(), k, seqs.last());
        let front = downloaded(states.drop_last(), seqs.drop_last());
        if block_server::served_block(k) is None {
            assert(front + Seq::<u8>::empty() =~= front);
        }
    }
}

/// A host that requests as many blocks as the announced size takes, in order, has the
/// image, of the size and with the CRC that the capability response announced.
pub proof fn law_download_is_as_announced(states: Seq<SessionState>, seqs: Seq<u8>)
    requires
        states.len() == seqs.len(),
        states.len() == (crate::bytes::from_be32(cap::cap_rsp_payload().subrange(28, 32))
            + block_server::BLOCK_SIZE - 1) / block_server::BLOCK_SIZE as int,
    ensures
        downloaded(states, seqs) == stage_blobs::STAGE2_PLACEHOLDER@,
        downloaded(states, seqs).len() == crate::bytes::from_be32(
            cap::cap_rsp_payload().subrange(28, 32),
        ),
        crate::packet::crc32::crc_of(downloaded(states, seqs)) == crate::bytes::from_be32(
            cap::cap_rsp_payload().subrange(32, 36),
        ),
{
    let image = stage_blobs::STAGE2_PLACEHOLDER@;
    crate::cap::law_cap_payload_fields(
        image.len() as int,
        crate::packet::crc32::crc_of(image),
        cap::ACTIVE_MODE_SPP,
    );
    lemma_downloaded(states, seqs);
    block_server::law_download_is_the_image();
}

/// Whether an outcome is a reply with this command and sequence number and a payload of
/// this length, with everything at its place in the frame.
pub open spec fn is_reply_of(outcome: OutcomeView, cmd: int, seq: int, len: int) -> bool {
    &&& outcome matches OutcomeView::Reply(f)
    &&& f.len() == len + 8
    &&& f[0] == 0x01 && f[1] == cmd && f[2] == seq
    &&& f[3] * 256 + f[4] == len
    &&& f[len + 7] == 0x03
}

/// The byte at position `i` of the payload of a reply.
pub open spec fn reply_byte(outcome: OutcomeView, i: int) -> u8 {
    outcome->Reply_0[5 + i]
}

proof fn lemma_reply(s: SessionState, p: PacketView)
    requires
        p.payload.len() <= 248,
    ensures
        answer_to(p) matches Some((cmd, payload)) ==> {
            let out = outcome_of(s, p);
            &&& payload.len() <= 248
            &&& is_reply_of(
                out,
                cmd as int,
                session_noting(s, p).tx_seq as int,
                payload.len() as int,
            )
            &&& forall|i: int|
                0 <= i < payload.len() ==> reply_byte(out, i) == #[trigger] payload[i]
        },
{
    if let Some((cmd, payload)) = answer_to(p) {
        if p.cmd == CMD_SEND_BLOCK {
            block_server::law_served_block_fits(block_server::requested_block(p.payload)->0);
        }
        let q = PacketView { cmd, seq: session_noting(s, p).tx_seq, payload };
        crate::packet::law_encode_then_decode(q);
        let out = outcome_of(s, p);
        assert forall|i: int| 0 <= i < payload.len() implies reply_byte(out, i)
            == #[trigger] payload[i] by {}
    }
}

/// A ping, 0x10, is answered with 0x11 and its own payload, byte for byte, whatever it
/// holds and however long it is. The session uses one sequence number up, and nothing
/// else of it changes but the number expected next.
#[verifier::rlimit(40)]
pub proof fn law_ping_by_number(s: SessionState, p: PacketView)
    requires
        p.cmd == 0x10,
        p.payload.len() <= 248,
    ensures
        is_reply_of(outcome_of(s, p), 0x11, s.tx_seq as int, p.payload.len() as int),
        forall|i: int|
            0 <= i < p.payload.len() ==> reply_byte(outcome_of(s, p), i) == #[trigger] p.payload[i],
        session_after(s, p).tx_seq == (s.tx_seq + 1) % 256,
        session_after(s, p).rx_seq_expected == (p.seq + 1) % 256,
        session_after(s, p).block_server == s.block_server,
        session_after(s, p).cap_acked == s.cap_acked,
{
    lemma_reply(s, p);
}

/// A capability request, 0x00, is answered with 0x0F, number 0 and 36 bytes: version 1.0,
/// mode 1 at 23, the size of the image at 28 and its CRC at 32, the high byte first, and
/// zeros elsewhere. The session starts over, with one number used up.
pub proof fn law_cap_req_by_number(s: SessionState, p: PacketView, crc: u32)
    requires
        p.cmd == 0x00,
        p.payload.len() <= 248,
        crc == crate::packet::crc32::crc_of(stage_blobs::STAGE2_PLACEHOLDER@),
    ensures
        ({
            let out = outcome_of(s, p);
            let t = session_after(s, p);
            let size = ((reply_byte(out, 28) * 256 + reply_byte(out, 29)) * 256 + reply_byte(
                out,
                30,
            )) * 256 + reply_byte(out, 31);
            let sum = ((reply_byte(out, 32) * 256 + reply_byte(out, 33)) * 256 + reply_byte(
                out,
                34,
            )) * 256 + reply_byte(out, 35);
            &&& is_reply_of(out, 0x0F, 0, 36)
            &&& reply_byte(out, 0) == 1 && reply_byte(out, 1) == 0 && reply_byte(out, 23) == 1
            &&& size == stage_blobs::STAGE2_PLACEHOLDER@.len()
            &&& sum == crc
            &&& forall|i: int|
                2 <= i < 28 && i != 23 ==> #[trigger] reply_byte(out, i) == 0
            &&& t.tx_seq == 1 && t.rx_seq_expected == 0
            &&& t.block_server.expected_block == 0 && !t.cap_acked
        }),
{
    lemma_reply(s, p);
    let payload = cap::cap_rsp_payload();
    let image = stage_blobs::STAGE2_PLACEHOLDER@;
    let out = outcome_of(s, p);
    crate::cap::law_payload_by_position(image.len() as int, crc, cap::ACTIVE_MODE_SPP);
    assert forall|i: int| 0 <= i < 36 implies #[trigger] reply_byte(out, i) == payload[i] by {}
}

proof fn lemma_block_reply(s: SessionState, p: PacketView, n: u16)
    requires
        p.cmd == 0x20,
        p.payload.len() <= 248,
        block_server::requested_block(p.payload) == Some(n),
        block_server::served_block(n) is Some,
    ensures
        ({
            let out = outcome_of(s, p);
            let image = stage_blobs::STAGE2_PLACEHOLDER@;
            let data = block_server::served_block(n)->0;
            &&& is_reply_of(out, 0x21, s.tx_seq as int, data.len() as int + 5)
            &&& reply_byte(out, 0) == 0 && reply_byte(out, 1) == 0
            &&& reply_byte(out, 2) * 256 + reply_byte(out, 3) == n
            &&& reply_byte(out, 4) == data.len()
            &&& forall|i: int|
                0 <= i < data.len() ==> #[trigger] reply_byte(out, 5 + i) == image[64 * n + i]
        }),
{
    lemma_reply(s, p);
    block_server::law_block_by_position(n);
    let data = block_server::served_block(n)->0;
    let out = outcome_of(s, p);
    let sent = block_server::recv_payload(n, data);
    assert(answer_to(p) == Some((0x21u8, sent)));
    assert forall|i: int| 0 <= i < sent.len() implies #[trigger] reply_byte(out, i)
        == sent[i] by {}
    assert forall|i: int| 0 <= i < data.len() implies #[trigger] reply_byte(out, 5 + i)
        == stage_blobs::STAGE2_PLACEHOLDER@[64 * n + i] by {
        assert(sent[5 + i] == data[i]);
    }
}

/// A request, 0x20, for a block that there is is answered with 0x21: the number of the
/// block in four bytes, the count, and the bytes of the image from 64 times the number
/// on. A request that names no block is ignored, and uses no number up.
pub proof fn law_block_by_number(s: SessionState, p: PacketView)
    requires
        p.cmd == 0x20,
        p.payload.len() <= 248,
    ensures
        ({
            let out = outcome_of(s, p);
            let t = session_after(s, p);
            let image = stage_blobs::STAGE2_PLACEHOLDER@;
            let n = p.payload[2] * 256 + p.payload[3];
            let count = if 64 * n + 64 <= image.len() {
                64
            } else {
                image.len() - 64 * n
            };
            &&& if p.payload.len() == 4 && p.payload[0] == 0 && p.payload[1] == 0 && 64 * n
                < image.len() {
                &&& is_reply_of(out, 0x21, s.tx_seq as int, 5 + count)
                &&& reply_byte(out, 0) == 0 && reply_byte(out, 1) == 0
                &&& reply_byte(out, 2) * 256 + reply_byte(out, 3) == n
                &&& reply_byte(out, 4) == count
                &&& forall|i: int|
                    0 <= i < count ==> #[trigger] reply_byte(out, 5 + i) == image[64 * n + i]
                &&& t.tx_seq == (s.tx_seq + 1) % 256
            } else {
                out is Ignored && t.tx_seq == s.tx_seq
            }
            &&& t.rx_seq_expected == (p.seq + 1) % 256
            &&& t.block_server == s.block_server && t.cap_acked == s.cap_acked
        }),
{
    if let Some(n) = block_server::requested_block(p.payload) {
        block_server::law_block_by_position(n);
        if block_server::served_block(n) is Some {
            lemma_block_reply(s, p, n);
        }
    }
}

/// The acknowledgements 0x0E and 0x22 and the refusal 0x23 are taken in silence. The first
/// notes that the handshake is done, the second moves the expected block on if it names
/// it, and the third changes nothing. Every command but these and 0x00, 0x10 and 0x20 is
/// ignored. None of this uses a sequence number up, and the next number to expect is
/// always the one behind that of the packet.
pub proof fn law_others_by_number(s: SessionState, p: PacketView)
    requires
        p.cmd != 0x00 && p.cmd != 0x10 && p.cmd != 0x20,
    ensures
        ({
            let out = outcome_of(s, p);
            let t = session_after(s, p);
            &&& out is Silent <==> p.cmd == 0x0E || p.cmd == 0x22 || p.cmd == 0x23
            &&& out is Silent || out is Ignored
            &&& t.tx_seq == s.tx_seq
            &&& t.rx_seq_expected == (p.seq + 1) % 256
            &&& t.cap_acked == (s.cap_acked || p.cmd == 0x0E)
            &&& p.cmd != 0x22 ==> t.block_server == s.block_server
            &&& p.cmd == 0x22 ==> t.block_server.expected_block == (if p.payload.len() == 4
                && p.payload[0] == 0 && p.payload[1] == 0 && p.payload[2] * 256 + p.payload[3]
                == s.block_server.expected_block && s.block_server.expected_block < 65535 {
                s.block_server.expected_block + 1
            } else {
                s.block_server.expected_block as int
            })
        }),
{
    block_server::law_only_the_expected_ack_counts(s.block_server.expected_block, p.payload);
}

/// A session begins with both numbers 0, block 0 expected, and no handshake done.
pub proof fn law_session_begins_at_zero(s: SessionState)
    requires
        call_ensures(SessionState::new, (), s),
    ensures
        s.tx_seq == 0 && s.rx_seq_expected == 0,
        s.block_server.expected_block == 0,
        !s.cap_acked,
{
}

/// Handling a packet does what the packet asks for: a ping is answered with its own
/// payload, a capability request and a block request with the capabilities and the block,
/// and everything else with nothing.
pub proof fn law_packet_is_handled(p: &IncomingPacket, s: &mut SessionState, r: DispatchOutcome)
    requires
        p@.payload.len() <= 248,
        call_ensures(handle_packet, (p, s), r),
    ensures
        p.cmd == 0x10 ==> is_reply_of(r@, 0x11, old(s).tx_seq as int, p@.payload.len() as int),
        p.cmd == 0x10 ==> forall|i: int|
            0 <= i < p@.payload.len() ==> reply_byte(r@, i) == #[trigger] p@.payload[i],
        p.cmd == 0x00 ==> is_reply_of(r@, 0x0F, 0, 36),
        p.cmd == 0x00 ==> final(s).tx_seq == 1 && final(s).rx_seq_expected == 0,
        p.cmd == 0x00 ==> !final(s).cap_acked && final(s).block_server.expected_block == 0,
        p.cmd != 0x00 ==> final(s).rx_seq_expected == (p.seq + 1) % 256,
        p.cmd != 0x00 ==> final(s).tx_seq == (if r@ is Reply {
            (old(s).tx_seq + 1) % 256
        } else {
            old(s).tx_seq as int
        }),
        p.cmd == 0x0E || p.cmd == 0x22 || p.cmd == 0x23 <==> r@ is Silent,
        r@ is Reply ==> p.cmd == 0x00 || p.cmd == 0x10 || p.cmd == 0x20,
        p.cmd == 0x0E ==> final(s).cap_acked,
        p.cmd != 0x00 && p.cmd != 0x0E ==> final(s).cap_acked == old(s).cap_acked,
        p.cmd != 0x00 && p.cmd != 0x22 ==> final(s).block_server == old(s).block_server,
        r@ == outcome_of(*old(s), p@) && *final(s) == session_after(*old(s), p@),
{
    let before = *old(s);
    let q = p@;
    if q.cmd == 0x10 {
        law_ping_by_number(before, q);
    } else if q.cmd == 0x00 {
        law_cap_req_by_number(
            before,
            q,
            crate::packet::crc32::crc_of(stage_blobs::STAGE2_PLACEHOLDER@),
        );
    } else if q.cmd == 0x20 {
        law_block_by_number(before, q);
    } else {
        law_others_by_number(before, q);
    }
}

/// A reset takes a session back to where a new one begins.
pub proof fn law_reset_starts_over(s: &mut SessionState)
    requires
        call_ensures(SessionState::reset, (s,), ()),
    ensures
        final(s).tx_seq == 0 && final(s).rx_seq_expected == 0 && !final(s).cap_acked,
        final(s).block_server.expected_block == 0,
{
}

/// By default it starts as a new one does.
pub proof fn law_session_state_by_default(d: SessionState)
    requires
        call_ensures(SessionState::default, (), d),
    ensures
        d.tx_seq == 0 && d.rx_seq_expected == 0 && !d.cap_acked,
        d.block_server.expected_block == 0,
{
}

} // verus!

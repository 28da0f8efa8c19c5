//! Events that the packet layers give rise to.

use vstd::prelude::*;

use crate::packet::commands::{
    CMD_BLOCK_ACK, CMD_BLOCK_NAK, CMD_CAP_ACK, CMD_CAP_REQ, CMD_PING, CMD_SEND_BLOCK,
};
use crate::packet::{DecodeError, IncomingPacket};
use crate::packet_stream::StreamEvent;
use crate::protocol::SessionState;
use crate::telemetry_schema::{Event, ResyncReason};

verus! {

/// Why the stream dropped bytes, if it did.
pub open spec fn reason_for(ev: crate::packet_stream::EventView) -> Option<ResyncReason> {
    match ev {
        crate::packet_stream::EventView::Dropped(_) => Some(ResyncReason::PreSohByte),
        crate::packet_stream::EventView::TooLong(_) => Some(ResyncReason::PayloadTooLong),
        crate::packet_stream::EventView::Rejected(DecodeError::BadCrc) => Some(
            ResyncReason::BadCrc,
        ),
        crate::packet_stream::EventView::Rejected(DecodeError::BadEtx) => Some(
            ResyncReason::BadEtx,
        ),
        crate::packet_stream::EventView::Rejected(_) => Some(ResyncReason::DecodeError),
        _ => None,
    }
}

/// Why the stream dropped bytes, if it did.
pub fn resync_reason(ev: &StreamEvent) -> (r: Option<ResyncReason>)
    ensures
        r == reason_for(ev@),
{
    match ev {
        StreamEvent::Dropped(_) => Some(ResyncReason::PreSohByte),
        StreamEvent::TooLong(_) => Some(ResyncReason::PayloadTooLong),
        StreamEvent::Rejected(DecodeError::BadCrc) => Some(ResyncReason::BadCrc),
        StreamEvent::Rejected(DecodeError::BadEtx) => Some(ResyncReason::BadEtx),
        StreamEvent::Rejected(_) => Some(ResyncReason::DecodeError),
        StreamEvent::Gathering => None,
        StreamEvent::Packet(_) => None,
    }
}

/// The event of a sequence number that was not expected.
pub fn seq_gap(p: &IncomingPacket, state: &SessionState) -> (r: Option<Event>)
    ensures
        r == if p.seq != state.rx_seq_expected {
            Some(Event::SeqGap { expected: state.rx_seq_expected, got: p.seq, cmd: p.cmd })
        } else {
            None
        },
{
    if p.seq != state.rx_seq_expected {
        Some(Event::SeqGap { expected: state.rx_seq_expected, got: p.seq, cmd: p.cmd })
    } else {
        None
    }
}

/// Whether the dispatcher knows a command.
pub open spec fn is_known(cmd: u8) -> bool {
    cmd == CMD_CAP_REQ || cmd == CMD_CAP_ACK || cmd == CMD_PING || cmd == CMD_SEND_BLOCK || cmd
        == CMD_BLOCK_ACK || cmd == CMD_BLOCK_NAK
}

/// The event of a command that nothing handles.
pub fn unknown_cmd(cmd: u8) -> (r: Option<Event>)
    ensures
        r == if is_known(cmd) {
            None
        } else {
            Some(Event::UnknownCmd { cmd })
        },
{
    if cmd == CMD_CAP_REQ || cmd == CMD_CAP_ACK || cmd == CMD_PING || cmd == CMD_SEND_BLOCK || cmd
        == CMD_BLOCK_ACK || cmd == CMD_BLOCK_NAK {
        None
    } else {
        Some(Event::UnknownCmd { cmd })
    }
}

/// A command that is not known is ignored by the dispatcher.
pub proof fn law_unknown_is_ignored(
    s: SessionState,
    p: crate::packet::PacketView,
)
    requires
        !is_known(p.cmd),
    ensures
        crate::protocol::outcome_of(s, p) == crate::protocol::OutcomeView::Ignored,
{
}

/// Every way in which the stream drops bytes has its reason, and what drops nothing has
/// none.
pub proof fn law_dropped_bytes_have_a_reason(ev: &StreamEvent, why: Option<ResyncReason>)
    requires
        call_ensures(resync_reason, (ev,), why),
    ensures
        why is None <==> ev is Gathering || ev is Packet,
        ev is Dropped <==> why == Some(ResyncReason::PreSohByte),
        ev is TooLong <==> why == Some(ResyncReason::PayloadTooLong),
        ev matches StreamEvent::Rejected(DecodeError::BadCrc) <==> why == Some(
            ResyncReason::BadCrc,
        ),
        ev matches StreamEvent::Rejected(DecodeError::BadEtx) <==> why == Some(
            ResyncReason::BadEtx,
        ),
{
}

/// A gap is reported exactly when the number is not the expected one, with both numbers
/// and the command. A command is reported as unknown exactly when it is none of the six
/// that are handled.
pub proof fn law_odd_packets_are_reported(
    p: &IncomingPacket,
    state: &SessionState,
    gap: Option<Event>,
    cmd: u8,
    unknown: Option<Event>,
)
    requires
        call_ensures(seq_gap, (p, state), gap),
        call_ensures(unknown_cmd, (cmd,), unknown),
    ensures
        gap is None <==> p.seq == state.rx_seq_expected,
        gap matches Some(e) ==> e == (Event::SeqGap {
            expected: state.rx_seq_expected,
            got: p.seq,
            cmd: p.cmd,
        }),
        unknown is None <==> cmd == 0x00 || cmd == 0x0E || cmd == 0x10 || cmd == 0x20 || cmd
            == 0x22 || cmd == 0x23,
        unknown matches Some(e) ==> e == (Event::UnknownCmd { cmd }),
{
}

} // verus!

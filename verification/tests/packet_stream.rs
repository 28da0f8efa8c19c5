//! Packets out of a byte stream.

use vintage_kvm::packet::{encode, DecodeError, MAX_PACKET};
use vintage_kvm::packet_stream::{PacketReassembler, StreamEvent};
use vintage_kvm::protocol::SessionState;
use vintage_kvm::telemetry::observe::{resync_reason, seq_gap, unknown_cmd};
use vintage_kvm::telemetry::{Event, ResyncReason};

fn frame(cmd: u8, seq: u8, payload: &[u8]) -> Vec<u8> {
    let mut out = [0u8; MAX_PACKET];
    let n = encode(cmd, seq, payload, &mut out).unwrap();
    out[..n].to_vec()
}

#[test]
fn packets_between_noise_come_out_in_order() {
    let mut stream: Vec<u8> = vec![0xFF, 0x00, 0x7E];
    stream.extend(frame(0x10, 1, b"first"));
    stream.extend([0x55, 0x03]);
    stream.extend(frame(0x10, 2, &[0x01, 0x01, 0x03]));
    stream.extend(frame(0x10, 3, &[]));
    stream.extend([0x20, 0x30]);
    let mut r = PacketReassembler::new();
    let mut seqs: Vec<u8> = vec![];
    let mut at = 0usize;
    loop {
        let (taken, found) = r.next_packet(&stream[at..]);
        at += taken;
        match found {
            Some(p) => seqs.push(p.seq),
            None => break,
        }
    }
    assert_eq!(seqs, vec![1, 2, 3]);
    assert_eq!(at, stream.len());
}

#[test]
fn packet_may_come_in_pieces() {
    let bytes = frame(0x20, 9, &[0, 0, 0, 4]);
    let mut r = PacketReassembler::default();
    for i in 0..bytes.len() - 1 {
        let (taken, found) = r.next_packet(&bytes[i..i + 1]);
        assert_eq!(taken, 1);
        assert!(found.is_none());
    }
    let (_, found) = r.next_packet(&bytes[bytes.len() - 1..]);
    let p = found.unwrap();
    assert_eq!(p.cmd, 0x20);
    assert_eq!(p.payload.as_slice(), &[0, 0, 0, 4]);
}

#[test]
fn damaged_frame_is_dropped_whole() {
    let mut stream = frame(0x10, 1, b"bad");
    let n = stream.len();
    stream[6] ^= 1;
    stream.extend(frame(0x10, 2, b"good"));
    let mut r = PacketReassembler::new();
    let (taken, found) = r.next_packet(&stream);
    assert_eq!(taken, stream.len());
    assert_eq!(found.unwrap().seq, 2);
    assert!(taken > n);
}

#[test]
fn events_byte_by_byte() {
    let mut r = PacketReassembler::new();
    assert!(matches!(r.push_byte(0x42), StreamEvent::Dropped(0x42)));
    for b in [0x01u8, 0x10, 0x00, 0x00] {
        assert!(matches!(r.push_byte(b), StreamEvent::Gathering));
    }
    let mut r = PacketReassembler::new();
    for b in [0x01u8, 0x10, 0x00, 0x01] {
        assert!(matches!(r.push_byte(b), StreamEvent::Gathering));
    }
    assert!(matches!(r.push_byte(0x00), StreamEvent::TooLong(0x100)));
    let mut bytes = frame(0x10, 0, b"x");
    let last = bytes.len() - 1;
    bytes[last] = 0x04;
    let mut event = StreamEvent::Gathering;
    for &b in &bytes {
        event = r.push_byte(b);
    }
    assert!(matches!(event, StreamEvent::Rejected(DecodeError::BadEtx)));
    bytes[last] = 0x03;
    for &b in &bytes {
        event = r.push_byte(b);
    }
    assert!(matches!(event, StreamEvent::Packet(_)));
}

#[test]
fn payload_limit_is_exact() {
    let mut r = PacketReassembler::new();
    for b in [0x01u8, 0x10, 0x00, 0x00] {
        r.push_byte(b);
    }
    assert!(matches!(r.push_byte(248), StreamEvent::Gathering));
    let mut r = PacketReassembler::new();
    for b in [0x01u8, 0x10, 0x00, 0x00] {
        r.push_byte(b);
    }
    assert!(matches!(r.push_byte(249), StreamEvent::TooLong(249)));
}

#[test]
fn reasons_of_dropped_bytes() {
    let cases = [
        (StreamEvent::Dropped(7), Some(ResyncReason::PreSohByte)),
        (StreamEvent::TooLong(999), Some(ResyncReason::PayloadTooLong)),
        (StreamEvent::Rejected(DecodeError::BadCrc), Some(ResyncReason::BadCrc)),
        (StreamEvent::Rejected(DecodeError::BadEtx), Some(ResyncReason::BadEtx)),
        (StreamEvent::Rejected(DecodeError::BadLen), Some(ResyncReason::DecodeError)),
        (StreamEvent::Gathering, None),
    ];
    for (event, reason) in cases {
        assert_eq!(resync_reason(&event), reason);
    }
}

#[test]
fn events_of_odd_packets() {
    let bytes = frame(0x77, 5, &[]);
    let p = vintage_kvm::packet::decode(&bytes).unwrap();
    let state = SessionState::new();
    assert!(matches!(
        seq_gap(&p, &state),
        Some(Event::SeqGap { expected: 0, got: 5, cmd: 0x77 })
    ));
    assert!(matches!(unknown_cmd(p.cmd), Some(Event::UnknownCmd { cmd: 0x77 })));
    assert!(unknown_cmd(0x20).is_none());
    let mut state = SessionState::new();
    state.rx_seq_expected = 5;
    assert!(seq_gap(&p, &state).is_none());
}

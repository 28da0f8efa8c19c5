//! Wire packets.

use vintage_kvm::packet::{
    commands, decode, encode, DecodeError, EncodeError, OutgoingPacket, MAX_PACKET, MAX_PAYLOAD,
    OVERHEAD,
};

#[test]
fn round_trip_empty() {
    let mut buf = [0u8; MAX_PACKET];
    let n = encode(commands::CMD_PING, 7, &[], &mut buf).unwrap();
    assert_eq!(n, OVERHEAD);
    let p = decode(&buf[..n]).unwrap();
    assert_eq!(p.cmd, commands::CMD_PING);
    assert_eq!(p.seq, 7);
    assert_eq!(p.payload.len(), 0);
}

#[test]
fn round_trip_payload() {
    let mut buf = [0u8; MAX_PACKET];
    let payload = b"hello";
    let n = encode(commands::CMD_PONG, 42, payload, &mut buf).unwrap();
    let p = decode(&buf[..n]).unwrap();
    assert_eq!(p.cmd, commands::CMD_PONG);
    assert_eq!(p.seq, 42);
    assert_eq!(p.payload.as_slice(), payload);
}

#[test]
fn corrupt_crc_rejected() {
    let mut buf = [0u8; MAX_PACKET];
    let n = encode(commands::CMD_PING, 0, b"x", &mut buf).unwrap();
    buf[n - 2] ^= 0xFF; // flip CRC low byte
    assert!(matches!(decode(&buf[..n]), Err(DecodeError::BadCrc)));
}

#[test]
fn corrupt_etx_rejected() {
    let mut buf = [0u8; MAX_PACKET];
    let n = encode(commands::CMD_PING, 0, b"x", &mut buf).unwrap();
    buf[n - 1] = 0xAA;
    assert!(matches!(decode(&buf[..n]), Err(DecodeError::BadEtx)));
}

#[test]
fn ping_frame_bytes() {
    let mut buf = [0u8; 16];
    let n = encode(0x10, 7, &[0xAB], &mut buf).unwrap();
    assert_eq!(n, 9);
    assert_eq!(&buf[..6], &[0x01, 0x10, 7, 0x00, 0x01, 0xAB]);
    assert_eq!(buf[8], 0x03);
    assert_eq!(&buf[9..], &[0u8; 7]);
}

#[test]
fn largest_payload_round_trips() {
    let payload = [0x5Au8; MAX_PAYLOAD];
    let mut buf = [0u8; MAX_PACKET];
    let n = encode(commands::CMD_RECV_BLOCK, 255, &payload, &mut buf).unwrap();
    assert_eq!(n, MAX_PACKET);
    let p = decode(&buf).unwrap();
    assert_eq!(p.payload.as_slice(), &payload[..]);
    assert_eq!(p.seq, 255);
}

#[test]
fn encode_errors() {
    let mut buf = [0x77u8; MAX_PACKET];
    assert!(matches!(
        encode(1, 2, &[0; MAX_PAYLOAD + 1], &mut buf),
        Err(EncodeError::PayloadOverflow)
    ));
    let mut small = [0x77u8; 10];
    assert!(matches!(
        encode(1, 2, b"abc", &mut small),
        Err(EncodeError::OutputTooSmall)
    ));
    assert_eq!(small, [0x77u8; 10]);
    assert_eq!(buf, [0x77u8; MAX_PACKET]);
}

#[test]
fn decode_errors() {
    let mut buf = [0u8; 16];
    let n = encode(commands::CMD_PING, 0, b"abc", &mut buf).unwrap();
    assert!(matches!(decode(&buf[..7]), Err(DecodeError::TooShort)));
    assert!(matches!(decode(&buf[..n - 1]), Err(DecodeError::BadLen)));
    assert!(matches!(decode(&buf[..n + 1]), Err(DecodeError::BadLen)));
    let mut bad = buf;
    bad[0] = 0x02;
    assert!(matches!(decode(&bad[..n]), Err(DecodeError::BadSoh)));
    let mut bad = buf;
    bad[3] = 0x01;
    assert!(matches!(
        decode(&bad[..n]),
        Err(DecodeError::PayloadOverflow)
    ));
    let mut bad = buf;
    bad[6] ^= 0x80;
    assert!(matches!(decode(&bad[..n]), Err(DecodeError::BadCrc)));
}

#[test]
fn damaged_body_is_rejected() {
    let mut buf = [0u8; 32];
    let n = encode(commands::CMD_PING, 9, b"vintage", &mut buf).unwrap();
    for at in 1..n - 4 {
        for damage in [1u16, 0x0100, 0x8001, 0xFFFF, 0x0180] {
            let mut bad = buf;
            bad[at] ^= (damage >> 8) as u8;
            bad[at + 1] ^= (damage & 0xFF) as u8;
            assert!(decode(&bad[..n]).is_err());
        }
    }
}

#[test]
fn outgoing_packet_holds_payload() {
    let p = OutgoingPacket::new(0x21, 4, b"data").unwrap();
    assert_eq!(p.cmd, 0x21);
    assert_eq!(p.seq, 4);
    assert_eq!(p.payload.as_slice(), b"data");
    let q = p.clone();
    assert_eq!(q.payload.as_slice(), b"data");
    assert!(OutgoingPacket::new(0, 0, &[0; MAX_PAYLOAD]).is_some());
    assert!(OutgoingPacket::new(0, 0, &[0; MAX_PAYLOAD + 1]).is_none());
}

#[test]
fn cloned_packet_is_equal() {
    let mut buf = [0u8; 32];
    let n = encode(commands::CMD_PONG, 3, b"copy me", &mut buf).unwrap();
    let p = decode(&buf[..n]).unwrap();
    let q = p.clone();
    assert_eq!(q.cmd, p.cmd);
    assert_eq!(q.seq, p.seq);
    assert_eq!(q.payload, p.payload);
}

#[test]
fn command_ids() {
    assert_eq!(commands::CMD_CAP_REQ, 0x00);
    assert_eq!(commands::CMD_CAP_RSP, 0x0F);
    assert_eq!(commands::CMD_CAP_ACK, 0x0E);
    assert_eq!(commands::CMD_PING, 0x10);
    assert_eq!(commands::CMD_PONG, 0x11);
    assert_eq!(commands::CMD_ERROR, 0x13);
    assert_eq!(commands::CMD_ACK, 0x15);
    assert_eq!(commands::CMD_NAK, 0x16);
    assert_eq!(commands::CMD_SEND_BLOCK, 0x20);
    assert_eq!(commands::CMD_RECV_BLOCK, 0x21);
    assert_eq!(commands::CMD_BLOCK_ACK, 0x22);
    assert_eq!(commands::CMD_BLOCK_NAK, 0x23);
    assert_eq!(OVERHEAD, 8);
}

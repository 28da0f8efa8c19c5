//! Sessions.

use vintage_kvm::block_source::SliceBlob;
use vintage_kvm::cap::{
    build_cap_rsp_payload, ACTIVE_MODE_SPP, PAYLOAD_LEN, VERSION_MAJOR, VERSION_MINOR,
};
use vintage_kvm::packet::commands::{
    CMD_ACK, CMD_BLOCK_ACK, CMD_BLOCK_NAK, CMD_CAP_ACK, CMD_CAP_REQ, CMD_CAP_RSP, CMD_PING,
    CMD_PONG, CMD_RECV_BLOCK, CMD_SEND_BLOCK,
};
use vintage_kvm::packet::{decode, encode, IncomingPacket, MAX_PACKET};
use vintage_kvm::protocol::block_server::{
    BlockError, BlockServer, RECV_HDR_LEN, RECV_MAX_PAYLOAD,
};
use vintage_kvm::protocol::stage_blobs::{stage2_crc32, STAGE2_PLACEHOLDER, STAGE2_SIZE};
use vintage_kvm::protocol::{cap, handle_packet, DispatchOutcome, SessionState};

const TEST_BLOB: &[u8] = b"abcdef";

#[test]
fn cap_payload_layout_matches_stage1_expectations() {
    let blob = SliceBlob::new(TEST_BLOB, 0xDEADBEEF);
    let mut buf = [0xAAu8; PAYLOAD_LEN];
    let n = build_cap_rsp_payload(&blob, ACTIVE_MODE_SPP, &mut buf);
    assert_eq!(n, PAYLOAD_LEN);
    assert_eq!(buf[0], VERSION_MAJOR);
    assert_eq!(buf[1], VERSION_MINOR);
    assert!(buf[2..23].iter().all(|&b| b == 0));
    assert_eq!(buf[23], ACTIVE_MODE_SPP);
    assert!(buf[24..28].iter().all(|&b| b == 0));
    let size = u32::from_be_bytes([buf[28], buf[29], buf[30], buf[31]]);
    assert_eq!(size as usize, TEST_BLOB.len());
    let crc = u32::from_be_bytes([buf[32], buf[33], buf[34], buf[35]]);
    assert_eq!(crc, 0xDEADBEEF);
}

#[test]
fn session_cap_payload_layout_matches_stage1_expectations() {
    let mut buf = [0xAAu8; cap::PAYLOAD_LEN];
    let n = cap::build_cap_rsp_payload(&mut buf);
    assert_eq!(n, cap::PAYLOAD_LEN);
    assert_eq!(buf[0], cap::VERSION_MAJOR);
    assert_eq!(buf[1], cap::VERSION_MINOR);
    // Reserved range must be zero
    assert!(buf[2..23].iter().all(|&b| b == 0));
    assert_eq!(buf[23], cap::ACTIVE_MODE_SPP);
    assert!(buf[24..28].iter().all(|&b| b == 0));
    // Size big-endian
    let size = u32::from_be_bytes([buf[28], buf[29], buf[30], buf[31]]);
    assert_eq!(size as usize, STAGE2_SIZE);
    // CRC big-endian
    let crc = u32::from_be_bytes([buf[32], buf[33], buf[34], buf[35]]);
    assert_eq!(crc, stage2_crc32());
}

#[test]
fn parses_block_no_be() {
    assert_eq!(
        BlockServer::parse_send_block(&[0, 0, 0x12, 0x34]).unwrap(),
        0x1234
    );
}

#[test]
fn rejects_high_bits_set() {
    assert!(BlockServer::parse_send_block(&[1, 0, 0, 0]).is_err());
    assert!(BlockServer::parse_send_block(&[0, 1, 0, 0]).is_err());
}

#[test]
fn rejects_wrong_payload_length() {
    assert!(BlockServer::parse_send_block(&[0, 0, 0]).is_err());
    assert!(BlockServer::parse_send_block(&[0, 0, 0, 0, 0]).is_err());
}

#[test]
fn first_block_contains_entire_placeholder() {
    let server = BlockServer::new();
    let mut buf = [0u8; RECV_MAX_PAYLOAD];
    let n = server.build_recv_block(0, &mut buf).unwrap();
    assert_eq!(n, RECV_HDR_LEN + STAGE2_SIZE);
    // Echoed block_no = 0
    assert_eq!(&buf[..4], &[0, 0, 0, 0]);
    assert_eq!(buf[4] as usize, STAGE2_SIZE);
}

#[test]
fn out_of_range_block_errors() {
    let server = BlockServer::new();
    let mut buf = [0u8; RECV_MAX_PAYLOAD];
    assert!(server.build_recv_block(1, &mut buf).is_err());
}

#[test]
fn ack_advances_expected() {
    let mut s = BlockServer::new();
    s.handle_ack(&[0, 0, 0, 0]);
    assert_eq!(s.expected_block, 1);
}

#[test]
fn ack_idempotent_on_repeat() {
    let mut s = BlockServer::new();
    s.handle_ack(&[0, 0, 0, 0]);
    s.handle_ack(&[0, 0, 0, 0]); // duplicate; should not advance again
    assert_eq!(s.expected_block, 1);
}

fn wrap_request(cmd: u8, seq: u8, payload: &[u8]) -> IncomingPacket {
    let mut out = [0u8; MAX_PACKET];
    let n = encode(cmd, seq, payload, &mut out).unwrap();
    decode(&out[..n]).unwrap()
}

#[test]
fn cap_req_produces_rsp_with_correct_size_and_crc() {
    let mut state = SessionState::new();
    let req = wrap_request(CMD_CAP_REQ, 0, &[]);
    let outcome = handle_packet(&req, &mut state);
    let bytes = match outcome {
        DispatchOutcome::Reply(b) => b,
        _ => panic!("expected reply"),
    };
    let rsp = decode(&bytes).unwrap();
    assert_eq!(rsp.cmd, CMD_CAP_RSP);
    assert_eq!(rsp.payload.len(), cap::PAYLOAD_LEN);
    assert_eq!(rsp.payload[0], cap::VERSION_MAJOR);
}

#[test]
fn ping_echoes_payload_as_pong() {
    let mut state = SessionState::new();
    let req = wrap_request(CMD_PING, 0, b"hello");
    let outcome = handle_packet(&req, &mut state);
    let bytes = match outcome {
        DispatchOutcome::Reply(b) => b,
        _ => panic!("expected reply"),
    };
    let rsp = decode(&bytes).unwrap();
    assert_eq!(rsp.cmd, CMD_PONG);
    assert_eq!(rsp.payload.as_slice(), b"hello");
}

#[test]
fn send_block_zero_returns_first_block() {
    let mut state = SessionState::new();
    let req = wrap_request(CMD_SEND_BLOCK, 0, &[0, 0, 0, 0]);
    let outcome = handle_packet(&req, &mut state);
    let bytes = match outcome {
        DispatchOutcome::Reply(b) => b,
        _ => panic!("expected reply"),
    };
    let rsp = decode(&bytes).unwrap();
    assert_eq!(rsp.cmd, CMD_RECV_BLOCK);
    // First 4 bytes echo block_no
    assert_eq!(&rsp.payload[..4], &[0, 0, 0, 0]);
}

#[test]
fn block_ack_advances_expected_block() {
    let mut state = SessionState::new();
    let req = wrap_request(CMD_BLOCK_ACK, 0, &[0, 0, 0, 0]);
    let outcome = handle_packet(&req, &mut state);
    assert!(matches!(outcome, DispatchOutcome::Silent));
    assert_eq!(state.block_server.expected_block, 1);
}

fn reply_to(cmd: u8, seq: u8, payload: &[u8], state: &mut SessionState) -> IncomingPacket {
    match handle_packet(&wrap_request(cmd, seq, payload), state) {
        DispatchOutcome::Reply(b) => decode(&b).unwrap(),
        _ => panic!("expected reply"),
    }
}

#[test]
fn cap_payload_leaves_the_rest_alone() {
    let blob = SliceBlob::new(TEST_BLOB, 1);
    let mut buf = [0xAAu8; PAYLOAD_LEN + 4];
    assert_eq!(build_cap_rsp_payload(&blob, 9, &mut buf), PAYLOAD_LEN);
    assert_eq!(buf[23], 9);
    assert_eq!(&buf[28..36], &[0, 0, 0, 6, 0, 0, 0, 1]);
    assert_eq!(&buf[36..], &[0xAA; 4]);
}

#[test]
fn bad_requests_are_told_apart() {
    assert!(matches!(
        BlockServer::parse_send_block(&[]),
        Err(BlockError::BadRequestPayload)
    ));
    let server = BlockServer::default();
    let mut buf = [0x55u8; RECV_MAX_PAYLOAD];
    assert!(matches!(
        server.build_recv_block(1, &mut buf),
        Err(BlockError::BlockOutOfRange)
    ));
    assert_eq!(buf, [0x55u8; RECV_MAX_PAYLOAD]);
}

#[test]
fn replies_are_numbered_in_order() {
    let mut state = SessionState::new();
    for i in 0..300u32 {
        let rsp = reply_to(CMD_PING, i as u8, b"n", &mut state);
        assert_eq!(rsp.seq, i as u8);
    }
    assert_eq!(state.rx_seq_expected, 44);
}

#[test]
fn cap_req_starts_over_from_any_state() {
    let mut state = SessionState::new();
    reply_to(CMD_PING, 0, b"a", &mut state);
    reply_to(CMD_PING, 1, b"b", &mut state);
    handle_packet(&wrap_request(CMD_CAP_ACK, 2, &[]), &mut state);
    handle_packet(&wrap_request(CMD_BLOCK_ACK, 3, &[0, 0, 0, 0]), &mut state);
    assert!(state.cap_acked);
    assert_eq!(state.block_server.expected_block, 1);
    let rsp = reply_to(CMD_CAP_REQ, 4, b"ignored", &mut state);
    assert_eq!(rsp.seq, 0);
    assert_eq!(rsp.cmd, CMD_CAP_RSP);
    assert_eq!(state.tx_seq, 1);
    assert_eq!(state.rx_seq_expected, 0);
    assert!(!state.cap_acked);
    assert_eq!(state.block_server.expected_block, 0);
}

#[test]
fn refused_block_comes_again() {
    let mut state = SessionState::default();
    let first = reply_to(CMD_SEND_BLOCK, 0, &[0, 0, 0, 0], &mut state);
    let nak = handle_packet(&wrap_request(CMD_BLOCK_NAK, 1, &[0, 0, 0, 0]), &mut state);
    assert!(matches!(nak, DispatchOutcome::Silent));
    assert_eq!(state.block_server.expected_block, 0);
    let again = reply_to(CMD_SEND_BLOCK, 2, &[0, 0, 0, 0], &mut state);
    assert_eq!(first.payload, again.payload);
    assert_eq!(again.seq, 1);
}

#[test]
fn download_gives_the_image() {
    let mut state = SessionState::new();
    let mut image: Vec<u8> = vec![];
    let mut n = 0u8;
    loop {
        let req = wrap_request(CMD_SEND_BLOCK, n, &[0, 0, 0, n]);
        match handle_packet(&req, &mut state) {
            DispatchOutcome::Reply(b) => {
                let rsp = decode(&b).unwrap();
                assert_eq!(rsp.cmd, CMD_RECV_BLOCK);
                assert_eq!(rsp.payload[4] as usize, rsp.payload.len() - RECV_HDR_LEN);
                image.extend_from_slice(&rsp.payload[RECV_HDR_LEN..]);
            }
            _ => break,
        }
        n += 1;
    }
    assert_eq!(image.as_slice(), &STAGE2_PLACEHOLDER[..]);
}

#[test]
fn unknown_and_malformed_commands_are_ignored() {
    let mut state = SessionState::new();
    let out = handle_packet(&wrap_request(CMD_ACK, 8, &[]), &mut state);
    assert!(matches!(out, DispatchOutcome::Ignored));
    assert_eq!(state.rx_seq_expected, 9);
    assert_eq!(state.tx_seq, 0);
    let out = handle_packet(&wrap_request(CMD_SEND_BLOCK, 9, &[1, 2]), &mut state);
    assert!(matches!(out, DispatchOutcome::Ignored));
    let out = handle_packet(&wrap_request(CMD_SEND_BLOCK, 9, &[0, 0, 0, 1]), &mut state);
    assert!(matches!(out, DispatchOutcome::Ignored));
    assert_eq!(state.tx_seq, 0);
}

#[test]
fn cap_rsp_tells_image() {
    let mut state = SessionState::new();
    let rsp = reply_to(CMD_CAP_REQ, 0, &[], &mut state);
    let crc = u32::from_be_bytes([
        rsp.payload[32],
        rsp.payload[33],
        rsp.payload[34],
        rsp.payload[35],
    ]);
    assert_eq!(crc, stage2_crc32());
    assert_eq!(rsp.payload[31] as usize, STAGE2_SIZE);
}

#[test]
fn ack_at_the_last_number_stays() {
    let mut s = BlockServer { expected_block: u16::MAX };
    s.handle_ack(&[0, 0, 0xFF, 0xFF]);
    assert_eq!(s.expected_block, u16::MAX);
    s.reset();
    assert_eq!(s.expected_block, 0);
}

#[test]
fn download_is_as_announced() {
    let mut state = SessionState::new();
    let cap = reply_to(CMD_CAP_REQ, 0, &[], &mut state);
    let size = u32::from_be_bytes([
        cap.payload[28],
        cap.payload[29],
        cap.payload[30],
        cap.payload[31],
    ]) as usize;
    let crc = u32::from_be_bytes([
        cap.payload[32],
        cap.payload[33],
        cap.payload[34],
        cap.payload[35],
    ]);
    let mut image: Vec<u8> = vec![];
    for k in 0..size.div_ceil(64) {
        let block = reply_to(CMD_SEND_BLOCK, 77, &(k as u32).to_be_bytes(), &mut state);
        assert_eq!(&block.payload[..4], &(k as u32).to_be_bytes());
        image.extend_from_slice(&block.payload[5..]);
    }
    assert_eq!(image.len(), size);
    assert_eq!(vintage_kvm::packet::crc32::compute(&image), crc);
}

#[test]
fn requests_are_not_gated() {
    let mut early = SessionState::new();
    let mut late = SessionState::new();
    late.cap_acked = true;
    late.rx_seq_expected = 200;
    late.block_server.expected_block = 9;
    let a = reply_to(CMD_SEND_BLOCK, 3, &[0, 0, 0, 0], &mut early);
    let b = reply_to(CMD_SEND_BLOCK, 3, &[0, 0, 0, 0], &mut late);
    assert_eq!(a.payload, b.payload);
    assert_eq!((a.cmd, a.seq), (b.cmd, b.seq));
    assert_eq!(early.rx_seq_expected, late.rx_seq_expected);
}

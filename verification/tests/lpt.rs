//! Parallel port.

use vintage_kvm::lpt::compat::{level_from_bit, NibbleLines, NibbleOutput, SppNibblePhy};
use vintage_kvm::lpt::epp::EppPhy;
use vintage_kvm::lpt::hardware::{
    data_bus_of, decode_data_word, decode_strobe_word, LptHardware,
};
use vintage_kvm::lpt::mux::LptMux;
use vintage_kvm::lpt::negotiator::{
    pin_level, start_xrv, status_masks, status_pins, terminate_lines, xrv, xrv_to_mode, Handshake,
    HandshakeStep, NegotiationError, Negotiator, NegotiatorIo, StatusLines,
};
use vintage_kvm::lpt::pio_byte_rev::{byte_rev_setup, pack_bytes, ByteRevProgram};
use vintage_kvm::lpt::pio_compat_in::{compat_in_setup, CompatInProgram};
use vintage_kvm::lpt::pio_dir_follower::{dir_follower_setup, DirFollowerProgram};
use vintage_kvm::lpt::pio_ecp::{ecp_fwd_setup, ecp_rev_setup, EcpFwdProgram, EcpRevProgram};
use vintage_kvm::lpt::pio_epp::{
    encode_forward_cmd, encode_reverse_cmd, epp_setup, EppProgram,
};
use vintage_kvm::lpt::pio_nibble_out::{
    nibble_out_setup, pack_batch, pack_byte, pack_nibble, NibbleOutProgram,
};
use vintage_kvm::lpt::programs::{programs_for, LptProgram};
use vintage_kvm::lpt::ring_dma::{arm, RingHandle};
use vintage_kvm::lpt::{LptError, LptMode};
use vintage_kvm::pio_config::{clock_divider, FifoJoin};

/// The nibble and the phase that the host reads off the five status pins.
fn host_reads(pins: u8) -> (u8, bool) {
    let nack = pins & 1;
    let busy = (pins >> 1) & 1;
    let perror = (pins >> 2) & 1;
    let select = (pins >> 3) & 1;
    let nfault = (pins >> 4) & 1;
    let status = (nfault << 3) | (select << 4) | (perror << 5) | (nack << 6) | (busy << 7);
    ((status >> 3) & 0x0F, status & 0x80 != 0)
}

#[test]
fn nibbles_reach_the_host() {
    for byte in 0..=255u8 {
        let word = pack_byte(byte);
        let first = host_reads((word & 0x1F) as u8);
        let second = host_reads(((word >> 5) & 0x1F) as u8);
        assert_eq!(first, (byte & 0x0F, true));
        assert_eq!(second, (byte >> 4, false));
        assert_eq!(word >> 10, 0);
    }
    assert_eq!(pack_nibble(0b1000, false), 0b00001);
    assert_eq!(pack_nibble(0b0001, true), 0b10010);
}

#[test]
fn batches() {
    assert_eq!(pack_batch(&[0x00, 0xFF]), vec![0x002, 0x3BF]);
    assert_eq!(pack_bytes(&[1, 2, 255]), vec![1, 2, 255]);
    assert_eq!(pack_batch(&[7; 256]).len(), 256);
}

#[test]
fn nibble_lines_by_hand() {
    let (mut out, idle) = NibbleOutput::new();
    assert_eq!(
        idle,
        NibbleLines { bit0: false, bit1: false, bit2: false, bit3: false, phase: false }
    );
    let (first, second) = out.send_byte(0xA5);
    assert_eq!(
        first,
        NibbleLines { bit0: true, bit1: false, bit2: true, bit3: false, phase: true }
    );
    assert_eq!(
        second,
        NibbleLines { bit0: false, bit1: true, bit2: false, bit3: true, phase: false }
    );
    assert!(!out.last_phase);
    assert!(out.present_nibble(0).phase);
    assert!(level_from_bit(0x80, 7));
    assert!(!level_from_bit(0x7F, 7));
}

#[test]
fn captured_bytes() {
    let raw = 0xA5u32 << 12;
    assert_eq!(data_bus_of(raw | 0xFFF), 0xA5);
    assert_eq!(decode_strobe_word((raw >> 11) & 0x1FF), 0xA5);
    assert_eq!(decode_strobe_word(0b1_0000_0001), 0x80);
    assert_eq!(decode_data_word(0xFFFF_FF42), 0x42);
}

#[test]
fn epp_commands() {
    assert_eq!(encode_forward_cmd(), 0);
    assert_eq!(encode_reverse_cmd(0xC3), 0xC300_0001);
}

#[test]
fn programs() {
    let p = CompatInProgram::new().program;
    assert_eq!(p.code, vec![0x2020, 0x4009, 0x20A0]);
    assert_eq!((p.wrap_source, p.wrap_target, p.side_set_bits), (2, 0, 0));
    let p = NibbleOutProgram::new().program;
    assert_eq!(p.code, vec![0x80A0, 0x6005, 0xA942, 0x6005, 0xA942]);
    let p = ByteRevProgram::new().program;
    assert_eq!(p.code, vec![0x90A0, 0x3020, 0x7008, 0xA442, 0x30A0]);
    assert_eq!((p.wrap_source, p.wrap_target, p.side_set_bits), (4, 0, 1));
    let p = DirFollowerProgram::new().program;
    assert_eq!(p.code, vec![0xA000]);
    let p = EcpFwdProgram::new().program;
    assert_eq!(p.code, vec![0x3020, 0x5009, 0xA242, 0x8020, 0x30A0]);
    let p = EcpRevProgram::new().program;
    assert_eq!(p.code, vec![0x90A0, 0x7008, 0x3014, 0xA242, 0x3094]);
    let p = EppProgram::new().program;
    assert_eq!(
        p.code,
        vec![
            0x90A0, 0x7021, 0x7077, 0x1029, 0x7008, 0x3014, 0xA442, 0x3094, 0x1000, 0x3014, 0x4008,
            0x8020, 0x2094, 0x1000
        ]
    );
    assert_eq!((p.wrap_source, p.wrap_target, p.side_set_bits), (13, 0, 1));
}

#[test]
fn settings() {
    let s = compat_in_setup(150_000_000);
    assert_eq!(s.divider, 256);
    assert_eq!((s.in_pins.base, s.in_pins.count), (11, 9));
    assert_eq!(s.fifo_join, FifoJoin::RxOnly);
    assert!(s.shift_in.auto_fill && !s.shift_in.right);
    let s = nibble_out_setup(150_000_000);
    assert_eq!(s.divider, 1500 * 256);
    assert_eq!((s.out_pins.base, s.out_pins.count), (23, 5));
    assert!(!s.idle_first.high);
    let s = byte_rev_setup(150_000_000);
    assert_eq!(s.divider, 3 * 256);
    assert_eq!((s.idle_first.high, s.idle_second.high), (true, false));
    let s = epp_setup(150_000_000);
    assert_eq!(s.divider, 5 * 256);
    assert_eq!((s.shift_in.threshold, s.shift_out.threshold), (8, 32));
    let s = ecp_fwd_setup(150_000_000);
    assert_eq!((s.side_pins.base, s.shift_in.threshold), (24, 9));
    let s = ecp_rev_setup(150_000_000);
    assert_eq!((s.side_pins.base, s.shift_out.threshold), (23, 8));
    let s = dir_follower_setup();
    assert_eq!((s.in_pins.base, s.out_pins.base, s.divider), (11, 29, 256));
    assert_eq!(clock_divider(125_000_000, 1_000_000), 32_000);
    assert_eq!(clock_divider(1, 3), 85);
}

#[test]
fn lpt_ring_reader() {
    let mut r = RingHandle::new(0x400);
    assert_eq!(r.try_pop(0x400), None);
    assert_eq!(r.try_pop(0x408), Some(0));
    assert_eq!(r.pending(0x408), 1);
    assert_eq!(r.try_pop(0x408), Some(1));
    assert_eq!(r.try_pop(0x408), None);
    assert_eq!(r.head(0x400 + 4 * 257), 1);
    r.resync(0x400);
    assert_eq!(r.try_pop(0x400), Some(255));
    let (t, r) = arm(0x5020_0020, 0x2000_0400);
    assert_eq!((t.channel, t.treq, t.ring_size_log2), (3, 4, 10));
    assert_eq!(r.pending(0x2000_0400), 0);
}

#[test]
fn mode_switching() {
    let mut mux = LptMux::new(LptHardware::new());
    assert_eq!(mux.current_mode(), LptMode::SppNibble);
    let (plan, outcome) = mux.switch_to(LptMode::SppNibble);
    assert_eq!(outcome, Ok(()));
    assert_eq!((plan.dismantle, plan.build), (LptMode::SppNibble, LptMode::SppNibble));
    assert_eq!((plan.dir, plan.hd), (false, false));
    for mode in [LptMode::Byte, LptMode::Epp, LptMode::Ecp] {
        let before = mux.current_mode();
        let (plan, outcome) = mux.switch_to(mode);
        assert_eq!(outcome, Ok(()));
        assert_eq!((plan.dismantle, plan.build), (before, mode));
        assert_eq!((plan.dir, plan.hd), (false, true));
        assert_eq!(mux.current_mode(), mode);
    }
    for mode in [LptMode::Spp, LptMode::EcpDma] {
        let (plan, outcome) = mux.switch_to(mode);
        assert_eq!(outcome, Err(LptError::ModeMismatch));
        assert_eq!(plan.build, LptMode::SppNibble);
        assert!(!plan.hd);
        assert_eq!(mux.current_mode(), LptMode::SppNibble);
    }
}

#[test]
fn words_by_mode() {
    let mut mux = LptMux::new(LptHardware::default());
    assert_eq!(mux.tx_words(&[0xFF]), vec![0x3BF]);
    assert_eq!(mux.rx_byte(0x102), 0x81);
    mux.switch_to(LptMode::Epp).1.unwrap();
    assert_eq!(mux.tx_words(&[0xFF]), vec![0xFF00_0001]);
    assert_eq!(mux.rx_byte(0x102), 0x02);
    mux.switch_to(LptMode::Byte).1.unwrap();
    assert_eq!(mux.tx_words(&[0xFF]), vec![0xFF]);
    mux.switch_to(LptMode::Ecp).1.unwrap();
    assert_eq!(mux.tx_words(&[0x12]), vec![0x12]);
    assert_eq!(mux.rx_byte(0x102), 0x81);
}

#[test]
fn hardware_is_shared_out() {
    let mut hw = LptHardware::new();
    let phy = EppPhy::build(&mut hw);
    assert!(!hw.parked_sm0 && !hw.parked_sm1 && !hw.parked_sm2 && !hw.parked_dma_ch4);
    assert!(hw.dir_follows);
    assert_eq!(phy.current_mode(), LptMode::Epp);
    phy.dismantle(&mut hw);
    assert_eq!(hw, LptHardware::new());
    let phy = SppNibblePhy::build(&mut hw);
    assert!(hw.parked_sm2 && !hw.parked_sm0);
    hw.set_data_direction(true);
    assert!(hw.dir);
    phy.dismantle(&mut hw);
    hw.set_transceiver_mode(LptMode::Ecp);
    assert!(hw.hd && !hw.dir);
}

#[test]
fn request_values() {
    assert_eq!(xrv_to_mode(xrv::NIBBLE), Some(LptMode::SppNibble));
    assert_eq!(xrv_to_mode(xrv::BYTE), Some(LptMode::Byte));
    assert_eq!(xrv_to_mode(xrv::ECP), Some(LptMode::Ecp));
    assert_eq!(xrv_to_mode(xrv::ECP_RLE), Some(LptMode::Ecp));
    assert_eq!(xrv_to_mode(xrv::EPP), Some(LptMode::Epp));
    assert_eq!(xrv_to_mode(xrv::EXT_LINK), None);
    assert_eq!(xrv_to_mode(0x02), None);
    assert_eq!((0..=255u8).filter(|&v| xrv_to_mode(v).is_some()).count(), 5);
}

#[test]
fn device_id_requests_are_refused() {
    assert_eq!(xrv_to_mode(0x04), None);
    assert_eq!((0..=255u8).filter(|&v| v & xrv::DEVICE_ID != 0).find_map(xrv_to_mode), None);
    let (mut h, _) = Handshake::begin(xrv::NIBBLE | xrv::DEVICE_ID, 0);
    assert_eq!(h.poll(false, false, 5), HandshakeStep::Again);
    assert_eq!(
        h.poll(true, false, 10),
        HandshakeStep::Drive(StatusLines { nack: true, perror: true, select: false, nfault: true })
    );
    assert_eq!(
        h.poll(true, true, 15),
        HandshakeStep::Done(Err(NegotiationError::UnsupportedXrv(0x04)))
    );
}

#[test]
fn early_release_abandons_the_handshake() {
    let (mut h, _) = Handshake::begin(xrv::BYTE, 0);
    assert_eq!(h.poll(true, true, 5), HandshakeStep::Done(Err(NegotiationError::Timeout)));
    assert_eq!(h.poll(false, true, 6), HandshakeStep::Wait);
    let (mut h, _) = Handshake::begin(xrv::BYTE, 0);
    assert_eq!(h.poll(false, false, 5), HandshakeStep::Again);
    assert_eq!(h.poll(true, true, 10), HandshakeStep::Done(Err(NegotiationError::Timeout)));
}

#[test]
fn programs_of_each_mode() {
    let nibble = programs_for(LptMode::SppNibble);
    assert_eq!((nibble.sm0, nibble.sm1), (LptProgram::CompatIn, Some(LptProgram::NibbleOut)));
    assert!(nibble.captures && nibble.sm2.is_none());
    let byte = programs_for(LptMode::Byte);
    assert_eq!((byte.sm0, byte.sm1), (LptProgram::CompatIn, Some(LptProgram::ByteRev)));
    assert!(byte.captures && byte.sm2.is_none());
    let epp = programs_for(LptMode::Epp);
    assert_eq!((epp.sm0, epp.sm1), (LptProgram::Epp, None));
    assert_eq!((epp.sm2, epp.captures), (Some(LptProgram::DirFollower), false));
    let ecp = programs_for(LptMode::Ecp);
    assert_eq!((ecp.sm0, ecp.sm1), (LptProgram::EcpFwd, Some(LptProgram::EcpRev)));
    assert!(!ecp.captures && ecp.sm2.is_none());
    let follower = LptProgram::DirFollower.assemble();
    assert_eq!((follower.code, follower.wrap_source), (vec![0xA000], 0));
    assert_eq!(LptProgram::CompatIn.assemble().code, CompatInProgram::new().program.code);
    assert_eq!(LptProgram::EcpRev.setup(150_000_000), ecp_rev_setup(150_000_000));
}

#[test]
fn handshake_of_a_polite_host() {
    let (mut h, first) = Handshake::begin(xrv::EPP, 1_000);
    assert_eq!(
        first,
        StatusLines { nack: false, perror: true, select: true, nfault: true }
    );
    assert_eq!(h.poll(true, false, 1_005), HandshakeStep::Wait);
    assert_eq!(h.poll(false, false, 1_010), HandshakeStep::Again);
    assert_eq!(h.poll(false, false, 1_010), HandshakeStep::Wait);
    assert_eq!(
        h.poll(true, false, 1_015),
        HandshakeStep::Drive(StatusLines { nack: true, perror: true, select: true, nfault: true })
    );
    assert_eq!(h.poll(true, false, 1_020), HandshakeStep::Wait);
    assert_eq!(h.poll(true, true, 1_025), HandshakeStep::Done(Ok(LptMode::Epp)));
}

#[test]
fn handshake_for_an_unsupported_mode() {
    let (mut h, _) = Handshake::begin(0x08, 0);
    assert_eq!(h.poll(false, false, 5), HandshakeStep::Again);
    assert_eq!(
        h.poll(true, false, 10),
        HandshakeStep::Drive(StatusLines { nack: true, perror: true, select: false, nfault: true })
    );
    assert_eq!(
        h.poll(true, true, 15),
        HandshakeStep::Done(Err(NegotiationError::UnsupportedXrv(0x08)))
    );
}

#[test]
fn handshake_times_out() {
    let (mut h, _) = Handshake::begin(xrv::ECP, 500);
    assert_eq!(h.poll(true, false, 100_500), HandshakeStep::Wait);
    assert_eq!(
        h.poll(true, false, 100_501),
        HandshakeStep::Done(Err(NegotiationError::Timeout))
    );
    let (mut h, _) = Handshake::begin(xrv::ECP, 0);
    h.poll(false, false, 50);
    assert_eq!(h.poll(false, false, 100_050), HandshakeStep::Wait);
    assert_eq!(
        h.poll(false, false, 100_051),
        HandshakeStep::Done(Err(NegotiationError::Timeout))
    );
}

struct Wires {
    nselectin: bool,
    nautofd: bool,
    ninit: bool,
    data: u8,
    status: Vec<(bool, bool, bool, bool)>,
}

impl NegotiatorIo for Wires {
    fn read_nstrobe(&self) -> bool {
        true
    }
    fn read_nselectin(&self) -> bool {
        self.nselectin
    }
    fn read_nautofd(&self) -> bool {
        self.nautofd
    }
    fn read_ninit(&self) -> bool {
        self.ninit
    }
    fn read_data_bus(&self) -> u8 {
        self.data
    }
    fn drive_status(&mut self, nack: bool, perror: bool, select: bool, nfault: bool) {
        self.status.push((nack, perror, select, nfault));
    }
    fn claim_status_pins(&mut self) {}
    fn release_status_pins(&mut self) {}
}

#[test]
fn negotiator_watches_lines() {
    let wires = Wires { nselectin: true, nautofd: false, ninit: true, data: 0x40, status: vec![] };
    let mut n = Negotiator::new(wires);
    assert_eq!(n.detect_start(), Some(0x40));
    assert!(!n.detect_terminate());
    n.io_mut().nautofd = true;
    assert_eq!(n.detect_start(), None);
    n.io_mut().nautofd = false;
    n.io_mut().nselectin = false;
    assert_eq!(n.detect_start(), None);
    n.io_mut().ninit = false;
    assert!(n.detect_terminate());
    let (answer, after) = terminate_lines();
    n.io_mut().drive_status(answer.nack, answer.perror, answer.select, answer.nfault);
    assert_eq!(n.io_mut().status, vec![(true, true, true, false)]);
    assert!(after.nfault);
    assert_eq!(start_xrv(true, false, 9), Some(9));
    assert_eq!(start_xrv(true, true, 9), None);
}

#[test]
fn status_pin_masks() {
    let s = StatusLines { nack: false, perror: true, select: true, nfault: true };
    assert_eq!(status_masks(s), (0x0E00_0000, 0x0080_0000));
    let s = StatusLines { nack: true, perror: false, select: false, nfault: false };
    assert_eq!(status_masks(s), (0x0080_0000, 0x0E00_0000));
    assert_eq!(status_pins(), [23, 24, 25, 26, 27]);
    assert!(pin_level(1 << 22, 22));
    assert!(!pin_level(!(1 << 22), 22));
}

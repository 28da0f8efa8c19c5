//! Keyboard and mouse channels.

use vintage_kvm::ps2::aux_oversampler::{self, AuxChannel, AuxOversampleProgram};
use vintage_kvm::ps2::injector::{
    at_keystroke, at_keystrokes, bootstrap_script, debug_script, estimated_seconds, xt_keystroke,
};
use vintage_kvm::ps2::mouse_input::{pack_packet, MouseBtn, MouseCmd, MouseState};
use vintage_kvm::ps2::oversampler::{self, KbdOversampleProgram, KbdOversampler};
use vintage_kvm::ps2::ring_dma::{arm, arm_aux, RingHandle, RING_WORDS};
use vintage_kvm::ps2::scancode::{ascii_to_set2, build_table};
use vintage_kvm::ps2::supervisor::{ChannelEvent, Supervisor};
use vintage_kvm::ps2::tx::{at_command, tx_setup, xt_command, TxProgram};
use vintage_kvm::ps2::Ps2Stats;
use vintage_kvm::ps2_framer::classifier::Event;
use vintage_kvm::ps2_framer::{pack_at_frame, pack_xt_frame, FrameKind};
use vintage_kvm::signatures::MachineClass;

/// Levels of clock and data, one pair per microsecond, for one packed frame.
fn waveform(word: u32, bits: u32) -> Vec<(bool, bool)> {
    let mut w: Vec<(bool, bool)> = vec![(true, true); 105];
    for i in 0..bits {
        let bit = (word >> i) & 1 != 0;
        w.extend(vec![(false, bit); 40]);
        w.extend(vec![(true, bit); 40]);
    }
    w.extend(vec![(true, true); 245]);
    w
}

fn kbd_words(wave: &[(bool, bool)]) -> Vec<u32> {
    wave.chunks(10)
        .map(|c| {
            let mut word = 0u32;
            for (i, &(clk, data)) in c.iter().enumerate() {
                word |= (clk as u32) << (3 * i);
                word |= (data as u32) << (3 * i + 2);
            }
            word
        })
        .collect()
}

fn aux_words(wave: &[(bool, bool)]) -> Vec<u32> {
    wave.chunks(7)
        .map(|c| {
            let mut word = 0u32;
            for i in 0..7usize {
                let (clk, data) = if i < c.len() { c[i] } else { (true, true) };
                word |= (clk as u32) << (4 * i);
                word |= (data as u32) << (4 * i + 3);
                word |= 0b0110 << (4 * i);
            }
            word
        })
        .collect()
}

#[test]
fn kbd_words_make_frames() {
    let mut ch = KbdOversampler::new();
    let mut frames = vec![];
    for word in kbd_words(&waveform(pack_at_frame(0x1C), 11)) {
        frames.extend(ch.process_word(word));
    }
    assert_eq!(frames.len(), 1);
    assert_eq!(frames[0].kind, FrameKind::At);
    assert_eq!(frames[0].data, 0x1C);
    assert_eq!(ch.counters.words, 123);
    assert_eq!(ch.t_us, 1230);
    assert_eq!(ch.counters.frames_total, 1);
    assert_eq!(ch.counters.frames_errored, 0);
    assert_eq!(ch.counters.glitches_total, 0);
    assert!(ch.counters.clk_active_words > 0);
    assert!(!ch.stall_check_due());
}

#[test]
fn kbd_counts_errors() {
    let mut ch = KbdOversampler::default();
    let bad = pack_at_frame(0x1C) ^ (1 << 9);
    for word in kbd_words(&waveform(bad, 11)) {
        ch.process_word(word);
    }
    assert_eq!(ch.counters.frames_total, 1);
    assert_eq!(ch.counters.frames_errored, 1);
    ch.counters.words = 2047;
    ch.process_word(0);
    assert!(ch.stall_check_due());
    ch.counters.count_overrun();
    assert_eq!(ch.counters.fifo_overrun, 1);
    ch.counters.words = u32::MAX;
    ch.process_word(0);
    assert_eq!(ch.counters.words, 0);
}

#[test]
fn clock_toggles_are_seen() {
    assert!(!oversampler::clk_toggled_in_word(0));
    assert!(!oversampler::clk_toggled_in_word(0x0924_9249));
    assert!(oversampler::clk_toggled_in_word(1));
    assert!(oversampler::clk_toggled_in_word(1 << 27));
    assert!(!oversampler::clk_toggled_in_word(1 << 28));
    assert!(!aux_oversampler::clk_toggled_in_word(0x0111_1111));
    assert!(aux_oversampler::clk_toggled_in_word(0x0011_1111));
    assert!(!aux_oversampler::clk_toggled_in_word(0x1666_6666));
}

#[test]
fn aux_words_make_frames_and_activity() {
    let mut ch = AuxChannel::new();
    let mut active = false;
    let mut frames = vec![];
    for word in aux_words(&waveform(pack_xt_frame(0x9C), 9)) {
        let (got, seen) = ch.process_word(word);
        frames.extend(got);
        active |= seen;
    }
    assert_eq!(frames.len(), 1);
    assert_eq!(frames[0].kind, FrameKind::Xt);
    assert_eq!(frames[0].data, 0x9C);
    assert!(active);
    let mut ch = AuxChannel::default();
    let mut active = false;
    for word in aux_words(&waveform(pack_at_frame(0x9C) ^ 0x400, 11)) {
        active |= ch.process_word(word).1;
    }
    assert_eq!(ch.counters.frames_errored, 1);
    assert!(!active);
}

#[test]
fn aux_poll_takes_waiting_words() {
    let mut ch = AuxChannel::new();
    let mut ring = RingHandle::new(0x2000_0000);
    assert_eq!(ch.poll(&mut ring, 0x2000_0000 + 12), vec![0, 1, 2]);
    assert_eq!(ch.poll(&mut ring, 0x2000_0000 + 12), Vec::<usize>::new());
    assert_eq!(ch.counters.fifo_overrun, 0);
    let slots = ch.poll(&mut ring, 0x2000_0000 + 4 * 2);
    assert_eq!(slots, vec![1]);
    assert_eq!(ch.counters.fifo_overrun, 1);
}

#[test]
fn ring_reader() {
    let mut r = RingHandle::new(0x1000);
    assert_eq!(r.head(0x1000 + 4 * 1030), 6);
    assert_eq!(r.pending(0x1000 + 40), 10);
    assert_eq!(r.drain(0x1000 + 40, 4), vec![0, 1, 2, 3]);
    assert_eq!(r.pending(0x1000 + 40), 6);
    r.resync(0x1000);
    assert_eq!(r.pending(0x1000), 1);
    assert_eq!(r.drain(0x1000 + 4, RING_WORDS), vec![1023, 0]);
}

#[test]
fn ring_transfers() {
    let (t, r) = arm(0x5030_0020, 0x2000_1000);
    assert_eq!(t.channel, 1);
    assert_eq!(t.treq, 12);
    assert_eq!(t.ring_size_log2, 12);
    assert_eq!(t.read_addr, 0x5030_0020);
    assert_eq!(t.chain_to, 1);
    assert_eq!(r.pending(0x2000_1004), 1);
    let (t, _) = arm_aux(1, 0x2000_2000);
    assert_eq!((t.channel, t.treq), (2, 14));
}

#[test]
fn sampler_programs() {
    let p = KbdOversampleProgram::new().program;
    assert_eq!(p.code, vec![0x4003]);
    assert_eq!((p.wrap_source, p.wrap_target, p.side_set_bits), (0, 0, 0));
    assert_eq!(AuxOversampleProgram::new().program.code, vec![0x4004]);
    let s = oversampler::kbd_oversample_setup(150_000_000);
    assert_eq!(s.divider, 150 * 256);
    assert_eq!((s.in_pins.base, s.in_pins.count), (2, 3));
    assert_eq!(s.shift_in.threshold, 30);
    let s = aux_oversampler::aux_oversample_setup(150_000_000);
    assert_eq!((s.in_pins.base, s.in_pins.count), (6, 4));
    assert_eq!(s.shift_in.threshold, 28);
}

#[test]
fn transmitter_program() {
    let p = TxProgram::new().program;
    assert_eq!(
        p.code,
        vec![0xE04A, 0x80A0, 0x6021, 0xE300, 0xA001, 0xE301, 0x0082, 0xE001]
    );
    assert_eq!((p.wrap_source, p.wrap_target, p.side_set_bits), (7, 0, 0));
    let s = tx_setup(150_000_000, 28, 10);
    assert_eq!(s.divider, 1500 * 256);
    assert_eq!((s.set_pins.base, s.out_pins.base), (28, 10));
    assert!(s.idle_first.high && s.idle_second.high);
}

#[test]
fn transmitter_commands() {
    let c = at_command(0x1C);
    assert_eq!(c.first, None);
    assert_eq!(c.word, pack_at_frame(0x1C));
    let c = xt_command(0x1E);
    assert_eq!(c.first, Some(0b111_00000_010_01000));
    assert_eq!(c.word, pack_xt_frame(0x1E));
}

#[test]
fn supervisor_ties_channels() {
    let mut kbd = KbdOversampler::new();
    let mut sup = Supervisor::new();
    let mut events = vec![];
    for _ in 0..3 {
        for word in kbd_words(&waveform(pack_at_frame(0x1C), 11)) {
            for frame in kbd.process_word(word) {
                events.extend(sup.handle(ChannelEvent::KbdFrame(frame)));
            }
        }
    }
    assert_eq!(events, vec![Event::Detected(MachineClass::At)]);
    assert_eq!(
        sup.handle(ChannelEvent::AuxActivity),
        Some(Event::Detected(MachineClass::Ps2))
    );
    assert_eq!(sup.handle(ChannelEvent::AuxActivity), None);
    assert_eq!(Supervisor::default().classifier.class(), None);
}

#[test]
fn scancodes() {
    assert_eq!(ascii_to_set2(b'a'), 0x1C);
    assert_eq!(ascii_to_set2(b'z'), 0x1A);
    assert_eq!(ascii_to_set2(b'0'), 0x45);
    assert_eq!(ascii_to_set2(b'\r'), 0x5A);
    assert_eq!(ascii_to_set2(b'\\'), 0x5D);
    assert_eq!(ascii_to_set2(b'A'), 0);
    let t = build_table();
    assert_eq!(t.iter().filter(|&&c| c != 0).count(), 51);
    for c in 0..128u8 {
        assert_eq!(t[c as usize], ascii_to_set2(c));
    }
    let mut codes: Vec<u8> = t.iter().copied().filter(|&c| c != 0).collect();
    codes.sort();
    codes.dedup();
    assert_eq!(codes.len(), 51);
}

#[test]
fn debug_session_text() {
    let bin: Vec<u8> = (0..20u8).map(|i| 0xF0u8.wrapping_add(i)).collect();
    let script = debug_script(&bin);
    let text: Vec<&str> = script.iter().map(|l| l.text.as_str()).collect();
    assert_eq!(
        text,
        vec![
            "debug\r",
            "e 100 f0 f1 f2 f3 f4 f5 f6 f7 f8 f9 fa fb fc fd fe ff\r",
            "e 110 00 01 02 03\r",
            "g 100\r",
        ]
    );
    let pauses: Vec<u64> = script.iter().map(|l| l.pause_ms).collect();
    assert_eq!(pauses, vec![500, 50, 50, 0]);
}

#[test]
fn debug_session_can_be_typed() {
    let bin = vec![0xABu8; 0xFEFF];
    let script = debug_script(&bin);
    assert_eq!(script.len(), 0xFF0 + 2);
    assert!(script[script.len() - 2].text.starts_with("e fff0 ab"));
    for line in &script {
        let keys = at_keystrokes(line.text.as_bytes());
        assert_eq!(keys.len(), 3 * line.text.len());
    }
}

#[test]
fn script_depends_on_class() {
    assert_eq!(bootstrap_script(MachineClass::Xt, b"abc").len(), 0);
    assert_eq!(bootstrap_script(MachineClass::At, b"abc").len(), 3);
    assert_eq!(bootstrap_script(MachineClass::Ps2, &[]).len(), 2);
}

#[test]
fn keystrokes() {
    assert_eq!(at_keystroke(0x1C), [0x1C, 0xF0, 0x1C]);
    assert_eq!(xt_keystroke(0x1E), [0x1E, 0x9E]);
    assert_eq!(at_keystrokes(b"aA1"), vec![0x1C, 0xF0, 0x1C, 0x16, 0xF0, 0x16]);
}

#[test]
fn typing_time() {
    assert_eq!(estimated_seconds(1635), 93);
    assert_eq!(estimated_seconds(0), 0);
}

#[test]
fn mouse_packets() {
    assert_eq!(pack_packet(0, 0, 0), [0x08, 0, 0]);
    assert_eq!(pack_packet(5, -1, 0x01), [0x29, 5, 0xFF]);
    assert_eq!(pack_packet(-256, 255, 0xFF), [0x1F, 0x00, 0xFF]);
    assert_eq!(pack_packet(-1000, 1000, 0), [0x18, 0x00, 0xFF]);
}

#[test]
fn mouse_buttons_are_sticky() {
    let mut m = MouseState::new();
    let left = MouseCmd::Button { btn: MouseBtn::Left, down: true };
    assert_eq!(m.handle(left), [0x09, 0, 0]);
    let middle = MouseCmd::Button { btn: MouseBtn::Middle, down: true };
    assert_eq!(m.handle(middle), [0x0D, 0, 0]);
    assert_eq!(m.handle(MouseCmd::Move { dx: 1, dy: 2 }), [0x0D, 1, 2]);
    let up = MouseCmd::Button { btn: MouseBtn::Left, down: false };
    assert_eq!(m.handle(up), [0x0C, 0, 0]);
    assert_eq!(MouseBtn::Right.mask(), 2);
    assert_eq!(MouseState::default().buttons, 0);
}

#[test]
fn stats_start_at_zero() {
    let s = Ps2Stats::default();
    assert_eq!((s.frames_total, s.glitches_total, s.skew_us), (0, 0, 0));
}

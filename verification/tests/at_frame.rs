//! Synthetic-wire tests for the framer state machine.
//!
//! Each test drives `Framer::ingest` with a sample sequence generated from
//! a high-level frame description. The simulator runs at 1 µs/sample and
//! uses an 80 µs nominal bit time (40 µs CLK low + 40 µs CLK high), which
//! sits in the middle of the spec'd 10–16.7 kHz range.

use vintage_kvm::ps2_framer::{FrameKind, Framer, Ps2Frame, GLITCH_THRESHOLD_US, IDLE_TIMEOUT_US};

const BIT_HALF_US: u32 = 40;
const POST_FRAME_IDLE_US: u32 = (IDLE_TIMEOUT_US + 50) as u32;

/// Compute odd-parity bit for AT/PS2 frame: parity = 1 iff data has even
/// number of 1s (so total ones across data+parity is odd).
fn odd_parity(byte: u8) -> u8 {
    if byte.count_ones() & 1 == 0 {
        1
    } else {
        0
    }
}

/// Drive an AT/PS2-shaped 11-bit frame: start(0) + 8 data LSB-first +
/// parity + stop(1). Returns the first frame the framer emits.
fn drive_at(framer: &mut Framer, byte: u8, t0: u64) -> (u64, Option<Ps2Frame>) {
    let bits = [
        0u8,
        (byte >> 0) & 1,
        (byte >> 1) & 1,
        (byte >> 2) & 1,
        (byte >> 3) & 1,
        (byte >> 4) & 1,
        (byte >> 5) & 1,
        (byte >> 6) & 1,
        (byte >> 7) & 1,
        odd_parity(byte),
        1,
    ];
    drive_frame(framer, &bits, t0)
}

/// Drive an XT-shaped 9-bit frame: start(1) + 8 data LSB-first.
fn drive_xt(framer: &mut Framer, byte: u8, t0: u64) -> (u64, Option<Ps2Frame>) {
    let bits = [
        1u8,
        (byte >> 0) & 1,
        (byte >> 1) & 1,
        (byte >> 2) & 1,
        (byte >> 3) & 1,
        (byte >> 4) & 1,
        (byte >> 5) & 1,
        (byte >> 6) & 1,
        (byte >> 7) & 1,
    ];
    drive_frame(framer, &bits, t0)
}

fn drive_frame(framer: &mut Framer, bits: &[u8], t0: u64) -> (u64, Option<Ps2Frame>) {
    let mut t = t0;
    let mut frame = None;

    // Idle high before frame.
    for _ in 0..100 {
        frame = frame.or(framer.ingest(true, true, t));
        t += 1;
    }

    // For each bit: CLK low for 40 µs with DATA at the bit value, then
    // CLK high for 40 µs.
    for &bit in bits {
        let data = bit != 0;
        for _ in 0..BIT_HALF_US {
            frame = frame.or(framer.ingest(false, data, t));
            t += 1;
        }
        for _ in 0..BIT_HALF_US {
            frame = frame.or(framer.ingest(true, data, t));
            t += 1;
        }
    }

    // Idle after frame to let timeout fire if the framer is waiting on
    // bit-count.
    for _ in 0..POST_FRAME_IDLE_US {
        frame = frame.or(framer.ingest(true, true, t));
        t += 1;
    }

    (t, frame)
}

// -------------------------------------------------------------------------
// AT / PS2 — 11-bit frames
// -------------------------------------------------------------------------

#[test]
fn at_round_trip_0x55() {
    let mut f = Framer::new();
    let (_, frame) = drive_at(&mut f, 0x55, 0);
    let frame = frame.expect("frame should emit");
    assert_eq!(frame.kind, FrameKind::At);
    assert_eq!(frame.data, 0x55);
    assert!(frame.parity_ok);
    assert!(frame.framing_ok);
    assert_eq!(frame.timing.glitch_count, 0);
}

#[test]
fn at_round_trip_0xaa() {
    let mut f = Framer::new();
    let (_, frame) = drive_at(&mut f, 0xAA, 0);
    let frame = frame.expect("frame should emit");
    assert_eq!(frame.data, 0xAA);
    assert!(frame.parity_ok);
    assert!(frame.framing_ok);
}

#[test]
fn at_round_trip_0xff() {
    let mut f = Framer::new();
    let (_, frame) = drive_at(&mut f, 0xFF, 0);
    let frame = frame.expect("frame should emit");
    assert_eq!(frame.data, 0xFF);
    assert!(frame.parity_ok);
    assert!(frame.framing_ok);
}

#[test]
fn at_round_trip_0x00() {
    let mut f = Framer::new();
    let (_, frame) = drive_at(&mut f, 0x00, 0);
    let frame = frame.expect("frame should emit");
    assert_eq!(frame.data, 0x00);
    assert!(frame.parity_ok);
    assert!(frame.framing_ok);
}

#[test]
fn at_scancode_set2_a_keycode_is_0x1c() {
    let mut f = Framer::new();
    let (_, frame) = drive_at(&mut f, 0x1C, 0);
    let frame = frame.expect("frame should emit");
    assert_eq!(frame.data, 0x1C);
    assert!(frame.parity_ok);
    assert!(frame.framing_ok);
}

#[test]
fn back_to_back_at_frames_both_emit() {
    let mut f = Framer::new();
    let (t, frame_a) = drive_at(&mut f, 0x12, 0);
    let (_, frame_b) = drive_at(&mut f, 0x34, t);
    assert_eq!(frame_a.unwrap().data, 0x12);
    assert_eq!(frame_b.unwrap().data, 0x34);
}

// -------------------------------------------------------------------------
// AT — error paths
// -------------------------------------------------------------------------

#[test]
fn at_bad_parity_is_flagged() {
    // Construct an 11-bit frame with the WRONG parity bit.
    let byte = 0x55u8;
    let wrong_parity = odd_parity(byte) ^ 1;
    let bits = [
        0u8,
        (byte >> 0) & 1,
        (byte >> 1) & 1,
        (byte >> 2) & 1,
        (byte >> 3) & 1,
        (byte >> 4) & 1,
        (byte >> 5) & 1,
        (byte >> 6) & 1,
        (byte >> 7) & 1,
        wrong_parity,
        1,
    ];
    let mut f = Framer::new();
    let (_, frame) = drive_frame(&mut f, &bits, 0);
    let frame = frame.expect("frame should still emit");
    assert_eq!(frame.data, byte);
    assert!(!frame.parity_ok, "parity_ok should be false");
    assert!(frame.framing_ok, "framing is intact");
}

#[test]
fn at_bad_stop_bit_is_flagged() {
    // Stop bit zero — framing error.
    let byte = 0x55u8;
    let bits = [
        0u8,
        (byte >> 0) & 1,
        (byte >> 1) & 1,
        (byte >> 2) & 1,
        (byte >> 3) & 1,
        (byte >> 4) & 1,
        (byte >> 5) & 1,
        (byte >> 6) & 1,
        (byte >> 7) & 1,
        odd_parity(byte),
        0, // bad stop
    ];
    let mut f = Framer::new();
    let (_, frame) = drive_frame(&mut f, &bits, 0);
    let frame = frame.expect("frame should emit");
    assert!(!frame.framing_ok);
}

// -------------------------------------------------------------------------
// XT — 9-bit frames (timeout-emitted)
// -------------------------------------------------------------------------

#[test]
fn xt_round_trip_0x55() {
    let mut f = Framer::new();
    let (_, frame) = drive_xt(&mut f, 0x55, 0);
    let frame = frame.expect("XT frame should emit on timeout");
    assert_eq!(frame.kind, FrameKind::Xt);
    assert_eq!(frame.data, 0x55);
    assert!(frame.framing_ok);
}

#[test]
fn xt_round_trip_0x1e_a_scancode_set1() {
    // Set 1 'A' = 0x1E.
    let mut f = Framer::new();
    let (_, frame) = drive_xt(&mut f, 0x1E, 0);
    let frame = frame.expect("XT frame should emit");
    assert_eq!(frame.data, 0x1E);
    assert!(frame.framing_ok);
}

// -------------------------------------------------------------------------
// Idle / partial frames
// -------------------------------------------------------------------------

#[test]
fn no_frame_when_clk_idle() {
    let mut f = Framer::new();
    let mut t = 0u64;
    let mut frame = None;
    for _ in 0..10_000 {
        frame = frame.or(f.ingest(true, true, t));
        t += 1;
    }
    assert!(frame.is_none());
}

#[test]
fn partial_frame_times_out_as_framing_error() {
    // Send only 5 bits then go idle — framer should emit a framing-error
    // frame so the dashboard observes the event.
    let bits = [0u8, 1, 0, 1, 1];
    let mut f = Framer::new();
    let (_, frame) = drive_frame(&mut f, &bits, 0);
    let frame = frame.expect("partial frame should still emit");
    assert_eq!(frame.kind, FrameKind::Invalid);
    assert!(!frame.framing_ok);
}

// -------------------------------------------------------------------------
// Glitch filter
// -------------------------------------------------------------------------

#[test]
fn short_clk_glitches_do_not_advance_bit_count() {
    // Walk a valid AT frame but interleave 1 µs CLK glitches between
    // real bit edges. The frame must still decode correctly and
    // glitch_count must be > 0.
    let byte = 0x55u8;
    let bits = [
        0u8,
        (byte >> 0) & 1,
        (byte >> 1) & 1,
        (byte >> 2) & 1,
        (byte >> 3) & 1,
        (byte >> 4) & 1,
        (byte >> 5) & 1,
        (byte >> 6) & 1,
        (byte >> 7) & 1,
        odd_parity(byte),
        1,
    ];

    let mut f = Framer::new();
    let mut t = 0u64;
    let mut frame = None;

    for _ in 0..100 {
        frame = frame.or(f.ingest(true, true, t));
        t += 1;
    }

    for &bit in &bits {
        let data = bit != 0;

        // CLK low half, with one 1 µs glitch HIGH 5 µs in.
        for k in 0..BIT_HALF_US {
            let clk = if k == 5 { true } else { false };
            frame = frame.or(f.ingest(clk, data, t));
            t += 1;
        }
        for _ in 0..BIT_HALF_US {
            frame = frame.or(f.ingest(true, data, t));
            t += 1;
        }
    }

    for _ in 0..POST_FRAME_IDLE_US {
        frame = frame.or(f.ingest(true, true, t));
        t += 1;
    }

    let frame = frame.expect("frame should still emit despite glitches");
    assert_eq!(frame.data, byte);
    assert!(frame.parity_ok);
    assert!(frame.framing_ok);
    // We inject 1 glitch per bit (the synthetic "HIGH for 1 µs in the
    // middle of CLK low") — should produce roughly 2 short transitions
    // per glitch (rising then falling).
    assert!(
        frame.timing.glitch_count > 0,
        "glitch_count should reflect injected noise, got {}",
        frame.timing.glitch_count
    );
}

#[test]
fn glitch_threshold_constant_is_4us() {
    // Documentation guard — the design picks 4 µs deliberately.
    assert_eq!(GLITCH_THRESHOLD_US, 4);
}

#[test]
fn even_frame_timing_is_measured() {
    let mut f = Framer::new();
    let (_, frame) = drive_at(&mut f, 0x3C, 0);
    let frame = frame.unwrap();
    assert_eq!(frame.start_timestamp_us, 100);
    assert_eq!(
        frame.timing.bit_periods_us,
        [80, 80, 80, 80, 80, 80, 80, 80, 80, 80, 0]
    );
    assert_eq!(frame.timing.clk_data_skew_us, 0);
}

#[test]
fn every_speed_that_can_be_followed() {
    for half in [4u64, 5, 25, 60, 99] {
        let mut f = Framer::default();
        let mut got = None;
        let mut t = 0u64;
        for _ in 0..10 {
            assert!(f.ingest(true, true, t).is_none());
            t += 1;
        }
        let bits = [false, true, false, true, true, false, false, true, false, true, true];
        for bit in bits {
            for k in 0..2 * half {
                got = got.or(f.ingest(k >= half, bit, t));
                t += 1;
            }
        }
        let frame = got.unwrap();
        assert_eq!(frame.data, 0x4D);
        assert!(frame.parity_ok && frame.framing_ok);
    }
}

#[test]
fn skew_is_negative_when_data_settles_first() {
    let mut f = Framer::new();
    let mut got = None;
    let mut t = 0u64;
    for _ in 0..100 {
        f.ingest(true, true, t);
        t += 1;
    }
    for _ in 0..7 {
        f.ingest(true, false, t);
        t += 1;
    }
    for _ in 0..3 {
        for k in 0..80 {
            got = got.or(f.ingest(k >= 40, false, t));
            t += 1;
        }
    }
    for _ in 0..250 {
        got = got.or(f.ingest(true, false, t));
        t += 1;
    }
    let frame = got.unwrap();
    assert_eq!(frame.kind, FrameKind::Invalid);
    assert_eq!(frame.timing.clk_data_skew_us, -7);
}

#[test]
fn long_settled_data_limits_skew() {
    let mut f = Framer::new();
    let mut got = None;
    let mut t = 0u64;
    for _ in 0..400 {
        f.ingest(true, true, t);
        t += 1;
    }
    for _ in 0..9 {
        for k in 0..80 {
            got = got.or(f.ingest(k >= 40, true, t));
            t += 1;
        }
    }
    for _ in 0..250 {
        got = got.or(f.ingest(true, true, t));
        t += 1;
    }
    let frame = got.unwrap();
    assert_eq!(frame.kind, FrameKind::Xt);
    assert_eq!(frame.data, 0xFF);
    assert_eq!(frame.timing.clk_data_skew_us, -128);
}

#[test]
fn nine_bits_with_low_start_are_invalid() {
    let bits = [0u8, 1, 0, 1, 1, 0, 0, 0, 1];
    let mut f = Framer::new();
    let (_, frame) = drive_frame(&mut f, &bits, 0);
    let frame = frame.unwrap();
    assert_eq!(frame.kind, FrameKind::Invalid);
    assert!(!frame.parity_ok && !frame.framing_ok);
    assert_eq!(frame.data, 0b1000_1101);
}

/// Eleven falls with the given data levels and times, the clock low for 5 µs each, with
/// the data line moving between the falls.
fn drive_falls(f: &mut Framer, bits: &[bool; 11], falls: &[u64; 11]) -> Ps2Frame {
    let mut last = None;
    for (i, (&bit, &t)) in bits.iter().zip(falls).enumerate() {
        assert!(last.is_none());
        last = f.ingest(false, bit, t);
        assert_eq!(last.is_some(), i == 10);
        assert!(f.ingest(false, !bit, t + 2).is_none());
        assert!(f.ingest(true, !bit, t + 5).is_none());
        assert!(f.ingest(true, bit, t + 7).is_none());
    }
    last.unwrap()
}

const UNEVEN: [u64; 11] = [0, 10, 209, 300, 309, 400, 599, 650, 700, 800, 999];
const BITS_0X35: [bool; 11] =
    [false, true, false, true, false, true, true, false, false, true, true];

#[test]
fn uneven_falls_make_one_frame() {
    let mut f = Framer::new();
    assert!(f.ingest(true, true, 0).is_none());
    let falls = UNEVEN.map(|t| t + 50);
    let frame = drive_falls(&mut f, &BITS_0X35, &falls);
    assert_eq!((frame.kind, frame.data), (FrameKind::At, 0x35));
    assert!(frame.parity_ok && frame.framing_ok);
    assert_eq!((frame.start_timestamp_us, frame.timing.glitch_count), (50, 0));
    assert_eq!(
        frame.timing.bit_periods_us,
        [10, 199, 91, 9, 91, 199, 51, 50, 100, 199, 0]
    );
    let mut bits = BITS_0X35;
    bits[9] = false;
    bits[10] = false;
    let frame = drive_falls(&mut f, &bits, &UNEVEN.map(|t| t + 2_000));
    assert_eq!(frame.data, 0x35);
    assert!(!frame.parity_ok && !frame.framing_ok);
}

#[test]
fn idle_gap_of_any_length_gives_a_frame_up() {
    for gap in [200, 201, 4_294_967_295, 4_294_967_296, 4_294_967_396] {
        let mut f = Framer::new();
        assert!(f.ingest(true, true, 0).is_none());
        assert!(f.ingest(false, false, 10).is_none());
        assert!(f.ingest(false, false, 209).is_none());
        let frame = f.ingest(false, false, 10 + gap).unwrap();
        assert_eq!(frame.kind, FrameKind::Invalid);
        assert!(!frame.parity_ok && !frame.framing_ok);
        assert_eq!(frame.start_timestamp_us, 10);
    }
}

#[test]
fn first_fall_after_a_long_rest_counts() {
    for start in [4, 4_294_967_295, 4_294_967_296, 8_589_934_594] {
        let mut f = Framer::new();
        assert!(f.ingest(true, true, 0).is_none());
        let frame = drive_falls(&mut f, &BITS_0X35, &UNEVEN.map(|t| t + start));
        assert_eq!((frame.data, frame.start_timestamp_us), (0x35, start));

        let mut f = Framer::new();
        assert!(f.ingest(true, true, 0).is_none());
        assert!(f.ingest(false, false, start).is_none());
        assert!(f.ingest(true, true, start + 199).is_none());
        assert_eq!(f.ingest(true, true, start + 200).unwrap().kind, FrameKind::Invalid);
    }
}

#[test]
fn clock_that_stays_low_ends_a_frame() {
    for n in 1..=10usize {
        for start in [false, true] {
            let mut f = Framer::new();
            assert!(f.ingest(true, true, 0).is_none());
            let mut t = 0;
            for i in 0..n {
                t = 100 + 50 * i as u64;
                assert!(f.ingest(false, if i == 0 { start } else { i % 2 == 0 }, t).is_none());
                if i + 1 < n {
                    assert!(f.ingest(true, true, t + 25).is_none());
                }
            }
            assert!(f.ingest(false, true, t + 199).is_none());
            let frame = f.ingest(false, true, t + 200).unwrap();
            assert_eq!(frame.start_timestamp_us, 100);
            let is_xt = n == 9 && start;
            assert_eq!((frame.parity_ok, frame.framing_ok), (is_xt, is_xt));
            assert_eq!(frame.kind, if is_xt { FrameKind::Xt } else { FrameKind::Invalid });
            if is_xt {
                assert_eq!(frame.data, 0b1010_1010);
            }
            assert!(f.ingest(true, true, t + 300).is_none());
            let falls = UNEVEN.map(|d| t + 304 + d);
            assert_eq!(drive_falls(&mut f, &BITS_0X35, &falls).data, 0x35);
        }
    }
}

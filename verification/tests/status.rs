//! Status light and telemetry.

use vintage_kvm::lifecycle::SupervisorState;
use vintage_kvm::status::animations::{for_state, rgb, Animation};
use vintage_kvm::status::neopixel::{color_for_phase, phase_duration, Light};
use vintage_kvm::telemetry::render::{render, Level};
use vintage_kvm::telemetry::{Event, MultiEmit, NoopEmit, ResyncReason, TelemetryEmit};

#[test]
fn light_of_some_states() {
    assert_eq!(for_state(SupervisorState::Boot), Animation::Solid(rgb(64, 0, 0)));
    assert_eq!(
        for_state(SupervisorState::ErrorRecoverable),
        Animation::Blink { color: rgb(64, 16, 0), on_ms: 125, off_ms: 125 }
    );
    assert_eq!(
        for_state(SupervisorState::FaultUnrecoverable),
        Animation::Blink { color: rgb(64, 0, 0), on_ms: 62, off_ms: 62 }
    );
    assert_eq!(for_state(SupervisorState::DpActive), Animation::Solid(rgb(0, 64, 0)));
}

#[test]
fn light_of_a_blink() {
    let a = Animation::Blink { color: rgb(1, 2, 3), on_ms: 30, off_ms: 40 };
    assert_eq!(color_for_phase(&a, true), rgb(1, 2, 3));
    assert_eq!(color_for_phase(&a, false), rgb(0, 0, 0));
    assert_eq!((phase_duration(&a, true), phase_duration(&a, false)), (30, 40));
    let s = Animation::Solid(rgb(9, 9, 9));
    assert_eq!(color_for_phase(&s, false), rgb(9, 9, 9));
    assert_eq!(phase_duration(&s, true), 60_000);
}

#[test]
fn light_blinks_in_time() {
    let (mut light, color) = Light::start(SupervisorState::Selftest);
    assert_eq!(color, rgb(64, 0, 0));
    let mut slept = 0u64;
    let mut changes: Vec<(u64, bool)> = vec![];
    for _ in 0..12 {
        slept += light.tick_ms();
        if let Some(c) = light.advance(SupervisorState::Selftest) {
            changes.push((slept, c != rgb(0, 0, 0)));
        }
    }
    assert_eq!(changes, vec![(125, false), (250, true), (375, false), (500, true)]);
}

#[test]
fn light_follows_state() {
    let (mut light, _) = Light::start(SupervisorState::Boot);
    assert_eq!(light.tick_ms(), 50);
    assert_eq!(light.advance(SupervisorState::Boot), None);
    assert_eq!(light.advance(SupervisorState::DpReady), Some(rgb(48, 0, 48)));
    assert_eq!(light.state, SupervisorState::DpReady);
    assert_eq!(light.remaining_ms, 60_000);
}

#[test]
fn lines_of_events() {
    let cases = [
        (
            Event::Boot { fw_version: "0.3.1", phase: 3 },
            Level::Info,
            "vintage-kvm firmware 0.3.1; phase=3",
        ),
        (
            Event::DownloadBegin {
                total_blocks: 1,
                expected_crc32: 0x00AB_CDEF,
                size_bytes: 4_294_967_295,
            },
            Level::Info,
            "LPT: Stage 2 download begin (size=4294967295 B, CRC-32=0x00ABCDEF, 1 blocks)",
        ),
        (
            Event::BlockAck { block_no: 10, running_crc32: 0xDEAD_BEEF },
            Level::Debug,
            "LPT blk 10 ACK; running CRC-32 = 0xDEADBEEF",
        ),
        (
            Event::DownloadComplete { crc_match: true, final_crc32: 1 },
            Level::Info,
            "LPT: Stage 2 download OK — CRC match (0x00000001)",
        ),
        (
            Event::DownloadComplete { crc_match: false, final_crc32: 0x20 },
            Level::Warn,
            "LPT: Stage 2 download FAIL — CRC mismatch (got 0x00000020)",
        ),
        (
            Event::SeqGap { expected: 0, got: 255, cmd: 0x0E },
            Level::Warn,
            "seq gap: expected 0, got 255 (cmd 0x0E)",
        ),
        (Event::UnknownCmd { cmd: 0xA5 }, Level::Warn, "unknown cmd 0xA5"),
        (
            Event::PacketStreamResync { reason: ResyncReason::BadEtx },
            Level::Warn,
            "packet stream resync: BadEtx",
        ),
        (Event::EncodeError, Level::Warn, "encode failed"),
    ];
    for (event, level, text) in cases {
        let (l, t) = render(&event);
        assert_eq!(l, level);
        assert_eq!(t, text);
    }
}

#[test]
fn sinks_can_be_combined() {
    let both = MultiEmit(NoopEmit, MultiEmit(NoopEmit, NoopEmit));
    both.emit(Event::EncodeError);
}

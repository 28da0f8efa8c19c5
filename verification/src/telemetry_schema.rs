//! Telemetry events.
//!
//! Every layer that observes something hands an event to a `TelemetryEmit`. What
//! becomes of the event is up to the implementation.

use vstd::prelude::*;

verus! {

/// Version of the event stream. It changes when an event changes in a way that old
/// readers cannot read; new events and new fields do not count.
pub const SCHEMA_VERSION: u8 = 1;

/// Physical port.
#[derive(Debug, Clone, Copy, PartialEq, Eq, Structural)]
pub enum Port {
    Kbd,
    Aux,
    Lpt,
}

/// Logical channel.
#[derive(Debug, Clone, Copy, PartialEq, Eq, Structural)]
pub enum Plane {
    Control,
    Data,
}

/// State of a logical channel.
#[derive(Debug, Clone, Copy, PartialEq, Eq, Structural)]
pub enum PlaneState {
    Active,
    Idle,
    IdlePlanned,
    Degraded,
    Fallback,
    NotApplicable,
}

/// Why bytes of a packet stream were dropped.
#[derive(Debug, Clone, Copy, PartialEq, Eq, Structural)]
pub enum ResyncReason {
    /// A byte came outside a packet.
    PreSohByte,
    /// The header claims too long a payload.
    PayloadTooLong,
    /// The CRC of a packet is wrong.
    BadCrc,
    /// The end mark of a packet is wrong.
    BadEtx,
    /// Something else is wrong with a packet.
    DecodeError,
}

/// What happened.
#[derive(Debug, Clone, Copy)]
pub enum Event {
    Boot { fw_version: &'static str, phase: u8 },
    DownloadBegin { total_blocks: u16, expected_crc32: u32, size_bytes: u32 },
    BlockAck { block_no: u16, running_crc32: u32 },
    /// The host's CRC is the one declared, or not.
    DownloadComplete { crc_match: bool, final_crc32: u32 },
    /// A packet came with another sequence number than expected.
    SeqGap { expected: u8, got: u8, cmd: u8 },
    UnknownCmd { cmd: u8 },
    PacketStreamResync { reason: ResyncReason },
    EncodeError,
}

/// A sink for events. It must not block, and it reports no errors.
pub trait TelemetryEmit {
    fn emit(&self, event: Event);
}

} // verus!

//! CRC engines in the DMA hardware.
//!
//! A DMA channel can run a CRC over the bytes that it copies. Both algorithms share
//! one channel, so the engine is set up anew for every computation.

use vstd::prelude::*;

use crate::packet::crc16;
use crate::packet::crc32;

verus! {

/// What the engine computes.
#[derive(Debug, Clone, Copy, PartialEq, Eq, Structural)]
pub enum SniffCalc {
    /// CRC-32 over bytes with their bits reversed.
    Crc32Reversed,
    /// CRC-16-CCITT.
    Crc16,
}

/// Settings of the engine.
#[derive(Debug, Clone, Copy, PartialEq, Eq, Structural)]
pub struct SniffSetup {
    pub calc: SniffCalc,
    /// Start value.
    pub init: u32,
    /// Whether the result is read with its bits reversed.
    pub out_rev: bool,
    /// Whether the result is read inverted.
    pub out_inv: bool,
}

/// Settings for CRC-32/IEEE.
pub fn crc32_setup() -> (r: SniffSetup)
    ensures
        r == (SniffSetup {
            calc: SniffCalc::Crc32Reversed,
            init: crc32::INIT,
            out_rev: true,
            out_inv: true,
        }),
{
    SniffSetup { calc: SniffCalc::Crc32Reversed, init: crc32::INIT, out_rev: true, out_inv: true }
}

/// Settings for CRC-16-CCITT.
pub fn crc16_setup() -> (r: SniffSetup)
    ensures
        r == (SniffSetup {
            calc: SniffCalc::Crc16,
            init: crc16::INIT as u32,
            out_rev: false,
            out_inv: false,
        }),
{
    SniffSetup { calc: SniffCalc::Crc16, init: crc16::INIT as u32, out_rev: false, out_inv: false }
}

proof fn lemma_low_half(raw: u32)
    by (bit_vector)
    ensures
        (raw & 0xFFFFu32) as u16 == raw % 0x1_0000,
{
}

/// The CRC-16 in the engine's result register.
pub fn crc16_result(raw: u32) -> (r: u16)
    ensures
        r == raw % 0x1_0000,
{
    proof {
        lemma_low_half(raw);
    }
    (raw & 0xFFFF) as u16
}

/// Whether the engine gave for `vector` what the software engines give.
pub fn self_test_passes(vector: &[u8], got32: u32, got16: u16) -> (r: bool)
    ensures
        r == (got32 == crc32::crc_of(vector@) && got16 == crc16::crc_of(vector@)),
{
    got32 == crc32::compute(vector) && got16 == crc16::compute(vector)
}

/// The engine is set up for the CRCs that the software engines compute: CRC-32 from
/// 0xFFFFFFFF over reversed bytes, read reversed and inverted, and CRC-16-CCITT from
/// 0xFFFF, read as it is, from the low half of the register.
pub proof fn law_engine_computes_the_same(s32: SniffSetup, s16: SniffSetup, raw: u32, sum: u16)
    requires
        call_ensures(crc32_setup, (), s32),
        call_ensures(crc16_setup, (), s16),
        call_ensures(crc16_result, (raw,), sum),
    ensures
        s32.calc == SniffCalc::Crc32Reversed && s32.init == 0xFFFF_FFFF && s32.out_rev
            && s32.out_inv,
        s16.calc == SniffCalc::Crc16 && s16.init == 0xFFFF && !s16.out_rev && !s16.out_inv,
        raw >= sum && (raw - sum) % 65536 == 0,
{
}

/// The self-test passes exactly when both results are those of the software.
pub proof fn law_self_test_wants_both(
    vector: &[u8],
    got32: u32,
    got16: u16,
    passes: bool,
    sum32: u32,
    sum16: u16,
)
    requires
        call_ensures(self_test_passes, (vector, got32, got16), passes),
        call_ensures(crc32::compute, (vector,), sum32),
        call_ensures(crc16::compute, (vector,), sum16),
    ensures
        passes <==> got32 == sum32 && got16 == sum16,
{
}

} // verus!

//! Extensibility request values: what the host asks for in a negotiation.

use vstd::prelude::*;

verus! {

/// Nibble mode in reverse.
pub const NIBBLE: u8 = 0x00;

/// Byte mode in reverse.
pub const BYTE: u8 = 0x01;

/// ECP without compression.
pub const ECP: u8 = 0x10;

/// ECP with run-length compression.
pub const ECP_RLE: u8 = 0x30;

/// EPP.
pub const EPP: u8 = 0x40;

/// Flag on one of the reverse modes: send the device id in place of data.
pub const DEVICE_ID: u8 = 0x04;

/// Another request value follows in the next negotiation.
pub const EXT_LINK: u8 = 0x80;

} // verus!

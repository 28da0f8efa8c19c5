//! Packet command ids, as they appear at offset 1 of a wire packet.

use vstd::prelude::*;

verus! {

pub const CMD_CAP_REQ: u8 = 0x00;

pub const CMD_CAP_RSP: u8 = 0x0F;

pub const CMD_CAP_ACK: u8 = 0x0E;

pub const CMD_PING: u8 = 0x10;

pub const CMD_PONG: u8 = 0x11;

pub const CMD_ERROR: u8 = 0x13;

pub const CMD_ACK: u8 = 0x15;

pub const CMD_NAK: u8 = 0x16;

pub const CMD_SEND_BLOCK: u8 = 0x20;

pub const CMD_RECV_BLOCK: u8 = 0x21;

pub const CMD_BLOCK_ACK: u8 = 0x22;

pub const CMD_BLOCK_NAK: u8 = 0x23;

/// The commands by number.
pub proof fn law_commands_by_number()
    ensures
        CMD_CAP_REQ == 0x00 && CMD_CAP_RSP == 0x0F && CMD_CAP_ACK == 0x0E,
        CMD_PING == 0x10 && CMD_PONG == 0x11 && CMD_ERROR == 0x13,
        CMD_ACK == 0x15 && CMD_NAK == 0x16,
        CMD_SEND_BLOCK == 0x20 && CMD_RECV_BLOCK == 0x21,
        CMD_BLOCK_ACK == 0x22 && CMD_BLOCK_NAK == 0x23,
{
}

} // verus!

//! DMA channel settings.

use vstd::prelude::*;

verus! {

/// A channel that moves the words of a receive FIFO into a ring, without end.
#[derive(Debug, Clone, Copy, PartialEq, Eq, Structural)]
pub struct RingTransfer {
    pub channel: u8,
    /// The FIFO. This address stays the same.
    pub read_addr: u32,
    /// The ring. This address moves on with every word and wraps around.
    pub write_addr: u32,
    /// Request line that paces the transfer.
    pub treq: u8,
    /// Logarithm of the ring's size in bytes.
    pub ring_size_log2: u8,
    /// Channel to start afterwards. A channel that names itself starts none.
    pub chain_to: u8,
}

/// The request line of the receive FIFO of state machine `sm` of block `pio`.
pub open spec fn rx_request(pio: int, sm: int) -> int {
    8 * pio + sm + 4
}

/// The request line of the receive FIFO of state machine `sm` of block `pio`.
pub fn rx_dreq(pio: u8, sm: u8) -> (r: u8)
    requires
        pio <= 2,
        sm <= 3,
    ensures
        r == rx_request(pio as int, sm as int),
{
    8 * pio + sm + 4
}

/// Every state machine has a request line of its own. The receive FIFOs of the first
/// block have lines 4 to 7, those of the second 12 to 15, and those of the third 20 to 23.
pub proof fn law_request_lines(pio: u8, sm: u8, line: u8)
    requires
        pio <= 2,
        sm <= 3,
        call_ensures(rx_dreq, (pio, sm), line),
    ensures
        pio == 0 ==> line == 4 + sm,
        pio == 1 ==> line == 12 + sm,
        pio == 2 ==> line == 20 + sm,
{
}

} // verus!

//! Reader side of the sample ring.
//!
//! A DMA channel writes sample words into a ring without end. The reader polls
//! the channel's write address and takes the words that are new since the last
//! poll. The ring holds about 10 ms of samples, five times the polling interval.

use vstd::prelude::*;

use crate::dma::{rx_dreq, RingTransfer};

verus! {

/// Words in the ring.
pub const RING_WORDS: usize = 1024;

/// The slot `n` steps behind `slot`.
pub open spec fn slot_after(slot: int, n: int) -> int {
    (slot + n) % RING_WORDS as int
}

/// The steps from slot `tail` to slot `head`.
pub open spec fn steps_between(tail: int, head: int) -> int {
    (head - tail) % RING_WORDS as int
}

/// The slot that a write address stands for.
pub open spec fn slot_at(base_addr: u32, waddr: u32) -> int {
    ((waddr - base_addr) / 4) % RING_WORDS as int
}

/// Keeps track of what has been read.
#[derive(Debug, Clone, Copy)]
pub struct RingHandle {
    base_addr: u32,
    last_tail: usize,
}

impl RingHandle {
    /// Address of the ring.
    pub closed spec fn base(&self) -> u32 {
        self.base_addr
    }

    /// The slot to be read next.
    pub closed spec fn tail(&self) -> int {
        self.last_tail as int
    }

    /// Whether the next slot lies in the ring.
    pub closed spec fn wf(&self) -> bool {
        self.last_tail < RING_WORDS
    }

    /// A reader at the start of a ring at `base_addr`.
    pub fn new(base_addr: u32) -> (r: Self)
        ensures
            r.wf(),
            r.base() == base_addr,
            r.tail() == 0,
    {
        RingHandle { base_addr, last_tail: 0 }
    }

    /// The slot that is written next, given the write address.
    pub fn head(&self, waddr: u32) -> (r: usize)
        requires
            self.base() <= waddr,
        ensures
            r == slot_at(self.base(), waddr),
            r < RING_WORDS,
    {
        ((waddr - self.base_addr) as usize / 4) % RING_WORDS
    }

    /// How many words are waiting.
    pub fn pending(&self, waddr: u32) -> (r: usize)
        requires
            self.wf(),
            self.base() <= waddr,
        ensures
            r == steps_between(self.tail(), slot_at(self.base(), waddr)),
            r < RING_WORDS,
    {
        (self.head(waddr) + RING_WORDS - self.last_tail) % RING_WORDS
    }

    /// Takes up to `max` waiting words: returns their slots, oldest first. A ring
    /// that is full to the last slot looks the same as an empty one.
    pub fn drain(&mut self, waddr: u32, max: usize) -> (r: Vec<usize>)
        requires
            old(self).wf(),
            old(self).base() <= waddr,
        ensures
            final(self).wf(),
            final(self).base() == old(self).base(),
            ({
                let waiting = steps_between(old(self).tail(), slot_at(old(self).base(), waddr));
                r@.len() == if waiting < max {
                    waiting
                } else {
                    max as int
                }
            }),
            forall|i: int| 0 <= i < r@.len() ==> r@[i] == slot_after(old(self).tail(), i),
            final(self).tail() == slot_after(old(self).tail(), r@.len() as int),
    {
        let pending: usize = self.pending(waddr);
        let n: usize = if pending < max {
            pending
        } else {
            max
        };
        let mut slots: Vec<usize> = Vec::new();
        let mut i: usize = 0;
        while i < n
            invariant
                i <= n,
                n < RING_WORDS,
                old(self).wf(),
                self.wf(),
                self.base() == old(self).base(),
                slots@.len() == i,
                forall|k: int| 0 <= k < i ==> slots@[k] == slot_after(old(self).tail(), k),
                self.tail() == slot_after(old(self).tail(), i as int),
            decreases n - i,
        {
            slots.push(self.last_tail);
            self.last_tail = (self.last_tail + 1) % RING_WORDS;
            i = i + 1;
        }
        slots
    }

    /// Skips ahead after an overrun to one slot behind the writer, which drops the
    /// oldest words.
    pub fn resync(&mut self, waddr: u32)
        requires
            old(self).base() <= waddr,
        ensures
            final(self).wf(),
            final(self).base() == old(self).base(),
            final(self).tail() == slot_after(
                slot_at(old(self).base(), waddr),
                RING_WORDS - 1,
            ),
    {
        self.last_tail = (self.head(waddr) + RING_WORDS - 1) % RING_WORDS;
    }
}

/// The transfer that fills the keyboard ring.
pub open spec fn arm_transfer(read_addr: u32, write_addr: u32) -> RingTransfer {
    RingTransfer {
        channel: 1,
        read_addr,
        write_addr,
        treq: crate::dma::rx_request(1, 0) as u8,
        ring_size_log2: 12,
        chain_to: 1,
    }
}

/// Sets up the transfer that fills the keyboard ring, and its reader. The ring has
/// to be aligned to its size.
pub fn arm(read_addr: u32, write_addr: u32) -> (r: (RingTransfer, RingHandle))
    requires
        write_addr as int % (4 * RING_WORDS) == 0,
    ensures
        r.0 == arm_transfer(read_addr, write_addr),
        r.1.wf(),
        r.1.base() == write_addr,
        r.1.tail() == 0,
{
    (
        RingTransfer {
            channel: 1,
            read_addr,
            write_addr,
            treq: rx_dreq(1, 0),
            ring_size_log2: 12,
            chain_to: 1,
        },
        RingHandle::new(write_addr),
    )
}

/// The transfer that fills the auxiliary ring.
pub open spec fn arm_aux_transfer(read_addr: u32, write_addr: u32) -> RingTransfer {
    RingTransfer {
        channel: 2,
        read_addr,
        write_addr,
        treq: crate::dma::rx_request(1, 2) as u8,
        ring_size_log2: 12,
        chain_to: 2,
    }
}

/// Sets up the transfer that fills the auxiliary ring, and its reader. The ring has
/// to be aligned to its size.
pub fn arm_aux(read_addr: u32, write_addr: u32) -> (r: (RingTransfer, RingHandle))
    requires
        write_addr as int % (4 * RING_WORDS) == 0,
    ensures
        r.0 == arm_aux_transfer(read_addr, write_addr),
        r.1.wf(),
        r.1.base() == write_addr,
        r.1.tail() == 0,
{
    (
        RingTransfer {
            channel: 2,
            read_addr,
            write_addr,
            treq: rx_dreq(1, 2),
            ring_size_log2: 12,
            chain_to: 2,
        },
        RingHandle::new(write_addr),
    )
}

/// The next slot of a reader always lies in the ring.
pub proof fn law_tail_is_in_ring(h: RingHandle)
    requires
        h.wf(),
    ensures
        0 <= h.tail() < RING_WORDS,
{
}

/// When all waiting words are taken, none is left, and the slots taken run from
/// the next one up to the writer without a gap or a repetition.
pub proof fn law_drain_catches_up(tail: int, head: int)
    requires
        0 <= tail < RING_WORDS,
        0 <= head < RING_WORDS,
    ensures
        ({
            let n = steps_between(tail, head);
            &&& 0 <= n < RING_WORDS
            &&& slot_after(tail, n) == head
            &&& steps_between(slot_after(tail, n), head) == 0
            &&& forall|i: int, j: int|
                0 <= i < j < n ==> #[trigger] slot_after(tail, i) != #[trigger] slot_after(tail, j)
            &&& forall|i: int| 0 <= i < n ==> #[trigger] slot_after(tail, i) != head
        }),
{
}

/// After a resync exactly one word is waiting.
pub proof fn law_resync_leaves_one(head: int)
    requires
        0 <= head < RING_WORDS,
    ensures
        steps_between(slot_after(head, RING_WORDS - 1), head) == 1,
{
}

/// The writer's slot is its distance from the start of the ring in words of four bytes,
/// and goes from 1023 to 0. The words that wait are those from the reader's slot up to
/// it.
pub proof fn law_slots_by_number(h: RingHandle, waddr: u32, head: usize, waiting: usize)
    requires
        h.wf(),
        h.base() <= waddr,
        call_ensures(RingHandle::head, (&h, waddr), head),
        call_ensures(RingHandle::pending, (&h, waddr), waiting),
    ensures
        waddr < h.base() + 4096 ==> head == (waddr - h.base()) / 4,
        head == ((waddr - h.base()) / 4) % 1024,
        waiting == (if h.tail() <= head {
            head - h.tail()
        } else {
            head + 1024 - h.tail()
        }),
        head == slot_at(h.base(), waddr) && waiting == steps_between(h.tail(), head as int),
        0 <= h.tail() < 1024,
{
}

/// The slot behind 1023 is 0, and otherwise the next number. A slot that is `n` steps on
/// is `n` such steps on.
pub proof fn law_next_slot(slot: int, n: int)
    requires
        0 <= slot < 1024,
        0 <= n < 1024,
    ensures
        slot_after(slot, 0) == slot,
        slot_after(slot, 1) == (if slot == 1023 {
            0
        } else {
            slot + 1
        }),
        slot_after(slot, n) == (if slot + n < 1024 {
            slot + n
        } else {
            slot + n - 1024
        }),
{
}

/// The keyboard ring is filled by channel 1 at the pace of request 12, and the auxiliary
/// ring by channel 2 at the pace of request 14. Both wrap at 4096 bytes and start
/// themselves over, and their readers begin at the start.
pub proof fn law_transfers_by_number(
    read_addr: u32,
    write_addr: u32,
    kbd: (RingTransfer, RingHandle),
    aux: (RingTransfer, RingHandle),
)
    requires
        write_addr % 4096 == 0,
        call_ensures(arm, (read_addr, write_addr), kbd),
        call_ensures(arm_aux, (read_addr, write_addr), aux),
    ensures
        kbd.0.channel == 1 && kbd.0.chain_to == 1 && kbd.0.treq == 12,
        aux.0.channel == 2 && aux.0.chain_to == 2 && aux.0.treq == 14,
        kbd.0.ring_size_log2 == 12 && aux.0.ring_size_log2 == 12,
        kbd.0.read_addr == read_addr && aux.0.read_addr == read_addr,
        kbd.0.write_addr == write_addr && aux.0.write_addr == write_addr,
        kbd.1.base() == write_addr && kbd.1.tail() == 0,
        aux.1.base() == write_addr && aux.1.tail() == 0,
{
}

/// Draining hands out the waiting slots, the oldest first and no more than asked for, and
/// the reader goes on behind them. A resync leaves the reader one slot before the
/// writer's.
pub proof fn law_reader_moves(
    d: &mut RingHandle,
    waddr: u32,
    max: usize,
    slots: Vec<usize>,
    s: &mut RingHandle,
)
    requires
        old(d).wf(),
        old(d).base() <= waddr,
        old(s).base() <= waddr,
        call_ensures(RingHandle::drain, (d, waddr, max), slots),
        call_ensures(RingHandle::resync, (s, waddr), ()),
    ensures
        ({
            let tail = old(d).tail();
            let head = ((waddr - old(d).base()) / 4) % 1024;
            let waiting = if tail <= head {
                head - tail
            } else {
                head + 1024 - tail
            };
            let n = slots@.len() as int;
            &&& n == (if waiting < max {
                waiting
            } else {
                max as int
            })
            &&& forall|i: int|
                0 <= i < n ==> #[trigger] slots@[i] == (if tail + i < 1024 {
                    tail + i
                } else {
                    tail + i - 1024
                })
            &&& final(d).tail() == (if tail + n < 1024 {
                tail + n
            } else {
                tail + n - 1024
            })
            &&& final(d).base() == old(d).base()
        }),
        ({
            let head = ((waddr - old(s).base()) / 4) % 1024;
            &&& final(s).tail() == (if head == 0 {
                1023
            } else {
                head - 1
            })
            &&& final(s).base() == old(s).base()
        }),
{
    law_tail_is_in_ring(*old(d));
}

/// A reader starts at the first slot of its ring.
pub proof fn law_reader_starts_at_the_front(base_addr: u32, h: RingHandle)
    requires
        call_ensures(RingHandle::new, (base_addr,), h),
    ensures
        h.base() == base_addr && h.tail() == 0,
{
}

} // verus!

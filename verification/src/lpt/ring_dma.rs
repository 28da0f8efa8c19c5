//! Reader side of the ring of captured bytes.
//!
//! A DMA channel writes captured words into a ring without end; the reader polls
//! the channel's write address.

use vstd::prelude::*;

use crate::dma::{rx_dreq, RingTransfer};

verus! {

/// Words in the ring.
pub const RING_WORDS: usize = 256;

/// The slot `n` steps behind `slot`.
pub open spec fn slot_after(slot: int, n: int) -> int {
    (slot + n) % RING_WORDS as int
}

/// The steps from slot `tail` to slot `head`.
pub open spec fn steps_between(tail: int, head: int) -> int {
    (head - tail) % RING_WORDS as int
}

/// The slot that a write address stands for.
pub open spec fn slot_at(base_addr: u32, waddr: u32) -> int {
    ((waddr - base_addr) / 4) % RING_WORDS as int
}

/// Keeps track of what has been read.
#[derive(Debug, Clone, Copy)]
pub struct RingHandle {
    base_addr: u32,
    last_tail: usize,
}

impl RingHandle {
    /// Address of the ring.
    pub closed spec fn base(&self) -> u32 {
        self.base_addr
    }

    /// The slot to be read next.
    pub closed spec fn tail(&self) -> int {
        self.last_tail as int
    }

    /// Whether the next slot lies in the ring.
    pub closed spec fn wf(&self) -> bool {
        self.last_tail < RING_WORDS
    }

    /// A reader at the start of a ring at `base_addr`.
    pub fn new(base_addr: u32) -> (r: Self)
        ensures
            r.wf(),
            r.base() == base_addr,
            r.tail() == 0,
    {
        RingHandle { base_addr, last_tail: 0 }
    }

    /// The slot that is written next, given the write address.
    pub fn head(&self, waddr: u32) -> (r: usize)
        requires
            self.base() <= waddr,
        ensures
            r == slot_at(self.base(), waddr),
            r < RING_WORDS,
    {
        ((waddr - self.base_addr) as usize / 4) % RING_WORDS
    }

    /// How many words are waiting.
    pub fn pending(&self, waddr: u32) -> (r: usize)
        requires
            self.wf(),
            self.base() <= waddr,
        ensures
            r == steps_between(self.tail(), slot_at(self.base(), waddr)),
            r < RING_WORDS,
    {
        (self.head(waddr) + RING_WORDS - self.last_tail) % RING_WORDS
    }

    /// The slot of the oldest waiting word, which is then taken, or `None` if no
    /// word is waiting.
    pub fn try_pop(&mut self, waddr: u32) -> (r: Option<usize>)
        requires
            old(self).wf(),
            old(self).base() <= waddr,
        ensures
            final(self).wf(),
            final(self).base() == old(self).base(),
            match r {
                Some(slot) => {
                    &&& old(self).tail() != slot_at(old(self).base(), waddr)
                    &&& slot == old(self).tail()
                    &&& slot < RING_WORDS
                    &&& final(self).tail() == slot_after(old(self).tail(), 1)
                },
                None => {
                    &&& old(self).tail() == slot_at(old(self).base(), waddr)
                    &&& final(self).tail() == old(self).tail()
                },
            },
    {
        if self.last_tail == self.head(waddr) {
            return None;
        }
        let slot: usize = self.last_tail;
        self.last_tail = (self.last_tail + 1) % RING_WORDS;
        Some(slot)
    }

    /// Skips ahead after an overrun to one slot behind the writer, which drops the
    /// oldest words.
    pub fn resync(&mut self, waddr: u32)
        requires
            old(self).base() <= waddr,
        ensures
            final(self).wf(),
            final(self).base() == old(self).base(),
            final(self).tail() == slot_after(
                slot_at(old(self).base(), waddr),
                RING_WORDS - 1,
            ),
    {
        self.last_tail = (self.head(waddr) + RING_WORDS - 1) % RING_WORDS;
    }
}

/// The transfer that fills the ring.
pub open spec fn arm_transfer(read_addr: u32, write_addr: u32) -> RingTransfer {
    RingTransfer {
        channel: 3,
        read_addr,
        write_addr,
        treq: crate::dma::rx_request(0, 0) as u8,
        ring_size_log2: 10,
        chain_to: 3,
    }
}

/// Sets up the transfer that fills the ring, and its reader. The ring has to be
/// aligned to its size.
pub fn arm(read_addr: u32, write_addr: u32) -> (r: (RingTransfer, RingHandle))
    requires
        write_addr as int % (4 * RING_WORDS) == 0,
    ensures
        r.0 == arm_transfer(read_addr, write_addr),
        r.1.wf(),
        r.1.base() == write_addr,
        r.1.tail() == 0,
{
    (
        RingTransfer {
            channel: 3,
            read_addr,
            write_addr,
            treq: rx_dreq(0, 0),
            ring_size_log2: 10,
            chain_to: 3,
        },
        RingHandle::new(write_addr),
    )
}

/// The next slot of a reader always lies in the ring.
pub proof fn law_tail_is_in_ring(h: RingHandle)
    requires
        h.wf(),
    ensures
        0 <= h.tail() < RING_WORDS,
{
}

/// As long as words are waiting, taking one leaves one less, and nothing is waiting
/// exactly when the reader has caught up with the writer.
pub proof fn law_pop_takes_one(tail: int, head: int)
    requires
        0 <= tail < RING_WORDS,
        0 <= head < RING_WORDS,
    ensures
        steps_between(tail, head) == 0 <==> tail == head,
        tail != head ==> steps_between(slot_after(tail, 1), head) == steps_between(tail, head) - 1,
{
}

/// After a resync exactly one word is waiting.
pub proof fn law_resync_leaves_one(head: int)
    requires
        0 <= head < RING_WORDS,
    ensures
        steps_between(slot_after(head, RING_WORDS - 1), head) == 1,
{
}

/// The writer's slot is its distance from the start of the ring in words of four bytes,
/// and goes from 255 to 0. The words that wait are those from the reader's slot up to
/// it.
pub proof fn law_slots_by_number(h: RingHandle, waddr: u32, head: usize, waiting: usize)
    requires
        h.wf(),
        h.base() <= waddr,
        call_ensures(RingHandle::head, (&h, waddr), head),
        call_ensures(RingHandle::pending, (&h, waddr), waiting),
    ensures
        waddr < h.base() + 1024 ==> head == (waddr - h.base()) / 4,
        head == ((waddr - h.base()) / 4) % 256,
        waiting == (if h.tail() <= head {
            head - h.tail()
        } else {
            head + 256 - h.tail()
        }),
        head == slot_at(h.base(), waddr) && waiting == steps_between(h.tail(), head as int),
        0 <= h.tail() < 256,
{
}

/// The slot behind 255 is 0, and otherwise the next number. A slot that is `n` steps on
/// is `n` such steps on.
pub proof fn law_next_slot(slot: int, n: int)
    requires
        0 <= slot < 256,
        0 <= n < 256,
    ensures
        slot_after(slot, 0) == slot,
        slot_after(slot, 1) == (if slot == 255 {
            0
        } else {
            slot + 1
        }),
        slot_after(slot, n) == (if slot + n < 256 {
            slot + n
        } else {
            slot + n - 256
        }),
{
}

/// The ring is filled by channel 3 at the pace of request 4. It wraps at 1024 bytes and
/// starts itself over, and its reader begins at the start.
pub proof fn law_transfer_by_number(
    read_addr: u32,
    write_addr: u32,
    armed: (RingTransfer, RingHandle),
)
    requires
        write_addr % 1024 == 0,
        call_ensures(arm, (read_addr, write_addr), armed),
    ensures
        armed.0.channel == 3 && armed.0.chain_to == 3 && armed.0.treq == 4,
        armed.0.ring_size_log2 == 10,
        armed.0.read_addr == read_addr && armed.0.write_addr == write_addr,
        armed.1.base() == write_addr && armed.1.tail() == 0,
{
}

/// A reader hands out its slot and goes on to the next as long as it has not reached the
/// writer's, and else hands out nothing and stays. A resync leaves it one slot before the
/// writer's.
pub proof fn law_reader_moves(
    p: &mut RingHandle,
    waddr: u32,
    slot: Option<usize>,
    s: &mut RingHandle,
)
    requires
        old(p).wf(),
        old(p).base() <= waddr,
        old(s).base() <= waddr,
        call_ensures(RingHandle::try_pop, (p, waddr), slot),
        call_ensures(RingHandle::resync, (s, waddr), ()),
    ensures
        ({
            let tail = old(p).tail();
            let head = ((waddr - old(p).base()) / 4) % 256;
            &&& slot is None <==> tail == head
            &&& slot is None ==> final(p).tail() == tail
            &&& slot matches Some(taken) ==> taken == tail && final(p).tail() == (if tail == 255 {
                0
            } else {
                tail + 1
            })
            &&& final(p).base() == old(p).base()
        }),
        ({
            let head = ((waddr - old(s).base()) / 4) % 256;
            &&& final(s).tail() == (if head == 0 {
                255
            } else {
                head - 1
            })
            &&& final(s).base() == old(s).base()
        }),
{
    law_tail_is_in_ring(*old(p));
}

/// A reader starts at the first slot of its ring.
pub proof fn law_reader_starts_at_the_front(base_addr: u32, h: RingHandle)
    requires
        call_ensures(RingHandle::new, (base_addr,), h),
    ensures
        h.base() == base_addr && h.tail() == 0,
{
}

} // verus!

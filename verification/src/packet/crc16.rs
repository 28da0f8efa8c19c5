//! CRC-16/CCITT-FALSE: polynomial 0x1021, initial value 0xFFFF, most
//! significant bit first, no final inversion.
//!
//! Bit by bit; suitable for the short packets of the wire protocol.

use vstd::prelude::*;

verus! {

pub const POLY: u16 = 0x1021;

pub const INIT: u16 = 0xFFFF;

/// The register after one message bit: it shifts left, and the polynomial is
/// subtracted when the bit that leaves differs from the message bit.
pub open spec fn feed_bit(crc: u16, bit: bool) -> u16 {
    if (crc & 0x8000u16 != 0) != bit {
        (crc << 1u16) ^ POLY
    } else {
        crc << 1u16
    }
}

/// Bit `n` of `byte` in transmission order, most significant first.
pub open spec fn message_bit(byte: u8, n: nat) -> bool {
    (byte >> ((7 - n) as u8)) & 1u8 == 1u8
}

/// The register after the first `n` bits of `byte`.
pub open spec fn feed_bits(crc: u16, byte: u8, n: nat) -> u16
    decreases n,
{
    if n == 0 {
        crc
    } else {
        feed_bit(feed_bits(crc, byte, (n - 1) as nat), message_bit(byte, (n - 1) as nat))
    }
}

/// The register after all bytes of `data`.
pub open spec fn feed(crc: u16, data: Seq<u8>) -> u16
    decreases data.len(),
{
    if data.len() == 0 {
        crc
    } else {
        feed_bits(feed(crc, data.drop_last()), data.last(), 8)
    }
}

/// The CRC of a message.
pub open spec fn crc_of(data: Seq<u8>) -> u16 {
    feed(INIT, data)
}

/// `n` shifts of the register with no message bits.
spec fn shifts(reg: u16, n: nat) -> u16
    decreases n,
{
    if n == 0 {
        reg
    } else {
        feed_bit(shifts(reg, (n - 1) as nat), false)
    }
}

/// The bits of `byte` that are still unread after `n` of them.
spec fn unread(byte: u8, n: nat) -> u16 {
    ((byte as u16) << 8u16) << (n as u16)
}

proof fn lemma_shift_bits(crc: u16, rest: u16, other: u16)
    by (bit_vector)
    ensures
        ((crc ^ rest) & 0x8000u16 != 0u16) == ((crc & 0x8000u16 != 0u16) != (rest & 0x8000u16
            != 0u16)),
        ((crc ^ rest) << 1u16) ^ 0x1021u16 == ((crc << 1u16) ^ 0x1021u16) ^ (rest << 1u16),
        (crc ^ rest) << 1u16 == (crc << 1u16) ^ (rest << 1u16),
        crc ^ 0u16 == crc,
        crc ^ rest == other ^ rest ==> crc == other,
        (crc << 1u16) ^ 0x1021u16 != other << 1u16,
        crc << 1u16 == other << 1u16 && (crc & 0x8000u16 != 0u16) == (other & 0x8000u16 != 0u16)
            ==> crc == other,
        (crc << 1u16) ^ 0x1021u16 == (other << 1u16) ^ 0x1021u16 && (crc & 0x8000u16 != 0u16) == (
        other & 0x8000u16 != 0u16) ==> crc == other,
{
}

proof fn lemma_unread_bits(byte: u8, n: u8)
    by (bit_vector)
    requires
        n < 8u8,
    ensures
        ((((byte as u16) << 8u16) << (n as u16)) & 0x8000u16 != 0u16) == ((byte >> ((7u8
            - n) as u8)) & 1u8 == 1u8),
        (((byte as u16) << 8u16) << (n as u16)) << 1u16 == ((byte as u16) << 8u16) << ((n
            + 1) as u16),
        ((byte as u16) << 8u16) << 0u16 == (byte as u16) << 8u16,
        ((byte as u16) << 8u16) << 8u16 == 0u16,
{
}

/// Mixing a byte into the register's top end and shifting gives the register
/// that took the byte's bits one by one, mixed with the bits left to read.
proof fn lemma_shifts_feed(crc: u16, byte: u8, n: nat)
    requires
        n <= 8,
    ensures
        shifts(crc ^ ((byte as u16) << 8u16), n) == feed_bits(crc, byte, n) ^ unread(byte, n),
    decreases n,
{
    lemma_unread_bits(byte, 0);
    if n > 0 {
        let m = (n - 1) as nat;
        lemma_shifts_feed(crc, byte, m);
        lemma_unread_bits(byte, m as u8);
        lemma_shift_bits(feed_bits(crc, byte, m), unread(byte, m), 0);
    }
}

proof fn lemma_shifts_byte(crc: u16, byte: u8)
    ensures
        shifts(crc ^ ((byte as u16) << 8u16), 8) == feed_bits(crc, byte, 8),
{
    lemma_shifts_feed(crc, byte, 8);
    lemma_unread_bits(byte, 0);
    lemma_shift_bits(feed_bits(crc, byte, 8), 0, 0);
}

proof fn lemma_feed_bit_injective(a: u16, b: u16, bit: bool)
    ensures
        feed_bit(a, bit) == feed_bit(b, bit) ==> a == b,
{
    lemma_shift_bits(a, 0, b);
    lemma_shift_bits(b, 0, a);
}

proof fn lemma_feed_bits_injective(a: u16, b: u16, byte: u8, n: nat)
    ensures
        feed_bits(a, byte, n) == feed_bits(b, byte, n) ==> a == b,
    decreases n,
{
    if n > 0 {
        let m = (n - 1) as nat;
        lemma_feed_bits_injective(a, b, byte, m);
        lemma_feed_bit_injective(
            feed_bits(a, byte, m),
            feed_bits(b, byte, m),
            message_bit(byte, m),
        );
    }
}

proof fn lemma_shifts_injective(a: u16, b: u16, n: nat)
    ensures
        shifts(a, n) == shifts(b, n) ==> a == b,
    decreases n,
{
    if n > 0 {
        let m = (n - 1) as nat;
        lemma_shifts_injective(a, b, m);
        lemma_feed_bit_injective(shifts(a, m), shifts(b, m), false);
    }
}

proof fn lemma_low_byte_shift(low: u16, n: u16)
    by (bit_vector)
    requires
        n < 8u16,
        low < 256u16,
    ensures
        (low << n) & 0x8000u16 == 0u16,
        (low << n) << 1u16 == low << ((n + 1) as u16),
        low << 0u16 == low,
{
}

/// A byte mixed into the low end travels to the top end untouched.
proof fn lemma_shifts_low_byte(reg: u16, low: u8, n: nat)
    requires
        n <= 8,
    ensures
        shifts(reg ^ (low as u16), n) == shifts(reg, n) ^ ((low as u16) << (n as u16)),
    decreases n,
{
    lemma_low_byte_shift(low as u16, 0);
    if n > 0 {
        let m = (n - 1) as nat;
        lemma_shifts_low_byte(reg, low, m);
        lemma_low_byte_shift(low as u16, m as u16);
        lemma_shift_bits(shifts(reg, m), (low as u16) << (m as u16), 0);
    }
}

proof fn lemma_two_bytes_differ(crc: u16, a0: u8, a1: u8, b0: u8, b1: u8)
    by (bit_vector)
    ensures
        (crc ^ ((a0 as u16) << 8u16)) ^ (a1 as u16) == (crc ^ ((b0 as u16) << 8u16)) ^ (b1 as u16)
            ==> a0 == b0 && a1 == b1,
{
}

/// Two bytes fed into the same register give the same register only when they
/// are the same two bytes.
proof fn lemma_two_bytes_injective(crc: u16, a0: u8, a1: u8, b0: u8, b1: u8)
    ensures
        feed_bits(feed_bits(crc, a0, 8), a1, 8) == feed_bits(feed_bits(crc, b0, 8), b1, 8) ==> a0
            == b0 && a1 == b1,
{
    let ra = crc ^ ((a0 as u16) << 8u16);
    let rb = crc ^ ((b0 as u16) << 8u16);
    lemma_shifts_byte(crc, a0);
    lemma_shifts_byte(crc, b0);
    lemma_shifts_low_byte(ra, a1, 8);
    lemma_shifts_low_byte(rb, b1, 8);
    lemma_shifts_byte(shifts(ra, 8), a1);
    lemma_shifts_byte(shifts(rb, 8), b1);
    lemma_shifts_injective(shifts(ra ^ (a1 as u16), 8), shifts(rb ^ (b1 as u16), 8), 8);
    lemma_shifts_injective(ra ^ (a1 as u16), rb ^ (b1 as u16), 8);
    lemma_two_bytes_differ(crc, a0, a1, b0, b1);
}

/// Feeding a message in two pieces is feeding it whole.
pub proof fn law_feed_splits(crc: u16, a: Seq<u8>, b: Seq<u8>)
    ensures
        feed(crc, a + b) == feed(feed(crc, a), b),
    decreases b.len(),
{
    if b.len() == 0 {
        assert(a + b =~= a);
    } else {
        assert((a + b).drop_last() =~= a + b.drop_last());
        assert((a + b).last() == b.last());
        law_feed_splits(crc, a, b.drop_last());
    }
}

/// Different registers stay different however the message goes on.
pub proof fn law_feed_keeps_apart(a: u16, b: u16, data: Seq<u8>)
    ensures
        feed(a, data) == feed(b, data) ==> a == b,
    decreases data.len(),
{
    if data.len() > 0 {
        law_feed_keeps_apart(a, b, data.drop_last());
        lemma_feed_bits_injective(
            feed(a, data.drop_last()),
            feed(b, data.drop_last()),
            data.last(),
            8,
        );
    }
}

/// Two messages of one length that differ within two neighbouring bytes, and
/// nowhere else, have different CRCs.
pub proof fn law_burst_changes_crc(a: Seq<u8>, b: Seq<u8>, at: int)
    requires
        a.len() == b.len(),
        0 <= at < a.len() - 1,
        a != b,
        forall|i: int| 0 <= i < a.len() && i != at && i != at + 1 ==> a[i] == b[i],
    ensures
        crc_of(a) != crc_of(b),
{
    let head = a.subrange(0, at);
    let tail = a.subrange(at + 2, a.len() as int);
    assert(b.subrange(0, at) =~= head);
    assert(b.subrange(at + 2, b.len() as int) =~= tail);
    let ma = seq![a[at], a[at + 1]];
    let mb = seq![b[at], b[at + 1]];
    assert(a =~= head + ma + tail);
    assert(b =~= head + mb + tail);
    assert(ma[0] != mb[0] || ma[1] != mb[1]) by {
        if ma[0] == mb[0] && ma[1] == mb[1] {
            assert(a =~= b);
        }
    }
    let crc = feed(INIT, head);
    law_feed_splits(INIT, head + ma, tail);
    law_feed_splits(INIT, head, ma);
    law_feed_splits(INIT, head + mb, tail);
    law_feed_splits(INIT, head, mb);
    assert(ma.drop_last() =~= seq![ma[0]] && mb.drop_last() =~= seq![mb[0]]);
    assert(ma.drop_last().drop_last() =~= Seq::<u8>::empty());
    assert(mb.drop_last().drop_last() =~= Seq::<u8>::empty());
    reveal_with_fuel(feed, 3);
    assert(feed(crc, ma) == feed_bits(feed_bits(crc, ma[0], 8), ma[1], 8));
    assert(feed(crc, mb) == feed_bits(feed_bits(crc, mb[0], 8), mb[1], 8));
    lemma_two_bytes_injective(crc, ma[0], ma[1], mb[0], mb[1]);
    law_feed_keeps_apart(feed(crc, ma), feed(crc, mb), tail);
}

/// The register after one more byte.
fn feed_byte(crc: u16, byte: u8) -> (r: u16)
    ensures
        r == feed_bits(crc, byte, 8),
{
    let mut reg: u16 = crc ^ ((byte as u16) << 8u16);
    let mut n: u8 = 0;
    while n < 8
        invariant
            n <= 8,
            reg == shifts(crc ^ ((byte as u16) << 8u16), n as nat),
        decreases 8 - n,
    {
        if reg & 0x8000 != 0 {
            reg = (reg << 1u16) ^ POLY;
        } else {
            reg = reg << 1u16;
        }
        n = n + 1;
    }
    proof {
        lemma_shifts_byte(crc, byte);
    }
    reg
}

/// Runs the register over `data`, starting from `crc`.
pub fn update(crc: u16, data: &[u8]) -> (r: u16)
    ensures
        r == feed(crc, data@),
{
    let mut reg: u16 = crc;
    let mut i: usize = 0;
    while i < data.len()
        invariant
            i <= data@.len(),
            reg == feed(crc, data@.subrange(0, i as int)),
        decreases data@.len() - i,
    {
        reg = feed_byte(reg, data[i]);
        i = i + 1;
        assert(data@.subrange(0, i as int).drop_last() =~= data@.subrange(0, i - 1));
    }
    assert(data@.subrange(0, i as int) =~= data@);
    reg
}

/// The CRC of `buf`.
pub fn compute(buf: &[u8]) -> (r: u16)
    ensures
        r == crc_of(buf@),
{
    update(INIT, buf)
}

/// One more byte acts on the register as long division by 0x1021 does: it is added to the
/// eight high bits, and then the register is shifted eight times, and 0x1021 is subtracted
/// whenever a one leaves it. The register starts from 0xFFFF, and is the CRC at the end.
/// This holds of every byte behind every message.
pub proof fn law_byte_by_long_division(
    data: &[u8],
    longer: &[u8],
    byte: u8,
    before: u16,
    after: u16,
)
    requires
        call_ensures(compute, (data,), before),
        call_ensures(compute, (longer,), after),
        longer@ == data@.push(byte),
    ensures
        data@.len() == 0 ==> before == 0xFFFF,
        ({
            let s0 = before ^ ((byte as u16) << 8u16);
            let s1 = if s0 & 0x8000u16 != 0 {
                (s0 << 1u16) ^ 0x1021u16
            } else {
                s0 << 1u16
            };
            let s2 = if s1 & 0x8000u16 != 0 {
                (s1 << 1u16) ^ 0x1021u16
            } else {
                s1 << 1u16
            };
            let s3 = if s2 & 0x8000u16 != 0 {
                (s2 << 1u16) ^ 0x1021u16
            } else {
                s2 << 1u16
            };
            let s4 = if s3 & 0x8000u16 != 0 {
                (s3 << 1u16) ^ 0x1021u16
            } else {
                s3 << 1u16
            };
            let s5 = if s4 & 0x8000u16 != 0 {
                (s4 << 1u16) ^ 0x1021u16
            } else {
                s4 << 1u16
            };
            let s6 = if s5 & 0x8000u16 != 0 {
                (s5 << 1u16) ^ 0x1021u16
            } else {
                s5 << 1u16
            };
            let s7 = if s6 & 0x8000u16 != 0 {
                (s6 << 1u16) ^ 0x1021u16
            } else {
                s6 << 1u16
            };
            let s8 = if s7 & 0x8000u16 != 0 {
                (s7 << 1u16) ^ 0x1021u16
            } else {
                s7 << 1u16
            };
            after == s8
        }),
{
    let reg = feed(INIT, data@);
    assert(longer@.drop_last() =~= data@);
    lemma_shifts_byte(reg, byte);
    reveal_with_fuel(shifts, 9);
}

/// Going on from a register is the same as taking everything in one go.
pub proof fn law_update_goes_on(
    crc: u16,
    a: &[u8],
    b: &[u8],
    all: &[u8],
    mid: u16,
    split: u16,
    whole: u16,
)
    requires
        all@ == a@ + b@,
        call_ensures(update, (crc, a), mid),
        call_ensures(update, (mid, b), split),
        call_ensures(update, (crc, all), whole),
    ensures
        split == whole,
        a@.len() == 0 ==> mid == crc,
{
    law_feed_splits(crc, a@, b@);
}

} // verus!

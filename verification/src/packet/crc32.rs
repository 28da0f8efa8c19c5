//! CRC-32/IEEE (zlib, PNG): polynomial 0xEDB88320 reflected, initial value
//! 0xFFFFFFFF, final inversion.

use vstd::prelude::*;

verus! {

pub const POLY: u32 = 0xEDB88320;

pub const INIT: u32 = 0xFFFFFFFF;

pub const XOROUT: u32 = 0xFFFFFFFF;

/// The register after one message bit: it shifts right, and the polynomial is
/// subtracted when the bit that leaves differs from the message bit.
pub open spec fn feed_bit(crc: u32, bit: bool) -> u32 {
    if (crc & 1u32 != 0) != bit {
        (crc >> 1u32) ^ POLY
    } else {
        crc >> 1u32
    }
}

/// Bit `n` of `byte` in transmission order, least significant first.
pub open spec fn message_bit(byte: u8, n: nat) -> bool {
    (byte >> (n as u8)) & 1u8 == 1u8
}

/// The register after the first `n` bits of `byte`.
pub open spec fn feed_bits(crc: u32, byte: u8, n: nat) -> u32
    decreases n,
{
    if n == 0 {
        crc
    } else {
        feed_bit(feed_bits(crc, byte, (n - 1) as nat), message_bit(byte, (n - 1) as nat))
    }
}

/// The register after all bytes of `data`.
pub open spec fn feed(crc: u32, data: Seq<u8>) -> u32
    decreases data.len(),
{
    if data.len() == 0 {
        crc
    } else {
        feed_bits(feed(crc, data.drop_last()), data.last(), 8)
    }
}

/// The CRC of a message.
pub open spec fn crc_of(data: Seq<u8>) -> u32 {
    feed(INIT, data) ^ XOROUT
}

/// `n` shifts of the register with no message bits.
spec fn shifts(reg: u32, n: nat) -> u32
    decreases n,
{
    if n == 0 {
        reg
    } else {
        feed_bit(shifts(reg, (n - 1) as nat), false)
    }
}

/// The bits of `byte` that are still unread after `n` of them.
spec fn unread(byte: u8, n: nat) -> u32 {
    (byte as u32) >> (n as u32)
}

proof fn lemma_shift_bits(crc: u32, rest: u32, other: u32)
    by (bit_vector)
    ensures
        ((crc ^ rest) & 1u32 != 0u32) == ((crc & 1u32 != 0u32) != (rest & 1u32 != 0u32)),
        ((crc ^ rest) >> 1u32) ^ 0xEDB88320u32 == ((crc >> 1u32) ^ 0xEDB88320u32) ^ (rest >> 1u32),
        (crc ^ rest) >> 1u32 == (crc >> 1u32) ^ (rest >> 1u32),
        crc ^ 0u32 == crc,
        crc ^ rest == other ^ rest ==> crc == other,
        (crc >> 1u32) ^ 0xEDB88320u32 != other >> 1u32,
        crc >> 1u32 == other >> 1u32 && (crc & 1u32 != 0u32) == (other & 1u32 != 0u32) ==> crc
            == other,
        (crc >> 1u32) ^ 0xEDB88320u32 == (other >> 1u32) ^ 0xEDB88320u32 && (crc & 1u32 != 0u32)
            == (other & 1u32 != 0u32) ==> crc == other,
{
}

proof fn lemma_unread_bits(byte: u8, n: u8)
    by (bit_vector)
    requires
        n < 8u8,
    ensures
        (((byte as u32) >> (n as u32)) & 1u32 != 0u32) == ((byte >> n) & 1u8 == 1u8),
        ((byte as u32) >> (n as u32)) >> 1u32 == (byte as u32) >> ((n + 1) as u32),
        (byte as u32) >> 0u32 == (byte as u32),
        (byte as u32) >> 8u32 == 0u32,
{
}

/// Mixing a byte into the register's low end and shifting gives the register
/// that took the byte's bits one by one, mixed with the bits left to read.
proof fn lemma_shifts_feed(crc: u32, byte: u8, n: nat)
    requires
        n <= 8,
    ensures
        shifts(crc ^ (byte as u32), n) == feed_bits(crc, byte, n) ^ unread(byte, n),
    decreases n,
{
    lemma_unread_bits(byte, 0);
    if n > 0 {
        let m = (n - 1) as nat;
        lemma_shifts_feed(crc, byte, m);
        lemma_unread_bits(byte, m as u8);
        lemma_shift_bits(feed_bits(crc, byte, m), unread(byte, m), 0);
    }
}

proof fn lemma_shifts_byte(crc: u32, byte: u8)
    ensures
        shifts(crc ^ (byte as u32), 8) == feed_bits(crc, byte, 8),
{
    lemma_shifts_feed(crc, byte, 8);
    lemma_unread_bits(byte, 0);
    lemma_shift_bits(feed_bits(crc, byte, 8), 0, 0);
}

proof fn lemma_feed_bit_injective(a: u32, b: u32, bit: bool)
    ensures
        feed_bit(a, bit) == feed_bit(b, bit) ==> a == b,
{
    lemma_shift_bits(a, 0, b);
    lemma_shift_bits(b, 0, a);
}

proof fn lemma_feed_bits_injective(a: u32, b: u32, byte: u8, n: nat)
    ensures
        feed_bits(a, byte, n) == feed_bits(b, byte, n) ==> a == b,
    decreases n,
{
    if n > 0 {
        let m = (n - 1) as nat;
        lemma_feed_bits_injective(a, b, byte, m);
        lemma_feed_bit_injective(
            feed_bits(a, byte, m),
            feed_bits(b, byte, m),
            message_bit(byte, m),
        );
    }
}

proof fn lemma_shifts_injective(a: u32, b: u32, n: nat)
    ensures
        shifts(a, n) == shifts(b, n) ==> a == b,
    decreases n,
{
    if n > 0 {
        let m = (n - 1) as nat;
        lemma_shifts_injective(a, b, m);
        lemma_feed_bit_injective(shifts(a, m), shifts(b, m), false);
    }
}

/// `later` placed behind the byte that is being shifted out.
spec fn behind(later: u32) -> u32 {
    later << 8u32
}

proof fn lemma_behind_shift(later: u32, n: u32)
    by (bit_vector)
    requires
        n < 8u32,
        later < 0x100_0000u32,
    ensures
        ((later << 8u32) >> n) & 1u32 == 0u32,
        ((later << 8u32) >> n) >> 1u32 == (later << 8u32) >> ((n + 1) as u32),
        (later << 8u32) >> 0u32 == later << 8u32,
        (later << 8u32) >> 8u32 == later,
{
}

/// What is mixed in behind the byte that is being shifted out moves up
/// untouched.
proof fn lemma_shifts_behind(reg: u32, later: u32, n: nat)
    requires
        n <= 8,
        later < 0x100_0000,
    ensures
        shifts(reg ^ behind(later), n) == shifts(reg, n) ^ (behind(later) >> (n as u32)),
    decreases n,
{
    lemma_behind_shift(later, 0);
    if n > 0 {
        let m = (n - 1) as nat;
        lemma_shifts_behind(reg, later, m);
        lemma_behind_shift(later, m as u32);
        lemma_shift_bits(shifts(reg, m), behind(later) >> (m as u32), 0);
    }
}

/// Four bytes as the register meets them, the first in the low end.
spec fn word_of(b0: u8, b1: u8, b2: u8, b3: u8) -> u32 {
    (b0 as u32) ^ behind((b1 as u32) ^ behind((b2 as u32) ^ behind(b3 as u32)))
}

proof fn lemma_word_parts(crc: u32, a0: u8, a1: u8, a2: u8, a3: u8, b0: u8, b1: u8, b2: u8, b3: u8)
    by (bit_vector)
    ensures
        ((a2 as u32) ^ ((a3 as u32) << 8u32)) < 0x100_0000u32,
        ((a1 as u32) ^ (((a2 as u32) ^ ((a3 as u32) << 8u32)) << 8u32)) < 0x100_0000u32,
        crc ^ ((a0 as u32) ^ (((a1 as u32) ^ (((a2 as u32) ^ ((a3 as u32) << 8u32)) << 8u32))
            << 8u32)) == crc ^ ((b0 as u32) ^ (((b1 as u32) ^ (((b2 as u32) ^ ((b3 as u32)
            << 8u32)) << 8u32)) << 8u32)) ==> a0 == b0 && a1 == b1 && a2 == b2 && a3 == b3,
{
}

proof fn lemma_mix(a: u32, b: u32, c: u32)
    by (bit_vector)
    ensures
        a ^ (b ^ c) == (a ^ b) ^ c,
{
}

proof fn lemma_feed_then(crc: u32, byte: u8, later: u32)
    requires
        later < 0x100_0000,
    ensures
        shifts(crc ^ ((byte as u32) ^ behind(later)), 8) == feed_bits(crc, byte, 8) ^ later,
{
    lemma_mix(crc, byte as u32, behind(later));
    lemma_shifts_behind(crc ^ (byte as u32), later, 8);
    lemma_behind_shift(later, 0);
    lemma_shifts_byte(crc, byte);
}

proof fn lemma_feed_word(crc: u32, b0: u8, b1: u8, b2: u8, b3: u8)
    ensures
        feed_bits(feed_bits(feed_bits(feed_bits(crc, b0, 8), b1, 8), b2, 8), b3, 8) == shifts(
            shifts(shifts(shifts(crc ^ word_of(b0, b1, b2, b3), 8), 8), 8),
            8,
        ),
{
    lemma_word_parts(crc, b0, b1, b2, b3, 0, 0, 0, 0);
    let c1 = feed_bits(crc, b0, 8);
    let c2 = feed_bits(c1, b1, 8);
    let c3 = feed_bits(c2, b2, 8);
    lemma_feed_then(crc, b0, (b1 as u32) ^ behind((b2 as u32) ^ behind(b3 as u32)));
    lemma_feed_then(c1, b1, (b2 as u32) ^ behind(b3 as u32));
    lemma_feed_then(c2, b2, b3 as u32);
    lemma_shifts_byte(c3, b3);
}

proof fn lemma_four_bytes_injective(
    crc: u32,
    a0: u8,
    a1: u8,
    a2: u8,
    a3: u8,
    b0: u8,
    b1: u8,
    b2: u8,
    b3: u8,
)
    ensures
        feed_bits(feed_bits(feed_bits(feed_bits(crc, a0, 8), a1, 8), a2, 8), a3, 8) == feed_bits(
            feed_bits(feed_bits(feed_bits(crc, b0, 8), b1, 8), b2, 8),
            b3,
            8,
        ) ==> a0 == b0 && a1 == b1 && a2 == b2 && a3 == b3,
{
    lemma_feed_word(crc, a0, a1, a2, a3);
    lemma_feed_word(crc, b0, b1, b2, b3);
    let wa = crc ^ word_of(a0, a1, a2, a3);
    let wb = crc ^ word_of(b0, b1, b2, b3);
    lemma_shifts_injective(
        shifts(shifts(shifts(wa, 8), 8), 8),
        shifts(shifts(shifts(wb, 8), 8), 8),
        8,
    );
    lemma_shifts_injective(shifts(shifts(wa, 8), 8), shifts(shifts(wb, 8), 8), 8);
    lemma_shifts_injective(shifts(wa, 8), shifts(wb, 8), 8);
    lemma_shifts_injective(wa, wb, 8);
    lemma_word_parts(crc, a0, a1, a2, a3, b0, b1, b2, b3);
}

/// Feeding a message in two pieces is feeding it whole.
pub proof fn law_feed_splits(crc: u32, a: Seq<u8>, b: Seq<u8>)
    ensures
        feed(crc, a + b) == feed(feed(crc, a), b),
    decreases b.len(),
{
    if b.len() == 0 {
        assert(a + b =~= a);
    } else {
        assert((a + b).drop_last() =~= a + b.drop_last());
        assert((a + b).last() == b.last());
        law_feed_splits(crc, a, b.drop_last());
    }
}

/// Different registers stay different however the message goes on.
pub proof fn law_feed_keeps_apart(a: u32, b: u32, data: Seq<u8>)
    ensures
        feed(a, data) == feed(b, data) ==> a == b,
    decreases data.len(),
{
    if data.len() > 0 {
        law_feed_keeps_apart(a, b, data.drop_last());
        lemma_feed_bits_injective(
            feed(a, data.drop_last()),
            feed(b, data.drop_last()),
            data.last(),
            8,
        );
    }
}

proof fn lemma_feed_four(crc: u32, m: Seq<u8>)
    requires
        m.len() == 4,
    ensures
        feed(crc, m) == feed_bits(
            feed_bits(feed_bits(feed_bits(crc, m[0], 8), m[1], 8), m[2], 8),
            m[3],
            8,
        ),
{
    let m3 = m.drop_last();
    let m2 = m3.drop_last();
    let m1 = m2.drop_last();
    assert(m1.drop_last() =~= Seq::<u8>::empty());
    assert(feed(crc, m1.drop_last()) == crc);
    assert(feed(crc, m1) == feed_bits(crc, m[0], 8));
    assert(feed(crc, m2) == feed_bits(feed(crc, m1), m[1], 8));
    assert(feed(crc, m3) == feed_bits(feed(crc, m2), m[2], 8));
}

/// Two images of one length that differ within four neighbouring bytes, and
/// nowhere else, have different CRCs.
pub proof fn law_burst_changes_crc(a: Seq<u8>, b: Seq<u8>, at: int)
    requires
        a.len() == b.len(),
        0 <= at <= a.len() - 4,
        a != b,
        forall|i: int| 0 <= i < a.len() && !(at <= i < at + 4) ==> a[i] == b[i],
    ensures
        crc_of(a) != crc_of(b),
{
    let head = a.subrange(0, at);
    let tail = a.subrange(at + 4, a.len() as int);
    assert(b.subrange(0, at) =~= head);
    assert(b.subrange(at + 4, b.len() as int) =~= tail);
    let ma = a.subrange(at, at + 4);
    let mb = b.subrange(at, at + 4);
    assert(a =~= head + ma + tail);
    assert(b =~= head + mb + tail);
    if ma[0] == mb[0] && ma[1] == mb[1] && ma[2] == mb[2] && ma[3] == mb[3] {
        assert(ma =~= mb);
        assert(a =~= b);
    }
    let crc = feed(INIT, head);
    law_feed_splits(INIT, head + ma, tail);
    law_feed_splits(INIT, head, ma);
    law_feed_splits(INIT, head + mb, tail);
    law_feed_splits(INIT, head, mb);
    lemma_feed_four(crc, ma);
    lemma_feed_four(crc, mb);
    lemma_four_bytes_injective(crc, ma[0], ma[1], ma[2], ma[3], mb[0], mb[1], mb[2], mb[3]);
    law_feed_keeps_apart(feed(crc, ma), feed(crc, mb), tail);
    lemma_shift_bits(feed(INIT, a), XOROUT, feed(INIT, b));
}

/// The register after one more byte.
fn feed_byte(crc: u32, byte: u8) -> (r: u32)
    ensures
        r == feed_bits(crc, byte, 8),
{
    let mut reg: u32 = crc ^ (byte as u32);
    let mut n: u8 = 0;
    while n < 8
        invariant
            n <= 8,
            reg == shifts(crc ^ (byte as u32), n as nat),
        decreases 8 - n,
    {
        let lsb_set: bool = reg & 1 != 0;
        reg = reg >> 1u32;
        if lsb_set {
            reg = reg ^ POLY;
        }
        n = n + 1;
    }
    proof {
        lemma_shifts_byte(crc, byte);
    }
    reg
}

/// Runs the register over `data`, starting from `crc`.
pub fn update(crc: u32, data: &[u8]) -> (r: u32)
    ensures
        r == feed(crc, data@),
{
    let mut reg: u32 = crc;
    let mut i: usize = 0;
    while i < data.len()
        invariant
            i <= data@.len(),
            reg == feed(crc, data@.subrange(0, i as int)),
        decreases data@.len() - i,
    {
        reg = feed_byte(reg, data[i]);
        i = i + 1;
        assert(data@.subrange(0, i as int).drop_last() =~= data@.subrange(0, i - 1));
    }
    assert(data@.subrange(0, i as int) =~= data@);
    reg
}

/// The CRC of `buf`, suitable for one-shot use over short slices.
pub fn compute(buf: &[u8]) -> (r: u32)
    ensures
        r == crc_of(buf@),
{
    update(INIT, buf) ^ XOROUT
}

/// One more byte acts on the register as long division by 0xEDB88320, bits reversed, does:
/// it is added to the eight low bits, and then the register is shifted right eight times,
/// and the polynomial is subtracted whenever a one leaves it. The CRC is the inverted
/// register, and that of no bytes is 0. This holds of every byte behind every message.
pub proof fn law_byte_by_long_division(
    data: &[u8],
    longer: &[u8],
    byte: u8,
    before: u32,
    after: u32,
)
    requires
        call_ensures(compute, (data,), before),
        call_ensures(compute, (longer,), after),
        longer@ == data@.push(byte),
    ensures
        data@.len() == 0 ==> before == 0,
        ({
            let s0 = !before ^ (byte as u32);
            let s1 = if s0 & 1u32 != 0 {
                (s0 >> 1u32) ^ 0xEDB8_8320u32
            } else {
                s0 >> 1u32
            };
            let s2 = if s1 & 1u32 != 0 {
                (s1 >> 1u32) ^ 0xEDB8_8320u32
            } else {
                s1 >> 1u32
            };
            let s3 = if s2 & 1u32 != 0 {
                (s2 >> 1u32) ^ 0xEDB8_8320u32
            } else {
                s2 >> 1u32
            };
            let s4 = if s3 & 1u32 != 0 {
                (s3 >> 1u32) ^ 0xEDB8_8320u32
            } else {
                s3 >> 1u32
            };
            let s5 = if s4 & 1u32 != 0 {
                (s4 >> 1u32) ^ 0xEDB8_8320u32
            } else {
                s4 >> 1u32
            };
            let s6 = if s5 & 1u32 != 0 {
                (s5 >> 1u32) ^ 0xEDB8_8320u32
            } else {
                s5 >> 1u32
            };
            let s7 = if s6 & 1u32 != 0 {
                (s6 >> 1u32) ^ 0xEDB8_8320u32
            } else {
                s6 >> 1u32
            };
            let s8 = if s7 & 1u32 != 0 {
                (s7 >> 1u32) ^ 0xEDB8_8320u32
            } else {
                s7 >> 1u32
            };
            after == !s8
        }),
{
    let reg = feed(INIT, data@);
    assert(longer@.drop_last() =~= data@);
    lemma_shifts_byte(reg, byte);
    reveal_with_fuel(shifts, 9);
    let end = feed_bits(reg, byte, 8);
    assert(!(reg ^ 0xFFFF_FFFFu32) == reg && !end == end ^ 0xFFFF_FFFFu32 && 0xFFFF_FFFFu32
        ^ 0xFFFF_FFFFu32 == 0u32) by (bit_vector);
}

/// Going on from a register is the same as taking everything in one go.
pub proof fn law_update_goes_on(
    crc: u32,
    a: &[u8],
    b: &[u8],
    all: &[u8],
    mid: u32,
    split: u32,
    whole: u32,
)
    requires
        all@ == a@ + b@,
        call_ensures(update, (crc, a), mid),
        call_ensures(update, (mid, b), split),
        call_ensures(update, (crc, all), whole),
    ensures
        split == whole,
        a@.len() == 0 ==> mid == crc,
{
    law_feed_splits(crc, a@, b@);
}

} // verus!

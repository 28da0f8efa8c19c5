//! PS/2 frame packing.
//!
//! The transmitter takes one 32-bit word per frame and shifts it onto the wire,
//! least significant bit first:
//!
//!   * AT and PS/2: start (0), 8 data bits, odd parity, stop (1).
//!   * XT: start (1), 8 data bits.
//!
//! The bits above the frame are ones, so the open-drain wire idles high if the
//! transmitter shifts on.

use vstd::prelude::*;

verus! {

/// Bit `i` of a byte.
pub open spec fn byte_bit(byte: u8, i: int) -> bool {
    (byte >> (i as u8)) & 1u8 == 1u8
}

/// Bit `i` of a word.
pub open spec fn word_bit(word: u32, i: int) -> bool {
    (word >> (i as u32)) & 1u32 == 1u32
}

/// How many bits of a byte are set.
pub open spec fn ones_in(byte: u8) -> int {
    (byte & 1u8) + (byte >> 1u8 & 1u8) + (byte >> 2u8 & 1u8) + (byte >> 3u8 & 1u8) + (byte >> 4u8
        & 1u8) + (byte >> 5u8 & 1u8) + (byte >> 6u8 & 1u8) + (byte >> 7u8 & 1u8)
}

/// The data bits of a byte, least significant first.
pub open spec fn data_bits(byte: u8) -> Seq<bool> {
    Seq::new(8, |i: int| byte_bit(byte, i))
}

/// The bits of an AT or PS/2 frame, in the order they are sent.
pub open spec fn at_bits(byte: u8) -> Seq<bool> {
    seq![false] + data_bits(byte) + seq![ones_in(byte) % 2 == 0, true]
}

/// The bits of an XT frame, in the order they are sent.
pub open spec fn xt_bits(byte: u8) -> Seq<bool> {
    seq![true] + data_bits(byte)
}

/// The first `n` bits that a word sends.
pub open spec fn word_bits(word: u32, n: nat) -> Seq<bool> {
    Seq::new(n, |i: int| word_bit(word, i))
}

/// Whether `word` sends `bits` and then idles high.
pub open spec fn sends(word: u32, bits: Seq<bool>) -> bool {
    forall|i: int|
        0 <= i < 32 ==> #[trigger] word_bit(word, i) == (if i < bits.len() {
            bits[i]
        } else {
            true
        })
}

proof fn lemma_ones_bounds(byte: u8)
    by (bit_vector)
    ensures
        byte & 1u8 <= 1u8,
        byte >> 1u8 & 1u8 <= 1u8,
        byte >> 2u8 & 1u8 <= 1u8,
        byte >> 3u8 & 1u8 <= 1u8,
        byte >> 4u8 & 1u8 <= 1u8,
        byte >> 5u8 & 1u8 <= 1u8,
        byte >> 6u8 & 1u8 <= 1u8,
        byte >> 7u8 & 1u8 <= 1u8,
{
}

/// Counts the bits of `byte` that are set.
pub fn count_ones(byte: u8) -> (r: u8)
    ensures
        r == ones_in(byte),
        r <= 8,
{
    proof {
        lemma_ones_bounds(byte);
    }
    (byte & 1) + (byte >> 1 & 1) + (byte >> 2 & 1) + (byte >> 3 & 1) + (byte >> 4 & 1) + (byte >> 5
        & 1) + (byte >> 6 & 1) + (byte >> 7 & 1)
}

proof fn lemma_at_word(byte: u8, parity: u32, i: u32)
    by (bit_vector)
    requires
        i < 32u32,
        parity <= 1u32,
    ensures
        ({
            let w = 0xFFFF_F800u32 | ((byte as u32) << 1u32) | (parity << 9u32) | (1u32 << 10u32);
            &&& i == 0u32 ==> (w >> i) & 1u32 == 0u32
            &&& 1u32 <= i <= 8u32 ==> (w >> i) & 1u32 == ((byte >> ((i - 1) as u8)) & 1u8) as u32
            &&& i == 9u32 ==> (w >> i) & 1u32 == parity
            &&& 10u32 <= i ==> (w >> i) & 1u32 == 1u32
        }),
{
}

proof fn lemma_xt_word(byte: u8, i: u32)
    by (bit_vector)
    requires
        i < 32u32,
    ensures
        ({
            let w = 0xFFFF_FE00u32 | 1u32 | ((byte as u32) << 1u32);
            &&& i == 0u32 ==> (w >> i) & 1u32 == 1u32
            &&& 1u32 <= i <= 8u32 ==> (w >> i) & 1u32 == ((byte >> ((i - 1) as u8)) & 1u8) as u32
            &&& 9u32 <= i ==> (w >> i) & 1u32 == 1u32
        }),
{
}

/// The word that sends `byte` as an AT or PS/2 frame.
pub fn pack_at_frame(byte: u8) -> (r: u32)
    ensures
        sends(r, at_bits(byte)),
{
    let mut w: u32 = 0xFFFF_F800;
    w = w | ((byte as u32) << 1u32);
    let parity: u32 = if count_ones(byte) % 2 == 0 {
        1
    } else {
        0
    };
    w = w | (parity << 9u32);
    w = w | (1u32 << 10u32);
    proof {
        assert forall|i: int| 0 <= i < 32 implies #[trigger] word_bit(w, i) == (if i < 11 {
            at_bits(byte)[i]
        } else {
            true
        }) by {
            lemma_at_word(byte, parity, i as u32);
        }
    }
    w
}

/// The word that sends `byte` as an XT frame.
pub fn pack_xt_frame(byte: u8) -> (r: u32)
    ensures
        sends(r, xt_bits(byte)),
{
    let mut w: u32 = 0xFFFF_FE00;
    w = w | 1u32;
    w = w | ((byte as u32) << 1u32);
    proof {
        assert forall|i: int| 0 <= i < 32 implies #[trigger] word_bit(w, i) == (if i < 9 {
            xt_bits(byte)[i]
        } else {
            true
        }) by {
            lemma_xt_word(byte, i as u32);
        }
    }
    w
}

/// The data and parity bits of an AT frame hold an odd number of ones.
pub proof fn law_at_parity_is_odd(byte: u8)
    ensures
        (ones_in(byte) + if at_bits(byte)[9] {
            1int
        } else {
            0int
        }) % 2 == 1,
{
}

/// Bytes that pack into the same frame are the same byte.
pub proof fn law_frames_differ(a: u8, b: u8)
    requires
        at_bits(a) == at_bits(b) || xt_bits(a) == xt_bits(b),
    ensures
        a == b,
{
    assert forall|i: int| 0 <= i < 8 implies byte_bit(a, i) == byte_bit(b, i) by {
        assert(at_bits(a)[i + 1] == byte_bit(a, i) && at_bits(b)[i + 1] == byte_bit(b, i));
        assert(xt_bits(a)[i + 1] == byte_bit(a, i) && xt_bits(b)[i + 1] == byte_bit(b, i));
    }
    assert(byte_bit(a, 0) == byte_bit(b, 0) && byte_bit(a, 1) == byte_bit(b, 1) && byte_bit(a, 2)
        == byte_bit(b, 2) && byte_bit(a, 3) == byte_bit(b, 3) && byte_bit(a, 4) == byte_bit(b, 4)
        && byte_bit(a, 5) == byte_bit(b, 5) && byte_bit(a, 6) == byte_bit(b, 6) && byte_bit(a, 7)
        == byte_bit(b, 7));
    assert(a == b) by (bit_vector)
        requires
            ((a >> 0u8) & 1u8 == 1u8) == ((b >> 0u8) & 1u8 == 1u8),
            ((a >> 1u8) & 1u8 == 1u8) == ((b >> 1u8) & 1u8 == 1u8),
            ((a >> 2u8) & 1u8 == 1u8) == ((b >> 2u8) & 1u8 == 1u8),
            ((a >> 3u8) & 1u8 == 1u8) == ((b >> 3u8) & 1u8 == 1u8),
            ((a >> 4u8) & 1u8 == 1u8) == ((b >> 4u8) & 1u8 == 1u8),
            ((a >> 5u8) & 1u8 == 1u8) == ((b >> 5u8) & 1u8 == 1u8),
            ((a >> 6u8) & 1u8 == 1u8) == ((b >> 6u8) & 1u8 == 1u8),
            ((a >> 7u8) & 1u8 == 1u8) == ((b >> 7u8) & 1u8 == 1u8),
    ;
}

/// The word of an AT frame, bit by bit: 0, the bits of the byte from the lowest on, a bit
/// that makes the number of ones odd, and ones to the end.
pub proof fn law_at_word_by_bits(byte: u8, ones: u8, word: u32)
    requires
        call_ensures(count_ones, (byte,), ones),
        call_ensures(pack_at_frame, (byte,), word),
    ensures
        word & 1 == 0,
        forall|i: u32|
            1 <= i <= 8 ==> (#[trigger] (word >> i)) & 1 == (byte >> ((i - 1) as u8)) & 1,
        (ones + ((word >> 9u32) & 1)) % 2 == 1,
        forall|i: u32| 10 <= i < 32 ==> (#[trigger] (word >> i)) & 1 == 1,
{
    assert forall|i: u32| 1 <= i <= 8 implies (#[trigger] (word >> i)) & 1 == (byte >> ((i
        - 1) as u8)) & 1 by {
        lemma_bit_is_0_or_1(word, i, byte, (i - 1) as u8);
        assert(word_bit(word, i as int) == at_bits(byte)[i as int]);
        assert(at_bits(byte)[i as int] == byte_bit(byte, i - 1));
    }
    assert forall|i: u32| 10 <= i < 32 implies (#[trigger] (word >> i)) & 1 == 1 by {
        assert(word_bit(word, i as int));
    }
    lemma_bit_is_0_or_1(word, 0, byte, 0);
    lemma_bit_is_0_or_1(word, 9, byte, 0);
    assert(!word_bit(word, 0));
    assert(word_bit(word, 9) == (ones_in(byte) % 2 == 0));
}

/// The word of an XT frame, bit by bit: 1, the bits of the byte from the lowest on, and
/// ones to the end.
pub proof fn law_xt_word_by_bits(byte: u8, word: u32)
    requires
        call_ensures(pack_xt_frame, (byte,), word),
    ensures
        word & 1 == 1,
        forall|i: u32|
            1 <= i <= 8 ==> (#[trigger] (word >> i)) & 1 == (byte >> ((i - 1) as u8)) & 1,
        forall|i: u32| 9 <= i < 32 ==> (#[trigger] (word >> i)) & 1 == 1,
{
    assert forall|i: u32| 1 <= i <= 8 implies (#[trigger] (word >> i)) & 1 == (byte >> ((i
        - 1) as u8)) & 1 by {
        lemma_bit_is_0_or_1(word, i, byte, (i - 1) as u8);
        assert(word_bit(word, i as int) == xt_bits(byte)[i as int]);
        assert(xt_bits(byte)[i as int] == byte_bit(byte, i - 1));
    }
    assert forall|i: u32| 9 <= i < 32 implies (#[trigger] (word >> i)) & 1 == 1 by {
        assert(word_bit(word, i as int));
    }
    lemma_bit_is_0_or_1(word, 0, byte, 0);
    assert(word_bit(word, 0));
}

proof fn lemma_bit_is_0_or_1(word: u32, i: u32, byte: u8, j: u8)
    by (bit_vector)
    requires
        i < 32u32,
        j < 8u8,
    ensures
        (word >> i) & 1u32 == 0u32 || (word >> i) & 1u32 == 1u32,
        (byte >> j) & 1u8 == 0u8 || (byte >> j) & 1u8 == 1u8,
        word >> 0u32 == word,
{
}

/// The ones of a byte are those of its upper bits and its lowest bit, and 0 has none.
pub proof fn law_ones_are_counted(byte: u8, ones: u8, upper: u8)
    requires
        call_ensures(count_ones, (byte,), ones),
        call_ensures(count_ones, (byte / 2,), upper),
    ensures
        ones == upper + byte % 2,
        byte == 0 ==> ones == 0,
{
    lemma_halved(byte, byte / 2);
}

proof fn lemma_halved(byte: u8, half: u8)
    by (bit_vector)
    requires
        half == byte / 2u8,
    ensures
        byte & 1u8 == byte % 2u8,
        byte >> 1u8 & 1u8 == half & 1u8,
        byte >> 2u8 & 1u8 == half >> 1u8 & 1u8,
        byte >> 3u8 & 1u8 == half >> 2u8 & 1u8,
        byte >> 4u8 & 1u8 == half >> 3u8 & 1u8,
        byte >> 5u8 & 1u8 == half >> 4u8 & 1u8,
        byte >> 6u8 & 1u8 == half >> 5u8 & 1u8,
        byte >> 7u8 & 1u8 == half >> 6u8 & 1u8,
        half >> 7u8 & 1u8 == 0u8,
        byte == 0u8 ==> byte & 1u8 == 0u8 && half & 1u8 == 0u8 && half >> 1u8 & 1u8 == 0u8 && half
            >> 2u8 & 1u8 == 0u8 && half >> 3u8 & 1u8 == 0u8 && half >> 4u8 & 1u8 == 0u8 && half
            >> 5u8 & 1u8 == 0u8 && half >> 6u8 & 1u8 == 0u8,
{
}

} // verus!

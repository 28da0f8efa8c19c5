//! Big-endian integers on the wire.

use vstd::prelude::*;

verus! {

/// The two bytes of `v`, high byte first.
pub open spec fn be16(v: u16) -> Seq<u8> {
    seq![(v / 256) as u8, (v % 256) as u8]
}

/// The value that the bytes `hi`, `lo` stand for.
pub open spec fn from_be16(hi: u8, lo: u8) -> u16 {
    (hi * 256 + lo) as u16
}

/// The four bytes of `v`, high byte first.
pub open spec fn be32(v: u32) -> Seq<u8> {
    seq![
        (v / 0x100_0000) as u8,
        (v / 0x1_0000 % 256) as u8,
        (v / 256 % 256) as u8,
        (v % 256) as u8,
    ]
}

/// The value that four bytes, high byte first, stand for.
pub open spec fn from_be32(b: Seq<u8>) -> u32 {
    (b[0] * 0x100_0000 + b[1] * 0x1_0000 + b[2] * 256 + b[3]) as u32
}

/// Splits `v` into high and low byte.
pub fn u16_to_be(v: u16) -> (r: (u8, u8))
    ensures
        seq![r.0, r.1] == be16(v),
{
    ((v / 256) as u8, (v % 256) as u8)
}

/// Joins a high and a low byte.
pub fn u16_from_be(hi: u8, lo: u8) -> (r: u16)
    ensures
        r == from_be16(hi, lo),
{
    (hi as u16) * 256 + (lo as u16)
}

/// Splits `v` into four bytes, high byte first.
pub fn u32_to_be(v: u32) -> (r: [u8; 4])
    ensures
        r@ == be32(v),
{
    [
        (v / 0x100_0000) as u8,
        (v / 0x1_0000 % 256) as u8,
        (v / 256 % 256) as u8,
        (v % 256) as u8,
    ]
}

/// Splitting a 16-bit value and joining its bytes gives the value back, and
/// joining two bytes and splitting gives the bytes back.
pub proof fn law_be16_round_trip(v: u16, hi: u8, lo: u8)
    ensures
        from_be16(be16(v)[0], be16(v)[1]) == v,
        be16(from_be16(hi, lo)) == seq![hi, lo],
{
}

/// Splitting a 32-bit value and joining its bytes gives the value back, and
/// joining four bytes and splitting gives the bytes back.
pub proof fn law_be32_round_trip(v: u32, b: Seq<u8>)
    requires
        b.len() == 4,
    ensures
        from_be32(be32(v)) == v,
        be32(from_be32(b)) == b,
{
    let joined = from_be32(b) as int;
    assert(joined == b[0] * 0x100_0000 + b[1] * 0x1_0000 + b[2] * 256 + b[3]);
    let upper = b[0] * 0x1_0000 + b[1] * 256 + b[2];
    assert(joined / 256 == upper && joined % 256 == b[3]);
    let top = b[0] * 256 + b[1];
    assert(upper / 256 == top && upper % 256 == b[2]);
    assert(joined / 0x1_0000 == top);
    assert(joined / 0x100_0000 == b[0]);
    assert(be32(from_be32(b)) =~= b);
}

/// Writes `src` into `out` from position `at` on.
pub fn write_at(out: &mut [u8], at: usize, src: &[u8])
    requires
        at + src@.len() <= old(out)@.len(),
    ensures
        final(out)@ == old(out)@.subrange(0, at as int) + src@ + old(out)@.subrange(
            at + src@.len(),
            old(out)@.len() as int,
        ),
{
    let ghost before = out@;
    let room: usize = out.len();
    let mut i: usize = 0;
    while i < src.len()
        invariant
            at + src@.len() <= room,
            room == before.len(),
            i <= src@.len(),
            out@ == before.subrange(0, at as int) + src@.subrange(0, i as int) + before.subrange(
                at + i,
                before.len() as int,
            ),
        decreases src@.len() - i,
    {
        out[at + i] = src[i];
        i = i + 1;
        assert(out@ =~= before.subrange(0, at as int) + src@.subrange(0, i as int)
            + before.subrange(at + i, before.len() as int));
    }
    assert(src@.subrange(0, i as int) =~= src@);
}

/// The first byte counts most: the bytes, read as digits of base 256, are the value, and
/// no other bytes are.
pub proof fn law_first_byte_counts_most(
    v: u16,
    w: u32,
    hi: u8,
    lo: u8,
    two: (u8, u8),
    four: [u8; 4],
    joined: u16,
)
    requires
        call_ensures(u16_to_be, (v,), two),
        call_ensures(u32_to_be, (w,), four),
        call_ensures(u16_from_be, (hi, lo), joined),
    ensures
        two.0 * 256 + two.1 == v,
        ((four@[0] * 256 + four@[1]) * 256 + four@[2]) * 256 + four@[3] == w,
        joined == hi * 256 + lo,
        be16(v).len() == 2 && be16(v)[0] * 256 + be16(v)[1] == v,
        be32(w).len() == 4 && ((be32(w)[0] * 256 + be32(w)[1]) * 256 + be32(w)[2]) * 256
            + be32(w)[3] == w,
        from_be16(hi, lo) == hi * 256 + lo,
{
    assert(seq![two.0, two.1][0] == be16(v)[0] && seq![two.0, two.1][1] == be16(v)[1]);
}

/// Writing at a position replaces exactly the bytes from there on, as many as there are.
pub proof fn law_write_replaces_a_stretch(out: &mut [u8], at: usize, src: &[u8], i: int)
    requires
        at + src@.len() <= old(out)@.len(),
        call_ensures(write_at, (out, at, src), ()),
        0 <= i < old(out)@.len(),
    ensures
        final(out)@.len() == old(out)@.len(),
        at <= i < at + src@.len() ==> final(out)@[i] == src@[i - at],
        i < at || i >= at + src@.len() ==> final(out)@[i] == old(out)@[i],
{
}

} // verus!

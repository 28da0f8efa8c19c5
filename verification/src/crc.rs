//! CRC engines.
//!
//! A CRC can be accumulated over a stream that arrives in pieces. Every engine
//! answers for the bytes it has taken since it was made or reset, so a caller
//! does not have to care which engine is in use.

use vstd::prelude::*;

use crate::packet::crc16;
use crate::packet::crc32;

verus! {

/// CRC-16-CCITT: polynomial 0x1021, initial value 0xFFFF, no reflection, no
/// final inversion.
pub trait Crc16Engine {
    /// The register: what is left of all bytes taken since the engine was made
    /// or reset.
    spec fn register(&self) -> u16;

    /// Forgets all bytes.
    fn reset(&mut self)
        ensures
            final(self).register() == crc16::INIT,
    ;

    /// Takes `data` behind what was taken before.
    fn update(&mut self, data: &[u8])
        ensures
            final(self).register() == crc16::feed(old(self).register(), data@),
    ;

    /// The CRC of the bytes taken.
    fn finalize(&self) -> (r: u16)
        ensures
            r == self.register(),
    ;
}

/// CRC-32/IEEE reflected: polynomial 0xEDB88320, initial value 0xFFFFFFFF,
/// final inversion.
pub trait Crc32Engine {
    /// The register: what is left of all bytes taken since the engine was made
    /// or reset.
    spec fn register(&self) -> u32;

    /// Forgets all bytes.
    fn reset(&mut self)
        ensures
            final(self).register() == crc32::INIT,
    ;

    /// Takes `data` behind what was taken before.
    fn update(&mut self, data: &[u8])
        ensures
            final(self).register() == crc32::feed(old(self).register(), data@),
    ;

    /// The CRC of the bytes taken.
    fn finalize(&self) -> (r: u32)
        ensures
            r == self.register() ^ crc32::XOROUT,
    ;
}

/// Bit-by-bit CRC-16-CCITT, for packets too small to set up an accelerator for.
#[derive(Debug, Clone, Copy)]
pub struct SoftwareCrc16Ccitt {
    state: u16,
}

impl SoftwareCrc16Ccitt {
    /// An engine that has taken nothing.
    pub fn new() -> (r: Self)
        ensures
            r.register() == crc16::INIT,
    {
        SoftwareCrc16Ccitt { state: crc16::INIT }
    }
}

impl Default for SoftwareCrc16Ccitt {
    fn default() -> (r: Self)
        ensures
            r.register() == crc16::INIT,
    {
        Self::new()
    }
}

impl Crc16Engine for SoftwareCrc16Ccitt {
    closed spec fn register(&self) -> u16 {
        self.state
    }

    fn reset(&mut self) {
        self.state = crc16::INIT;
    }

    fn update(&mut self, data: &[u8]) {
        self.state = crc16::update(self.state, data);
    }

    fn finalize(&self) -> u16 {
        self.state
    }
}

/// Bit-by-bit CRC-32/IEEE reflected; the reference for accelerated engines.
#[derive(Debug, Clone, Copy)]
pub struct SoftwareCrc32Reflected {
    state: u32,
}

impl SoftwareCrc32Reflected {
    /// An engine that has taken nothing.
    pub fn new() -> (r: Self)
        ensures
            r.register() == crc32::INIT,
    {
        SoftwareCrc32Reflected { state: crc32::INIT }
    }
}

impl Default for SoftwareCrc32Reflected {
    fn default() -> (r: Self)
        ensures
            r.register() == crc32::INIT,
    {
        Self::new()
    }
}

impl Crc32Engine for SoftwareCrc32Reflected {
    closed spec fn register(&self) -> u32 {
        self.state
    }

    fn reset(&mut self) {
        self.state = crc32::INIT;
    }

    fn update(&mut self, data: &[u8]) {
        self.state = crc32::update(self.state, data);
    }

    fn finalize(&self) -> u32 {
        self.state ^ crc32::XOROUT
    }
}

/// An engine that starts from its initial register and takes a message in two
/// pieces answers with the CRC of the whole message.
pub proof fn law_crc16_split_updates(a: Seq<u8>, b: Seq<u8>)
    ensures
        crc16::feed(crc16::feed(crc16::INIT, a), b) == crc16::crc_of(a + b),
{
    crc16::law_feed_splits(crc16::INIT, a, b);
}

/// An engine that starts from its initial register and takes a message in two
/// pieces answers with the CRC of the whole message.
pub proof fn law_crc32_split_updates(a: Seq<u8>, b: Seq<u8>)
    ensures
        crc32::feed(crc32::feed(crc32::INIT, a), b) ^ crc32::XOROUT == crc32::crc_of(a + b),
{
    crc32::law_feed_splits(crc32::INIT, a, b);
}

/// A new engine has taken nothing: its answer is 0xFFFF for CRC-16, where the register is
/// read as it is, and 0 for CRC-32, where it is inverted.
pub proof fn law_new_engines_answer(
    e16: SoftwareCrc16Ccitt,
    e32: SoftwareCrc32Reflected,
    sum16: u16,
    sum32: u32,
)
    requires
        call_ensures(SoftwareCrc16Ccitt::new, (), e16),
        call_ensures(SoftwareCrc32Reflected::new, (), e32),
        call_ensures(SoftwareCrc16Ccitt::finalize, (&e16,), sum16),
        call_ensures(SoftwareCrc32Reflected::finalize, (&e32,), sum32),
    ensures
        e16.register() == 0xFFFF && e32.register() == 0xFFFF_FFFF,
        sum16 == 0xFFFF && sum32 == 0,
{
    assert(0xFFFF_FFFFu32 ^ 0xFFFF_FFFFu32 == 0u32) by (bit_vector);
}

/// The answer of an engine is its register for CRC-16 and the complement of its register
/// for CRC-32.
pub proof fn law_answers_by_register(
    e16: SoftwareCrc16Ccitt,
    e32: SoftwareCrc32Reflected,
    sum16: u16,
    sum32: u32,
)
    requires
        call_ensures(SoftwareCrc16Ccitt::finalize, (&e16,), sum16),
        call_ensures(SoftwareCrc32Reflected::finalize, (&e32,), sum32),
    ensures
        sum16 == e16.register(),
        sum32 == 0xFFFF_FFFF - e32.register(),
{
    let x = e32.register();
    assert(x ^ 0xFFFF_FFFFu32 == 0xFFFF_FFFFu32 - x) by (bit_vector);
}

/// A reset engine is as good as a new one, and taking bytes one piece at a time goes on
/// from where the register stands.
pub proof fn law_engines_go_on(
    a: &mut SoftwareCrc16Ccitt,
    b: &mut SoftwareCrc16Ccitt,
    c: &mut SoftwareCrc32Reflected,
    d: &mut SoftwareCrc32Reflected,
    data: &[u8],
    sum16: u16,
    sum32: u32,
)
    requires
        call_ensures(SoftwareCrc16Ccitt::reset, (a,), ()),
        call_ensures(SoftwareCrc16Ccitt::update, (b, data), ()),
        call_ensures(SoftwareCrc32Reflected::reset, (c,), ()),
        call_ensures(SoftwareCrc32Reflected::update, (d, data), ()),
        call_ensures(crc16::update, (old(b).register(), data), sum16),
        call_ensures(crc32::update, (old(d).register(), data), sum32),
    ensures
        final(a).register() == 0xFFFF && final(c).register() == 0xFFFF_FFFF,
        final(b).register() == sum16,
        final(d).register() == sum32,
{
}

/// By default it starts as a new one does.
pub proof fn law_software_crc16_ccitt_by_default(d: SoftwareCrc16Ccitt)
    requires
        call_ensures(SoftwareCrc16Ccitt::default, (), d),
    ensures
        d.register() == 0xFFFF,
{
}

/// By default it starts as a new one does.
pub proof fn law_software_crc32_reflected_by_default(d: SoftwareCrc32Reflected)
    requires
        call_ensures(SoftwareCrc32Reflected::default, (), d),
    ensures
        d.register() == 0xFFFF_FFFF,
{
}

} // verus!

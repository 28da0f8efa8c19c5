//! Buffers of fixed capacity.
//!
//! Packet payloads and whole frames live in `heapless::Vec`s and typed lines in
//! `heapless::String`s, so they need no allocator. The functions here are what the
//! rest of the code calls on them.

use vstd::prelude::*;

use crate::packet::{MAX_PACKET, MAX_PAYLOAD};

verus! {

/// `heapless::Vec`, a vector that holds at most `N` items in place.
#[verifier::external_type_specification]
#[verifier::external_body]
#[verifier::reject_recursive_types(T)]
pub struct ExHeaplessVec<T, const N: usize>(heapless::Vec<T, N>);

/// The bytes that a payload buffer holds, first to last.
pub uninterp spec fn payload_bytes(v: heapless::Vec<u8, MAX_PAYLOAD>) -> Seq<u8>;

/// The bytes that a frame buffer holds, first to last.
pub uninterp spec fn frame_bytes(v: heapless::Vec<u8, MAX_PACKET>) -> Seq<u8>;

/// `heapless::Vec::new` at payload capacity: the new vector holds nothing.
#[verifier::external_body]
pub(crate) fn payload_new() -> (r: heapless::Vec<u8, MAX_PAYLOAD>)
    ensures
        payload_bytes(r) == Seq::<u8>::empty(),
{
    heapless::Vec::new()
}

/// `heapless::Vec::extend_from_slice` at payload capacity: it appends all of
/// `src` and succeeds when the result fits, and otherwise fails and leaves the
/// contents as they were.
#[verifier::external_body]
pub(crate) fn payload_extend(v: &mut heapless::Vec<u8, MAX_PAYLOAD>, src: &[u8]) -> (r: Result<
    (),
    (),
>)
    ensures
        r is Ok <==> payload_bytes(*old(v)).len() + src@.len() <= MAX_PAYLOAD,
        r is Ok ==> payload_bytes(*final(v)) == payload_bytes(*old(v)) + src@,
        r is Err ==> payload_bytes(*final(v)) == payload_bytes(*old(v)),
{
    v.extend_from_slice(src)
}

/// `heapless::Vec::as_slice` at payload capacity: the contents, which never
/// exceed the capacity.
#[verifier::external_body]
pub(crate) fn payload_slice(v: &heapless::Vec<u8, MAX_PAYLOAD>) -> (r: &[u8])
    ensures
        r@ == payload_bytes(*v),
        r@.len() <= MAX_PAYLOAD,
{
    v.as_slice()
}

/// `heapless::Vec::new` at frame capacity: the new vector holds nothing.
#[verifier::external_body]
pub(crate) fn frame_new() -> (r: heapless::Vec<u8, MAX_PACKET>)
    ensures
        frame_bytes(r) == Seq::<u8>::empty(),
{
    heapless::Vec::new()
}

/// `heapless::Vec::extend_from_slice` at frame capacity: it appends all of
/// `src` and succeeds when the result fits, and otherwise fails and leaves the
/// contents as they were.
#[verifier::external_body]
pub(crate) fn frame_extend(v: &mut heapless::Vec<u8, MAX_PACKET>, src: &[u8]) -> (r: Result<
    (),
    (),
>)
    ensures
        r is Ok <==> frame_bytes(*old(v)).len() + src@.len() <= MAX_PACKET,
        r is Ok ==> frame_bytes(*final(v)) == frame_bytes(*old(v)) + src@,
        r is Err ==> frame_bytes(*final(v)) == frame_bytes(*old(v)),
{
    v.extend_from_slice(src)
}

/// Longest typed line, in bytes.
pub const MAX_LINE: usize = 64;

/// `heapless::String`, a string that holds at most `N` bytes in place.
#[verifier::external_type_specification]
#[verifier::external_body]
pub struct ExHeaplessString<const N: usize>(heapless::String<N>);

/// The bytes of a line, first to last.
pub uninterp spec fn line_bytes(s: heapless::String<MAX_LINE>) -> Seq<u8>;

/// `heapless::String::new`: the new string is empty.
#[verifier::external_body]
pub(crate) fn line_new() -> (r: heapless::String<MAX_LINE>)
    ensures
        line_bytes(r) == Seq::<u8>::empty(),
{
    heapless::String::new()
}

/// `heapless::String::push` of an ASCII character: it appends the character and
/// succeeds when there is room for it, and otherwise fails and leaves the string as
/// it was.
#[verifier::external_body]
pub(crate) fn line_push(s: &mut heapless::String<MAX_LINE>, c: u8) -> (r: Result<(), ()>)
    requires
        c < 128,
    ensures
        r is Ok <==> line_bytes(*old(s)).len() < MAX_LINE,
        r is Ok ==> line_bytes(*final(s)) == line_bytes(*old(s)).push(c),
        r is Err ==> line_bytes(*final(s)) == line_bytes(*old(s)),
{
    s.push(c as char)
}

} // verus!

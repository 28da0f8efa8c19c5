//! Images that are served in blocks.

use vstd::prelude::*;

verus! {

/// Block `block_no` of `image`, counted from 0, or `None` past the end. The last
/// block may be shorter than `block_size`.
pub open spec fn block_of(image: Seq<u8>, block_no: nat, block_size: nat) -> Option<Seq<u8>> {
    let start = (block_no * block_size) as int;
    if start >= image.len() {
        None
    } else if start + block_size < image.len() {
        Some(image.subrange(start, start + block_size))
    } else {
        Some(image.subrange(start, image.len() as int))
    }
}

/// The first `count` blocks of `image`, one behind the other.
pub open spec fn joined_blocks(image: Seq<u8>, count: nat, block_size: nat) -> Seq<u8>
    decreases count,
{
    if count == 0 {
        Seq::empty()
    } else {
        let front = joined_blocks(image, (count - 1) as nat, block_size);
        match block_of(image, (count - 1) as nat, block_size) {
            Some(block) => front + block,
            None => front,
        }
    }
}

proof fn lemma_joined_blocks(image: Seq<u8>, count: nat, block_size: nat)
    ensures
        joined_blocks(image, count, block_size) == image.take(
            if count * block_size < image.len() {
                (count * block_size) as int
            } else {
                image.len() as int
            },
        ),
    decreases count,
{
    if count == 0 {
        assert(joined_blocks(image, count, block_size) =~= image.take(0));
    } else {
        let m = (count - 1) as nat;
        lemma_joined_blocks(image, m, block_size);
        assert(count * block_size == m * block_size + block_size) by (nonlinear_arith)
            requires
                count == m + 1,
        ;
        let whole = joined_blocks(image, count, block_size);
        if count * block_size < image.len() {
            assert(whole =~= image.take((count * block_size) as int));
        } else {
            assert(whole =~= image.take(image.len() as int));
        }
    }
}

/// The blocks of an image, taken from 0 on without a gap until the end is
/// covered, put together are the image. Every block up to there exists, and none
/// past it.
pub proof fn law_blocks_reassemble(image: Seq<u8>, count: nat, block_size: nat)
    requires
        count * block_size >= image.len(),
        count > 0 ==> (count - 1) * block_size < image.len(),
    ensures
        joined_blocks(image, count, block_size) == image,
        forall|k: nat| k < count ==> #[trigger] block_of(image, k, block_size) is Some,
        forall|k: nat| k >= count ==> #[trigger] block_of(image, k, block_size) is None,
{
    lemma_joined_blocks(image, count, block_size);
    assert(image.take(image.len() as int) =~= image);
    assert forall|k: nat| k < count implies #[trigger] block_of(image, k, block_size) is Some by {
        assert(k * block_size <= (count - 1) * block_size) by (nonlinear_arith)
            requires
                k <= count - 1,
        ;
    }
    assert forall|k: nat| k >= count implies #[trigger] block_of(image, k, block_size) is None by {
        assert(k * block_size >= count * block_size) by (nonlinear_arith)
            requires
                k >= count,
        ;
    }
}

/// A blob of bytes that can be served in blocks of one size.
pub trait BlockSource {
    /// The bytes of the image.
    spec fn image(&self) -> Seq<u8>;

    /// The CRC-32 that is declared for the image.
    spec fn declared_crc(&self) -> u32;

    /// Image size in bytes.
    fn total_size(&self) -> (r: usize)
        ensures
            r == self.image().len(),
    ;

    /// CRC-32/IEEE of the whole image. The host compares its running CRC with it
    /// at the end of a download.
    fn crc32(&self) -> (r: u32)
        ensures
            r == self.declared_crc(),
    ;

    /// The bytes of block `block_no` and their number, which is given modulo 256.
    /// `None` if the block is past the end of the image.
    fn block(&self, block_no: u16, block_size: usize) -> (r: Option<(&[u8], u8)>)
        requires
            block_no * block_size < self.image().len() ==> block_no * block_size + block_size
                <= usize::MAX,
        ensures
            match r {
                Some((data, count)) => block_of(
                    self.image(),
                    block_no as nat,
                    block_size as nat,
                ) == Some(data@) && count == data@.len() % 256,
                None => block_of(self.image(), block_no as nat, block_size as nat) is None,
            },
    ;
}

/// Block `block_no` of `data` and its length modulo 256.
pub fn slice_block(data: &'static [u8], block_no: u16, block_size: usize) -> (r: Option<
    (&'static [u8], u8),
>)
    requires
        block_no * block_size < data@.len() ==> block_no * block_size + block_size <= usize::MAX,
    ensures
        match r {
            Some((block, count)) => block_of(data@, block_no as nat, block_size as nat) == Some(
                block@,
            ) && count == block@.len() % 256,
            None => block_of(data@, block_no as nat, block_size as nat) is None,
        },
{
    let len: usize = data.len();
    let start: usize = match (block_no as usize).checked_mul(block_size) {
        Some(start) => start,
        None => {
            return None;
        },
    };
    if start >= len {
        return None;
    }
    let end: usize = if start + block_size < len {
        start + block_size
    } else {
        len
    };
    let slice: &'static [u8] = &data[start..end];
    let count: u8 = (slice.len() % 256) as u8;
    Some((slice, count))
}

/// An image in memory together with its CRC.
#[derive(Debug, Clone, Copy)]
pub struct SliceBlob {
    data: &'static [u8],
    crc32: u32,
}

impl SliceBlob {
    /// An image with a CRC computed beforehand.
    pub fn new(data: &'static [u8], crc32: u32) -> (r: Self)
        ensures
            r.image() == data@,
            r.declared_crc() == crc32,
    {
        SliceBlob { data, crc32 }
    }
}

impl BlockSource for SliceBlob {
    closed spec fn image(&self) -> Seq<u8> {
        self.data@
    }

    closed spec fn declared_crc(&self) -> u32 {
        self.crc32
    }

    fn total_size(&self) -> usize {
        self.data.len()
    }

    fn crc32(&self) -> u32 {
        self.crc32
    }

    fn block(&self, block_no: u16, block_size: usize) -> Option<(&[u8], u8)> {
        slice_block(self.data, block_no, block_size)
    }
}

/// A block is where it belongs in the image: byte `i` of block `k` is byte
/// `k * size + i` of the image. A block is full unless the image ends in it, and there is
/// none behind the end.
pub proof fn law_block_is_its_stretch(data: &'static [u8], k: u16, size: usize, got: Option<
    (&'static [u8], u8),
>)
    requires
        call_ensures(slice_block, (data, k, size), got),
    ensures
        got is None <==> k * size >= data@.len(),
        got matches Some((block, count)) ==> {
            &&& forall|i: int| 0 <= i < block@.len() ==> #[trigger] block@[i] == data@[k * size + i]
            &&& k * size + size <= data@.len() ==> block@.len() == size
            &&& k * size + size > data@.len() ==> k * size + block@.len() == data@.len()
            &&& count == block@.len() % 256
        },
{
}

/// A blob holds the bytes and the CRC that it was made of.
pub proof fn law_blob_holds_its_parts(
    data: &'static [u8],
    crc: u32,
    blob: SliceBlob,
    size: usize,
    sum: u32,
)
    requires
        call_ensures(SliceBlob::new, (data, crc), blob),
        call_ensures(SliceBlob::total_size, (&blob,), size),
        call_ensures(SliceBlob::crc32, (&blob,), sum),
    ensures
        blob.image() == data@,
        size == data@.len(),
        sum == crc,
{
}

} // verus!

//! The block-device core: one contiguous byte buffer addressed by a fixed
//! geometry, with read, write, flush and trim semantics.

use vstd::prelude::*;

verus! {

/// What a read returns: the `len` bytes of `data` starting at `offset`.
pub open spec fn read_spec(data: Seq<u8>, offset: int, len: int) -> Seq<u8>
    recommends
        0 <= offset,
        0 <= len,
        offset + len <= data.len(),
{
    data.subrange(offset, offset + len)
}

/// What a write leaves behind: `data` with `bytes` laid over it starting
/// at `offset`, everything else untouched.
pub open spec fn write_spec(data: Seq<u8>, offset: int, bytes: Seq<u8>) -> Seq<u8>
    recommends
        0 <= offset,
        offset + bytes.len() <= data.len(),
{
    Seq::new(
        data.len(),
        |i: int|
            if offset <= i < offset + bytes.len() {
                bytes[i - offset]
            } else {
                data[i]
            },
    )
}

/// Reading a just-written range returns exactly the written bytes.
pub proof fn lemma_write_then_read(data: Seq<u8>, offset: int, bytes: Seq<u8>)
    requires
        0 <= offset,
        offset + bytes.len() <= data.len(),
    ensures
        read_spec(write_spec(data, offset, bytes), offset, bytes.len() as int) == bytes,
{
    assert(read_spec(write_spec(data, offset, bytes), offset, bytes.len() as int) =~= bytes);
}

/// Non-overlapping writes are independently observable: after writing `a`
/// and then `b` at disjoint offsets, reading either range returns the
/// bytes written there, unaffected by the other write.
pub proof fn lemma_disjoint_writes(data: Seq<u8>, off_a: int, a: Seq<u8>, off_b: int, b: Seq<u8>)
    requires
        0 <= off_a,
        0 <= off_b,
        off_a + a.len() <= data.len(),
        off_b + b.len() <= data.len(),
        off_a + a.len() <= off_b || off_b + b.len() <= off_a,
    ensures
        read_spec(write_spec(write_spec(data, off_a, a), off_b, b), off_a, a.len() as int) == a,
        read_spec(write_spec(write_spec(data, off_a, a), off_b, b), off_b, b.len() as int) == b,
{
    let twice = write_spec(write_spec(data, off_a, a), off_b, b);
    assert(read_spec(twice, off_a, a.len() as int) =~= a);
    assert(read_spec(twice, off_b, b.len() as int) =~= b);
}

/// Decides whether the byte range `[offset, offset + len)` lies within
/// `capacity` bytes; the overflow of `offset + len` is decided, not
/// assumed away. Callers that hand transfers to a device guard each one
/// with this test.
pub fn range_in_bounds(capacity: u64, offset: u64, len: u64) -> (r: bool)
    ensures
        r == (offset + len <= capacity),
{
    offset <= capacity && len <= capacity - offset
}

/// A virtual RAM disk: a fixed geometry over one contiguous byte buffer.
///
/// Like the device-memory allocation it models, the buffer's contents at
/// allocation are not promised: a consumer must not assume pristine
/// state, only that what it wrote comes back.
pub struct VramDisk {
    blocks: u64,
    block_size: u64,
    data: Vec<u8>,
}

impl VramDisk {
    /// The disk's byte contents.
    pub closed spec fn contents(&self) -> Seq<u8> {
        self.data@
    }

    /// The fixed number of blocks.
    pub closed spec fn spec_blocks(&self) -> u64 {
        self.blocks
    }

    /// The fixed block size in bytes.
    pub closed spec fn spec_block_size(&self) -> u64 {
        self.block_size
    }

    /// Well-formed: at least one block, a block size that the capability
    /// interface can report as a `u32`, and a buffer of exactly
    /// `blocks x block_size` bytes.
    pub open spec fn wf(&self) -> bool {
        &&& self.spec_blocks() >= 1
        &&& 512 <= self.spec_block_size() <= u32::MAX
        &&& self.contents().len() == self.spec_blocks() * self.spec_block_size()
    }

    /// Allocates a disk of `blocks` blocks of `block_size` bytes, its
    /// contents unspecified. Fails exactly when the geometry is
    /// degenerate (no blocks, a block size outside `[512, u32::MAX]`) or
    /// the buffer would not fit in addressable memory.
    pub fn new(blocks: u64, block_size: u64) -> (r: Option<VramDisk>)
        ensures
            match r {
                Some(d) => {
                    &&& blocks >= 1
                    &&& 512 <= block_size <= u32::MAX
                    &&& blocks * block_size <= usize::MAX
                    &&& d.wf()
                    &&& d.spec_blocks() == blocks
                    &&& d.spec_block_size() == block_size
                },
                None => blocks < 1 || block_size < 512 || block_size > u32::MAX || blocks
                    * block_size > usize::MAX,
            },
    {
        if blocks == 0 || block_size < 512 || block_size > u32::MAX as u64 {
            return None;
        }
        if blocks > usize::MAX as u64 / block_size {
            proof {
                vstd::arithmetic::div_mod::lemma_fundamental_div_mod(usize::MAX as int, block_size as int);
                assert(blocks * block_size > usize::MAX) by (nonlinear_arith)
                    requires
                        blocks >= usize::MAX as int / block_size as int + 1,
                        usize::MAX as int == (usize::MAX as int / block_size as int) * (
                        block_size as int) + (usize::MAX as int) % (block_size as int),
                        (usize::MAX as int) % (block_size as int) < block_size as int,
                        block_size >= 1,
                ;
            }
            return None;
        }
        proof {
            vstd::arithmetic::div_mod::lemma_fundamental_div_mod(usize::MAX as int, block_size as int);
            assert(blocks * block_size <= usize::MAX) by (nonlinear_arith)
                requires
                    blocks <= usize::MAX as int / block_size as int,
                    usize::MAX as int == (usize::MAX as int / block_size as int) * (
                    block_size as int) + (usize::MAX as int) % (block_size as int),
                    (usize::MAX as int) % (block_size as int) >= 0,
                    block_size >= 1,
            ;
        }
        let n = (blocks * block_size) as usize;
        let mut data: Vec<u8> = Vec::new();
        while data.len() < n
            invariant
                data@ =~= Seq::new(data@.len(), |i: int| 0u8),
                data@.len() <= n,
            decreases n - data@.len(),
        {
            data.push(0u8);
            proof {
                assert(data@ =~= Seq::new(data@.len(), |i: int| 0u8));
            }
        }
        proof {
            assert(data@ =~= Seq::new((blocks * block_size) as nat, |i: int| 0u8));
        }
        Some(VramDisk { blocks, block_size, data })
    }

    /// Reads `len` bytes starting at byte offset `offset`.
    pub fn read(&self, offset: u64, len: usize) -> (r: Vec<u8>)
        requires
            self.wf(),
            offset + len <= self.contents().len(),
        ensures
            r@ == read_spec(self.contents(), offset as int, len as int),
    {
        proof {
            assert(self.data.len() == self.data@.len());
        }
        let off = offset as usize;
        let mut out: Vec<u8> = Vec::new();
        let mut i: usize = 0;
        while i < len
            invariant
                i <= len,
                off == offset,
                offset + len <= self.contents().len(),
                self.contents().len() <= usize::MAX,
                out@ =~= self.contents().subrange(offset as int, offset + i),
            decreases len - i,
        {
            out.push(self.data[off + i]);
            proof {
                assert(out@ =~= self.contents().subrange(offset as int, offset + i + 1));
            }
            i = i + 1;
        }
        proof {
            assert(out@ =~= read_spec(self.contents(), offset as int, len as int));
        }
        out
    }

    /// Writes `bytes` starting at byte offset `offset`; nothing outside
    /// the written range changes.
    pub fn write(&mut self, offset: u64, bytes: &[u8])
        requires
            old(self).wf(),
            offset + bytes@.len() <= old(self).contents().len(),
        ensures
            final(self).wf(),
            final(self).spec_blocks() == old(self).spec_blocks(),
            final(self).spec_block_size() == old(self).spec_block_size(),
            final(self).contents() == write_spec(old(self).contents(), offset as int, bytes@),
    {
        proof {
            assert(self.data.len() == self.data@.len());
        }
        let off = offset as usize;
        let len = bytes.len();
        let mut i: usize = 0;
        while i < len
            invariant
                i <= len,
                len == bytes@.len(),
                off == offset,
                offset + len <= self.contents().len(),
                self.contents().len() <= usize::MAX,
                self.blocks == old(self).blocks,
                self.block_size == old(self).block_size,
                self.contents().len() == old(self).contents().len(),
                forall|j: int| 0 <= j < i ==> self.contents()[off + j] == bytes@[j],
                forall|j: int|
                    0 <= j < self.contents().len() && !(off <= j < off + i)
                        ==> self.contents()[j] == old(self).contents()[j],
            decreases len - i,
        {
            let b = bytes[i];
            self.data.set(off + i, b);
            i = i + 1;
        }
        proof {
            assert(self.contents() =~= write_spec(old(self).contents(), offset as int, bytes@));
        }
    }

    /// Flush is a no-op success: every transfer is already synchronous,
    /// so there is nothing buffered to drain. The contents are unchanged.
    pub fn flush(&mut self)
        ensures
            *final(self) == *old(self),
    {
    }

    /// Trim accepts the advisory discard hint and ignores it: a flat
    /// buffer reclaims no space. The contents are unchanged.
    pub fn trim(&mut self, _offset: u64, _len: u32)
        ensures
            *final(self) == *old(self),
    {
    }

    /// The disk is unmounted; advisory only, the buffer stays intact.
    pub fn unmount(&mut self)
        ensures
            *final(self) == *old(self),
    {
    }

    /// The fixed block size, as the capability interface reports it.
    pub fn block_size(&self) -> (r: u32)
        requires
            self.wf(),
        ensures
            r == self.spec_block_size(),
    {
        self.block_size as u32
    }

    /// The fixed number of blocks.
    pub fn blocks(&self) -> (r: u64)
        ensures
            r == self.spec_blocks(),
    {
        self.blocks
    }

    /// The total capacity in bytes.
    pub fn capacity(&self) -> (r: u64)
        requires
            self.wf(),
        ensures
            r == self.spec_blocks() * self.spec_block_size(),
    {
        proof {
            assert(self.data.len() == self.data@.len());
        }
        self.blocks * self.block_size
    }
}

} // verus!

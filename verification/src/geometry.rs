//! Disk geometry: block size validation and block-count calculation.

use vstd::prelude::*;
use vstd::arithmetic::power2::*;
use vstd::arithmetic::div_mod::*;

use crate::decimal::spec_parse_u64;
use crate::decimal::parse_u64;

verus! {

/// `n` is a power of two.
pub open spec fn spec_is_power_of_two(n: u64) -> bool {
    exists|e: nat| n == pow2(e)
}

/// A valid block size is a power of two, at least 512 bytes, and no
/// larger than the machine page size.
pub open spec fn valid_block_size(block_size: u64, page_size: u64) -> bool {
    &&& spec_is_power_of_two(block_size)
    &&& block_size >= 512
    &&& block_size <= page_size
}

/// The number of blocks needed to cover `size` bytes: the ceiling of
/// `size / block_size`.
pub open spec fn spec_blocks_for(size: u64, block_size: u64) -> int
    recommends
        size >= 1,
        block_size >= 1,
{
    (size - 1) / (block_size as int) + 1
}

/// Decides whether `n` is a power of two.
pub fn is_power_of_two(n: u64) -> (r: bool)
    ensures
        r == spec_is_power_of_two(n),
{
    if n == 0 {
        proof {
            assert forall|e: nat| 0 != pow2(e) by {
                lemma_pow2_pos(e);
            }
        }
        return false;
    }
    let mut p: u64 = 1;
    let ghost mut e: nat = 0;
    proof {
        lemma2_to64();
    }
    loop
        invariant
            1 <= p <= n,
            p == pow2(e),
        decreases n - p,
    {
        if p == n {
            proof {
                assert(n == pow2(e));
            }
            return true;
        }
        if p > n / 2 {
            proof {
                lemma_fundamental_div_mod(n as int, 2);
                assert(2 * p > n);
                assert forall|e2: nat| n != pow2(e2) by {
                    if e2 < e {
                        lemma_pow2_strictly_increases(e2, e);
                    } else if e2 == e {
                    } else {
                        lemma_pow2_unfold((e + 1) as nat);
                        assert(pow2((e + 1) as nat) == 2 * pow2(e));
                        if e2 > e + 1 {
                            lemma_pow2_strictly_increases((e + 1) as nat, e2);
                        }
                    }
                }
            }
            return false;
        }
        proof {
            lemma_fundamental_div_mod(n as int, 2);
            assert(2 * p <= n);
            lemma_pow2_unfold((e + 1) as nat);
            e = e + 1;
        }
        p = p * 2;
    }
}

/// Computes the block count for a requested size: `ceil(size / block_size)`.
pub fn blocks_for(size: u64, block_size: u64) -> (r: u64)
    requires
        size >= 1,
        block_size >= 1,
    ensures
        r == spec_blocks_for(size, block_size),
{
    proof {
        lemma_div_is_ordered_by_denominator((size - 1) as int, 1, block_size as int);
        lemma_div_by_self(1);
    }
    (size - 1) / block_size + 1
}

/// The block count covers the requested size and is exactly the ceiling
/// of `size / block_size`: the covered capacity is at least `size`, one
/// block fewer would fall short, and the count equals
/// `(size + block_size - 1) / block_size`.
pub proof fn lemma_blocks_cover(size: u64, block_size: u64)
    requires
        size >= 1,
        block_size >= 1,
    ensures
        spec_blocks_for(size, block_size) * block_size >= size,
        (spec_blocks_for(size, block_size) - 1) * block_size < size,
        spec_blocks_for(size, block_size) == (size + block_size - 1) / (block_size as int),
{
    let bs = block_size as int;
    let q = (size - 1) as int / bs;
    let r = (size - 1) as int % bs;
    lemma_fundamental_div_mod((size - 1) as int, bs);
    assert(size - 1 == q * bs + r);
    assert((q + 1) * bs == q * bs + bs) by (nonlinear_arith);
    assert((q + 1) * bs >= size);
    assert(q * bs < size);
    lemma_fundamental_div_mod_converse((size + block_size - 1) as int, bs, q + 1, r);
}

/// Why a block size argument is rejected.
#[derive(Clone, Copy, Debug, PartialEq, Eq)]
pub enum BlockSizeError {
    /// The argument is not a decimal number that fits in a `u64`.
    NotANumber,
    /// The block size is below 512 bytes.
    TooSmall,
    /// The block size is not a power of two.
    NotPowerOfTwo,
    /// The block size exceeds the machine page size.
    LargerThanPage,
}

/// Reads a block size argument and validates it against the machine page
/// size: the size must be a decimal number, a power of two, at least 512,
/// and at most `page_size`.
pub fn parse_block_size_arg(arg: &str, page_size: u64) -> (r: Result<u64, BlockSizeError>)
    ensures
        match spec_parse_u64(arg@) {
            None => r == Err::<u64, BlockSizeError>(BlockSizeError::NotANumber),
            Some(v) => r == (if v < 512 {
                Err::<u64, BlockSizeError>(BlockSizeError::TooSmall)
            } else if !spec_is_power_of_two(v) {
                Err::<u64, BlockSizeError>(BlockSizeError::NotPowerOfTwo)
            } else if v > page_size {
                Err::<u64, BlockSizeError>(BlockSizeError::LargerThanPage)
            } else {
                Ok::<u64, BlockSizeError>(v)
            }),
        },
        r matches Ok(v) ==> spec_parse_u64(arg@) == Some(v) && valid_block_size(v, page_size),
{
    let block_size = match parse_u64(arg) {
        Some(v) => v,
        None => {
            return Err(BlockSizeError::NotANumber);
        },
    };
    if block_size < 512 {
        return Err(BlockSizeError::TooSmall);
    }
    if !is_power_of_two(block_size) {
        return Err(BlockSizeError::NotPowerOfTwo);
    }
    if block_size > page_size {
        return Err(BlockSizeError::LargerThanPage);
    }
    Ok(block_size)
}

} // verus!

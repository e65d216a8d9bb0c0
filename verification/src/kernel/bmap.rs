//! The free-block bitmap: one bit per block, set when the block is in use.
use vstd::prelude::*;

use super::param::BSIZE;
use super::superblock::SuperBlock;

verus! {

/// Bits of a bitmap block.
pub const BPB: usize = 8192;

/// Whether bit `o` of the bitmap block is clear.
pub open spec fn bit_clear(b: Seq<u8>, o: int) -> bool {
    b[o / 8] & (1u8 << ((o % 8) as u8)) == 0
}

/// The bits of the bitmap block that stand for blocks `base` up to `size`.
pub open spec fn bits_in_block(base: int, size: int) -> int {
    if size - base < BPB {
        size - base
    } else {
        BPB as int
    }
}

/// Looks in the bitmap block for blocks `base` to `base + BPB` for the first
/// free block below `size`, marks it in use and returns its number; `None`
/// when all of them are in use.
pub fn alloc_in_block(bitmap: &mut [u8], base: usize, size: usize) -> (r: Option<u32>)
    requires
        old(bitmap)@.len() == BSIZE,
        base <= size,
        size <= 0x1_0000_0000,
    ensures
        match r {
            Some(blockno) => {
                let o = blockno - base;
                &&& 0 <= o < bits_in_block(base as int, size as int)
                &&& bit_clear(old(bitmap)@, o)
                &&& forall|j: int| 0 <= j < o ==> !bit_clear(old(bitmap)@, j)
                &&& final(bitmap)@ == old(bitmap)@.update(
                    o / 8,
                    old(bitmap)@[o / 8] | (1u8 << ((o % 8) as u8)),
                )
            },
            None => {
                &&& forall|j: int| 0 <= j < bits_in_block(base as int, size as int) ==> !bit_clear(old(bitmap)@, j)
                &&& final(bitmap)@ == old(bitmap)@
            },
        },
{
    let mut offset: usize = 0;
    while offset < BPB && offset < size - base
        invariant
            bitmap@ == old(bitmap)@,
            bitmap@.len() == BSIZE,
            base <= size <= 0x1_0000_0000,
            offset <= BPB,
            forall|j: int| 0 <= j < offset && j < size - base ==> !bit_clear(bitmap@, j),
        decreases BPB - offset,
    {
        let index = offset / 8;
        let bit = (offset % 8) as u8;
        if bitmap[index] & (1u8 << bit) != 0 {
            offset += 1;
            continue;
        }
        let marked = bitmap[index] | (1u8 << bit);
        bitmap[index] = marked;
        let blockno = (base + offset) as u32;
        return Some(blockno);
    }
    None
}

/// Frees block `blockno`: clears its bit in `bitmap`, the bitmap block that
/// holds it (the one for the blocks from `blockno - blockno % BPB` on). No
/// other bit changes.
pub fn free(bitmap: &mut [u8], blockno: u32)
    requires
        old(bitmap)@.len() == BSIZE,
    ensures
        ({
            let o = (blockno as int) % (BPB as int);
            &&& final(bitmap)@ == old(bitmap)@.update(
                o / 8,
                old(bitmap)@[o / 8] & !(1u8 << ((o % 8) as u8)),
            )
            &&& bit_clear(final(bitmap)@, o)
            &&& forall|j: int| 0 <= j < BPB && j != o ==> bit_clear(final(bitmap)@, j) == bit_clear(old(bitmap)@, j)
        }),
{
    let offset = (blockno as usize) % BPB;
    let index = offset / 8;
    let bit = (offset % 8) as u8;
    let cleared = bitmap[index] & !(1u8 << bit);
    bitmap[index] = cleared;
    proof {
        let b = old(bitmap)@[index as int];
        assert(cleared & (1u8 << bit) == 0) by (bit_vector)
            requires
                cleared == b & !(1u8 << bit),
                bit < 8,
        ;
        assert forall|j: int| 0 <= j < BPB && j != offset implies bit_clear(bitmap@, j) == bit_clear(old(bitmap)@, j) by {
            if j / 8 == index as int {
                let bj = (j % 8) as u8;
                assert(bj != bit);
                assert((cleared & (1u8 << bj) == 0) == (b & (1u8 << bj) == 0)) by (bit_vector)
                    requires
                        cleared == b & !(1u8 << bit),
                        bit < 8,
                        bj < 8,
                        bj != bit,
                ;
            }
        }
    }
}

/// The bitmap block that holds the bit of block `b`.
pub open spec fn bitmap_block_of(sb: &SuperBlock, b: int) -> int {
    b / (BPB as int) + sb.bmapstart
}

/// The bitmap block that holds the bit of block `b`.
pub fn bitmap_block(sb: &SuperBlock, b: u32) -> (r: u32)
    requires
        bitmap_block_of(sb, b as int) <= u32::MAX,
    ensures
        r == bitmap_block_of(sb, b as int),
{
    b / (BPB as u32) + sb.bmapstart
}

/// What the search for a free block does next.
#[derive(Debug, Clone, Copy, PartialEq, Eq, Structural)]
pub enum AllocStep {
    /// Block `0` was free and is now marked in use (the bitmap block has to be
    /// written back and the block zeroed).
    Found(u32),
    /// Read bitmap block `1`, which covers the blocks from `0` on.
    Read(usize, u32),
    /// Every block is in use.
    OutOfBlocks,
}

/// The step that reads the bitmap block for blocks from `base` on, or ends
/// the search when no block is left there.
pub open spec fn read_step(sb: &SuperBlock, base: int) -> AllocStep {
    if base < sb.size {
        AllocStep::Read(base as usize, bitmap_block_of(sb, base) as u32)
    } else {
        AllocStep::OutOfBlocks
    }
}

/// Where the search for a free block starts: the bitmap block for the
/// blocks from 0 on.
pub fn balloc_start(sb: &SuperBlock) -> (r: AllocStep)
    requires
        bitmap_block_of(sb, sb.size as int) <= u32::MAX,
    ensures
        r == read_step(sb, 0),
{
    if 0 < sb.size {
        AllocStep::Read(0, sb.bmapstart)
    } else {
        AllocStep::OutOfBlocks
    }
}

/// One step of the search, once the bitmap block for the blocks from `base`
/// on is read into `bitmap`: the first free block there, marked in use, or
/// else the next bitmap block to read, or the end when none is left.
pub fn balloc_step(sb: &SuperBlock, base: usize, bitmap: &mut [u8]) -> (r: AllocStep)
    requires
        old(bitmap)@.len() == BSIZE,
        base < sb.size,
        base % BPB == 0,
        bitmap_block_of(sb, sb.size as int) <= u32::MAX,
    ensures
        match r {
            AllocStep::Found(blockno) => {
                let o = blockno - base;
                &&& 0 <= o < bits_in_block(base as int, sb.size as int)
                &&& bit_clear(old(bitmap)@, o)
                &&& forall|j: int| 0 <= j < o ==> !bit_clear(old(bitmap)@, j)
                &&& final(bitmap)@ == old(bitmap)@.update(
                    o / 8,
                    old(bitmap)@[o / 8] | (1u8 << ((o % 8) as u8)),
                )
            },
            _ => {
                &&& forall|j: int| 0 <= j < bits_in_block(base as int, sb.size as int) ==> !bit_clear(old(bitmap)@, j)
                &&& final(bitmap)@ == old(bitmap)@
                &&& r == read_step(sb, base + BPB)
            },
        },
{
    match alloc_in_block(bitmap, base, sb.size as usize) {
        Some(b) => AllocStep::Found(b),
        None => {
            let next = match base.checked_add(BPB) {
                Some(n) => n,
                None => {
                    return AllocStep::OutOfBlocks;
                },
            };
            if next < sb.size as usize {
                proof {
                    assert((next as int) / (BPB as int) <= (sb.size as int) / (BPB as int)) by (nonlinear_arith)
                        requires (next as int) < (sb.size as int), (BPB as int) > 0;
                }
                AllocStep::Read(next, bitmap_block(sb, next as u32))
            } else {
                AllocStep::OutOfBlocks
            }
        },
    }
}

} // verus!

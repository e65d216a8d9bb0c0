//! The super block: where the parts of the file system start on disk.
use vstd::prelude::*;

use super::fs::IPB;
use super::layout::{get_u32, u32_at};

verus! {

/// The number a file system's super block starts with.
pub const FSMAGIC: u32 = 0x10203040;

/// Bytes of the super block on disk.
pub const SUPERBLOCK_SIZE: usize = 32;

/// The layout of a file system.
#[derive(Clone, Copy, Debug)]
pub struct SuperBlock {
    pub magic: u32,
    pub size: u32,
    pub nblocks: u32,
    pub ninodes: u32,
    pub nlog: u32,
    pub logstart: u32,
    pub inodestart: u32,
    pub bmapstart: u32,
}

impl SuperBlock {
    /// A super block of zeros.
    pub fn new() -> (sb: SuperBlock)
        ensures
            sb.magic == 0 && sb.size == 0 && sb.nblocks == 0 && sb.ninodes == 0,
            sb.nlog == 0 && sb.logstart == 0 && sb.inodestart == 0 && sb.bmapstart == 0,
    {
        SuperBlock {
            magic: 0,
            size: 0,
            nblocks: 0,
            ninodes: 0,
            nlog: 0,
            logstart: 0,
            inodestart: 0,
            bmapstart: 0,
        }
    }

    /// The super block at the start of `block`, when it starts with the
    /// magic number; `None` for a block of no file system.
    pub fn from_bytes(block: &[u8]) -> (r: Option<SuperBlock>)
        requires
            block@.len() >= SUPERBLOCK_SIZE,
        ensures
            r is Some <==> u32_at(block@, 0) == FSMAGIC,
            r matches Some(sb) ==> {
                &&& sb.magic == u32_at(block@, 0)
                &&& sb.size == u32_at(block@, 4)
                &&& sb.nblocks == u32_at(block@, 8)
                &&& sb.ninodes == u32_at(block@, 12)
                &&& sb.nlog == u32_at(block@, 16)
                &&& sb.logstart == u32_at(block@, 20)
                &&& sb.inodestart == u32_at(block@, 24)
                &&& sb.bmapstart == u32_at(block@, 28)
            },
    {
        let magic = get_u32(block, 0);
        if magic != FSMAGIC {
            return None;
        }
        Some(
            SuperBlock {
                magic,
                size: get_u32(block, 4),
                nblocks: get_u32(block, 8),
                ninodes: get_u32(block, 12),
                nlog: get_u32(block, 16),
                logstart: get_u32(block, 20),
                inodestart: get_u32(block, 24),
                bmapstart: get_u32(block, 28),
            },
        )
    }

    /// The block that holds inode `inum`.
    pub fn inode_block(&self, inum: u32) -> (r: u32)
        requires
            inum / (IPB as u32) + self.inodestart <= u32::MAX,
        ensures
            r == inum / (IPB as u32) + self.inodestart,
    {
        inum / (IPB as u32) + self.inodestart
    }
}

/// Where inode `inum` sits in its block, counted in inodes.
pub fn inode_offset(inum: u32) -> (r: usize)
    ensures
        r == inum % (IPB as u32),
{
    (inum % (IPB as u32)) as usize
}

} // verus!

//! Block group descriptors.

use crate::ext4::wire::{combine_u16, combine_u32, join16, join32, le16, le32, u16_at, u32_at};
use crate::utils::{short_buffer, Error, ParseContext};
use vstd::prelude::*;

verus! {

/// One record of the group descriptor table: where a block group keeps its
/// bitmaps and its inode table, and how much of it is free.
#[derive(Debug, Clone, Copy, PartialEq, Eq, Structural)]
pub struct BlockGroupDescriptor {
    pub block_bitmap_lo: u32,
    pub inode_bitmap_lo: u32,
    pub inode_table_first_block_lo: u32,
    pub free_blocks_count_lo: u16,
    pub free_inodes_count_lo: u16,
    pub used_dirs_count_lo: u16,
    pub flags: u16,
    pub exclude_bitmap_lo: u32,
    pub block_bitmap_csum_lo: u16,
    pub inode_bitmap_csum_lo: u16,
    pub itable_unused_lo: u16,
    pub checksum: u16,
    pub block_bitmap_hi: u32,
    pub inode_bitmap_hi: u32,
    pub inode_table_first_block_hi: u32,
    pub free_blocks_count_hi: u16,
    pub free_inodes_count_hi: u16,
    pub used_dirs_count_hi: u16,
    pub itable_unused_hi: u16,
    pub exclude_bitmap_hi: u32,
    pub block_bitmap_csum_hi: u16,
    pub inode_bitmap_csum_hi: u16,
    pub reserved: u32,
}

impl BlockGroupDescriptor {
    /// The size of a descriptor without its 64-bit half.
    pub const MIN_SIZE: u16 = 32;

    /// The size of a descriptor with its 64-bit half.
    pub const MAX_SIZE: u16 = 64;

    /// The descriptor that `data` encodes. The first 32 bytes hold the low
    /// halves; the high halves follow when `data` has 64 bytes or more and
    /// are zero otherwise.
    pub open spec fn decoded(data: Seq<u8>) -> BlockGroupDescriptor
        recommends
            data.len() >= 32,
    {
        let wide = data.len() >= 64;
        BlockGroupDescriptor {
            block_bitmap_lo: le32(data, 0) as u32,
            inode_bitmap_lo: le32(data, 4) as u32,
            inode_table_first_block_lo: le32(data, 8) as u32,
            free_blocks_count_lo: le16(data, 12) as u16,
            free_inodes_count_lo: le16(data, 14) as u16,
            used_dirs_count_lo: le16(data, 16) as u16,
            flags: le16(data, 18) as u16,
            exclude_bitmap_lo: le32(data, 20) as u32,
            block_bitmap_csum_lo: le16(data, 24) as u16,
            inode_bitmap_csum_lo: le16(data, 26) as u16,
            itable_unused_lo: le16(data, 28) as u16,
            checksum: le16(data, 30) as u16,
            block_bitmap_hi: if wide { le32(data, 32) as u32 } else { 0 },
            inode_bitmap_hi: if wide { le32(data, 36) as u32 } else { 0 },
            inode_table_first_block_hi: if wide { le32(data, 40) as u32 } else { 0 },
            free_blocks_count_hi: if wide { le16(data, 44) as u16 } else { 0 },
            free_inodes_count_hi: if wide { le16(data, 46) as u16 } else { 0 },
            used_dirs_count_hi: if wide { le16(data, 48) as u16 } else { 0 },
            itable_unused_hi: if wide { le16(data, 50) as u16 } else { 0 },
            exclude_bitmap_hi: if wide { le32(data, 52) as u32 } else { 0 },
            block_bitmap_csum_hi: if wide { le16(data, 56) as u16 } else { 0 },
            inode_bitmap_csum_hi: if wide { le16(data, 58) as u16 } else { 0 },
            reserved: if wide { le32(data, 60) as u32 } else { 0 },
        }
    }

    /// Decodes a descriptor from the start of `input`. Bytes after the
    /// descriptor are ignored.
    pub fn parse(input: &[u8]) -> (r: Result<Self, Error>)
        ensures
            input@.len() >= 32 ==> (r matches Ok(d) && d == Self::decoded(input@)),
            input@.len() < 32 ==> (r matches Err(e) && e@ == short_buffer(
                ParseContext::BlockGroupDescriptor,
            )),
    {
        let ctx = ParseContext::BlockGroupDescriptor;
        if input.len() < 32 {
            return Err(Error::invalid_data(ctx, "buffer too small"));
        }
        let block_bitmap_lo = u32_at(input, 0, ctx)?;
        let inode_bitmap_lo = u32_at(input, 4, ctx)?;
        let inode_table_first_block_lo = u32_at(input, 8, ctx)?;
        let free_blocks_count_lo = u16_at(input, 12, ctx)?;
        let free_inodes_count_lo = u16_at(input, 14, ctx)?;
        let used_dirs_count_lo = u16_at(input, 16, ctx)?;
        let flags = u16_at(input, 18, ctx)?;
        let exclude_bitmap_lo = u32_at(input, 20, ctx)?;
        let block_bitmap_csum_lo = u16_at(input, 24, ctx)?;
        let inode_bitmap_csum_lo = u16_at(input, 26, ctx)?;
        let itable_unused_lo = u16_at(input, 28, ctx)?;
        let checksum = u16_at(input, 30, ctx)?;
        let mut d = BlockGroupDescriptor {
            block_bitmap_lo,
            inode_bitmap_lo,
            inode_table_first_block_lo,
            free_blocks_count_lo,
            free_inodes_count_lo,
            used_dirs_count_lo,
            flags,
            exclude_bitmap_lo,
            block_bitmap_csum_lo,
            inode_bitmap_csum_lo,
            itable_unused_lo,
            checksum,
            block_bitmap_hi: 0,
            inode_bitmap_hi: 0,
            inode_table_first_block_hi: 0,
            free_blocks_count_hi: 0,
            free_inodes_count_hi: 0,
            used_dirs_count_hi: 0,
            itable_unused_hi: 0,
            exclude_bitmap_hi: 0,
            block_bitmap_csum_hi: 0,
            inode_bitmap_csum_hi: 0,
            reserved: 0,
        };
        if input.len() >= 64 {
            d.block_bitmap_hi = u32_at(input, 32, ctx)?;
            d.inode_bitmap_hi = u32_at(input, 36, ctx)?;
            d.inode_table_first_block_hi = u32_at(input, 40, ctx)?;
            d.free_blocks_count_hi = u16_at(input, 44, ctx)?;
            d.free_inodes_count_hi = u16_at(input, 46, ctx)?;
            d.used_dirs_count_hi = u16_at(input, 48, ctx)?;
            d.itable_unused_hi = u16_at(input, 50, ctx)?;
            d.exclude_bitmap_hi = u32_at(input, 52, ctx)?;
            d.block_bitmap_csum_hi = u16_at(input, 56, ctx)?;
            d.inode_bitmap_csum_hi = u16_at(input, 58, ctx)?;
            d.reserved = u32_at(input, 60, ctx)?;
        }
        Ok(d)
    }

    /// The block that holds the group's block bitmap.
    pub fn block_bitmap(&self) -> (r: u64)
        ensures
            r as int == join32(self.block_bitmap_hi as int, self.block_bitmap_lo as int),
    {
        combine_u32(self.block_bitmap_hi, self.block_bitmap_lo)
    }

    /// The block that holds the group's inode bitmap.
    pub fn inode_bitmap(&self) -> (r: u64)
        ensures
            r as int == join32(self.inode_bitmap_hi as int, self.inode_bitmap_lo as int),
    {
        combine_u32(self.inode_bitmap_hi, self.inode_bitmap_lo)
    }

    /// The first block of the group's inode table.
    pub fn inode_table_first_block(&self) -> (r: u64)
        ensures
            r as int == self.spec_inode_table_first_block(),
    {
        combine_u32(self.inode_table_first_block_hi, self.inode_table_first_block_lo)
    }

    pub open spec fn spec_inode_table_first_block(&self) -> int {
        join32(self.inode_table_first_block_hi as int, self.inode_table_first_block_lo as int)
    }

    /// The number of free blocks in the group.
    pub fn free_blocks_count(&self) -> (r: u32)
        ensures
            r as int == join16(self.free_blocks_count_hi as int, self.free_blocks_count_lo as int),
    {
        combine_u16(self.free_blocks_count_hi, self.free_blocks_count_lo)
    }

    /// The number of free inodes in the group.
    pub fn free_inodes_count(&self) -> (r: u32)
        ensures
            r as int == join16(self.free_inodes_count_hi as int, self.free_inodes_count_lo as int),
    {
        combine_u16(self.free_inodes_count_hi, self.free_inodes_count_lo)
    }

    /// The number of directories in the group.
    pub fn used_dirs_count(&self) -> (r: u32)
        ensures
            r as int == join16(self.used_dirs_count_hi as int, self.used_dirs_count_lo as int),
    {
        combine_u16(self.used_dirs_count_hi, self.used_dirs_count_lo)
    }

    /// The number of inodes at the end of the table that were never used.
    pub fn itable_unused(&self) -> (r: u32)
        ensures
            r as int == join16(self.itable_unused_hi as int, self.itable_unused_lo as int),
    {
        combine_u16(self.itable_unused_hi, self.itable_unused_lo)
    }

    /// The block that holds the group's snapshot exclusion bitmap.
    pub fn exclude_bitmap(&self) -> (r: u64)
        ensures
            r as int == join32(self.exclude_bitmap_hi as int, self.exclude_bitmap_lo as int),
    {
        combine_u32(self.exclude_bitmap_hi, self.exclude_bitmap_lo)
    }
}

} // verus!

//! The records of an extent tree: node header, index entry and leaf extent.

use crate::ext4::wire::{combine_u32, join32, le16, le32, u16_at, u32_at};
use crate::utils::{short_buffer, Error, Failure, ParseContext};
use vstd::prelude::*;

verus! {

/// Logical block number inside a file.
pub type Ext4Lblk = u32;

/// Physical block number inside the image.
pub type Ext4Fsblk = u64;

/// The number that opens every node of an extent tree.
pub const EXTENT_MAGIC: u16 = 0xF30A;

/// The header that opens every node of an extent tree.
#[derive(Debug, Default, Clone, Copy, PartialEq, Eq, Structural)]
pub struct ExtentHeader {
    pub magic: u16,
    pub entries_count: u16,
    pub max_entries_count: u16,
    pub depth: u16,
    pub generation: u32,
}

/// The failure of a header that counts more entries than its node can hold.
pub open spec fn crowded_header() -> Failure {
    Failure::InvalidData {
        context: ParseContext::ExtentHeader,
        message: "entry count exceeds the node's capacity"@,
    }
}

impl ExtentHeader {
    pub const SIZE: usize = 12;

    /// The header that the first twelve bytes of `data` encode.
    pub open spec fn decoded(data: Seq<u8>) -> ExtentHeader
        recommends
            data.len() >= 12,
    {
        ExtentHeader {
            magic: le16(data, 0) as u16,
            entries_count: le16(data, 2) as u16,
            max_entries_count: le16(data, 4) as u16,
            depth: le16(data, 6) as u16,
            generation: le32(data, 8) as u32,
        }
    }

    /// What decoding `data` gives: the fields are taken in the order in which
    /// they are stored, and the first one that cannot be accepted decides the
    /// failure.
    pub open spec fn parsed(data: Seq<u8>) -> Result<ExtentHeader, Failure> {
        if data.len() < 2 {
            Err(short_buffer(ParseContext::ExtentHeader))
        } else if le16(data, 0) != 0xF30A {
            Err(Failure::InvalidMagic(ParseContext::ExtentHeader))
        } else if data.len() < 12 {
            Err(short_buffer(ParseContext::ExtentHeader))
        } else if le16(data, 2) > le16(data, 4) {
            Err(crowded_header())
        } else {
            Ok(Self::decoded(data))
        }
    }

    /// Decodes a node header from the start of `bytes`.
    pub fn parse(bytes: &[u8]) -> (r: Result<Self, Error>)
        ensures
            match r {
                Ok(h) => Self::parsed(bytes@) == Ok::<ExtentHeader, Failure>(h),
                Err(e) => Self::parsed(bytes@) == Err::<ExtentHeader, Failure>(e@),
            },
            r matches Ok(h) ==> h.magic == 0xF30A && h.entries_count <= h.max_entries_count,
    {
        let ctx = ParseContext::ExtentHeader;
        let magic = u16_at(bytes, 0, ctx)?;
        if magic != EXTENT_MAGIC {
            return Err(Error::InvalidMagic(ctx));
        }
        let entries_count = u16_at(bytes, 2, ctx)?;
        let max_entries_count = u16_at(bytes, 4, ctx)?;
        let depth = u16_at(bytes, 6, ctx)?;
        let generation = u32_at(bytes, 8, ctx)?;
        if entries_count > max_entries_count {
            return Err(Error::invalid_data(ctx, "entry count exceeds the node's capacity"));
        }
        Ok(ExtentHeader { magic, entries_count, max_entries_count, depth, generation })
    }

    /// The number of entries that follow the header.
    pub fn entries_count(&self) -> (r: u16)
        ensures
            r == self.entries_count,
    {
        self.entries_count
    }

    /// The distance from this node to the leaves; a leaf has depth 0.
    pub fn depth(&self) -> (r: u16)
        ensures
            r == self.depth,
    {
        self.depth
    }
}

/// An entry of an internal node: the child that covers the logical blocks
/// from `first_block` on.
#[derive(Debug, Default, Clone, Copy, PartialEq, Eq, Structural)]
pub struct ExtentIndex {
    pub first_block: u32,
    pub leaf_lo: u32,
    pub leaf_hi: u16,
    pub padding: u16,
}

impl ExtentIndex {
    pub const SIZE: usize = 12;

    /// The most index entries that a block of 4096 bytes holds.
    pub const MAX_INDEX_COUNT: usize = 340;

    /// The index entry that the first twelve bytes of `data` encode.
    pub open spec fn decoded(data: Seq<u8>) -> ExtentIndex
        recommends
            data.len() >= 12,
    {
        ExtentIndex {
            first_block: le32(data, 0) as u32,
            leaf_lo: le32(data, 4) as u32,
            leaf_hi: le16(data, 8) as u16,
            padding: le16(data, 10) as u16,
        }
    }

    /// Decodes an index entry from the start of `bytes`.
    pub fn parse(bytes: &[u8]) -> (r: Result<Self, Error>)
        ensures
            bytes@.len() >= 12 ==> (r matches Ok(x) && x == Self::decoded(bytes@)),
            bytes@.len() < 12 ==> (r matches Err(e) && e@ == short_buffer(
                ParseContext::ExtentIndex,
            )),
    {
        let ctx = ParseContext::ExtentIndex;
        if bytes.len() < 12 {
            return Err(Error::invalid_data(ctx, "buffer too small"));
        }
        let first_block = u32_at(bytes, 0, ctx)?;
        let leaf_lo = u32_at(bytes, 4, ctx)?;
        let leaf_hi = u16_at(bytes, 8, ctx)?;
        let padding = u16_at(bytes, 10, ctx)?;
        Ok(ExtentIndex { first_block, leaf_lo, leaf_hi, padding })
    }

    pub open spec fn spec_leaf_block(&self) -> int {
        join32(self.leaf_hi as int, self.leaf_lo as int)
    }

    /// The block that holds the child node.
    pub fn leaf_block(&self) -> (r: u64)
        ensures
            r as int == self.spec_leaf_block(),
    {
        combine_u32(self.leaf_hi as u32, self.leaf_lo)
    }
}

/// An entry of a leaf: a run of logical blocks and the physical run that
/// holds them.
#[derive(Debug, Default, Clone, Copy, PartialEq, Eq, Structural)]
pub struct Extent {
    pub first_block: u32,
    pub block_count: u16,
    pub start_hi: u16,
    pub start_lo: u32,
}

impl Extent {
    pub const SIZE: usize = 12;

    /// The longest run that an initialized extent can cover.
    pub const INIT_MAX_LEN: u16 = 32768;

    /// The largest count that an unwritten extent can carry.
    pub const UNWRITTEN_MAX_LEN: u16 = 65535;

    /// The largest logical block number.
    pub const EXT_MAX_BLOCKS: Ext4Lblk = u32::MAX;

    /// The extent that the first twelve bytes of `data` encode.
    pub open spec fn decoded(data: Seq<u8>) -> Extent
        recommends
            data.len() >= 12,
    {
        Extent {
            first_block: le32(data, 0) as u32,
            block_count: le16(data, 4) as u16,
            start_hi: le16(data, 6) as u16,
            start_lo: le32(data, 8) as u32,
        }
    }

    /// Decodes an extent from the start of `bytes`.
    pub fn parse(bytes: &[u8]) -> (r: Result<Self, Error>)
        ensures
            bytes@.len() >= 12 ==> (r matches Ok(x) && x == Self::decoded(bytes@)),
            bytes@.len() < 12 ==> (r matches Err(e) && e@ == short_buffer(ParseContext::Extent)),
    {
        let ctx = ParseContext::Extent;
        if bytes.len() < 12 {
            return Err(Error::invalid_data(ctx, "buffer too small"));
        }
        let first_block = u32_at(bytes, 0, ctx)?;
        let block_count = u16_at(bytes, 4, ctx)?;
        let start_hi = u16_at(bytes, 6, ctx)?;
        let start_lo = u32_at(bytes, 8, ctx)?;
        Ok(Extent { first_block, block_count, start_hi, start_lo })
    }

    /// The first logical block that the extent covers.
    pub fn first_block(&self) -> (r: u64)
        ensures
            r == self.first_block,
    {
        self.first_block as u64
    }

    pub open spec fn spec_start_block(&self) -> int {
        join32(self.start_hi as int, self.start_lo as int)
    }

    /// The physical block that holds the extent's first logical block.
    pub fn start_block(&self) -> (r: u64)
        ensures
            r as int == self.spec_start_block(),
    {
        combine_u32(self.start_hi as u32, self.start_lo)
    }

    pub open spec fn spec_is_unwritten(&self) -> bool {
        self.block_count > 32768
    }

    /// Whether the extent is allocated but was never written; such an extent
    /// reads as zeros.
    #[verifier::when_used_as_spec(spec_is_unwritten)]
    pub fn is_unwritten(&self) -> (r: bool)
        ensures
            r == self.spec_is_unwritten(),
    {
        self.block_count > Self::INIT_MAX_LEN
    }

    /// The number of blocks that the extent covers.
    pub open spec fn spec_actual_len(&self) -> int {
        if self.block_count > 32768 {
            self.block_count - 32768
        } else {
            self.block_count as int
        }
    }

    /// The number of blocks that the extent covers: the stored count, less
    /// the mark of an unwritten extent.
    pub fn get_actual_len(&self) -> (r: u16)
        ensures
            r as int == self.spec_actual_len(),
    {
        if self.is_unwritten() {
            self.block_count - Self::INIT_MAX_LEN
        } else {
            self.block_count
        }
    }
}

} // verus!

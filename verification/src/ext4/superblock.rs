//! The superblock: the record that describes the whole file system.

use crate::ext4::block::BlockGroupDescriptor;
use crate::ext4::inode::{Inode, InodeView};
use crate::ext4::wire::{
    bytes_at, combine_u32, join32, le16, le32, le64, u16_at, u32_at, u32s_at, u64_at, u8_at,
    words_at,
};
use crate::utils::{short_buffer, Error, Failure, ParseContext};
use vstd::arithmetic::power2::{lemma2_to64, pow2};
use vstd::prelude::*;
use vstd::slice::slice_subrange;
use vstd::utf8::{decode_utf8, valid_utf8};

verus! {

/// The number at offset 56 of every ext4 superblock.
pub const SUPERBLOCK_MAGIC: u16 = 0xEF53;

/// The largest `log_block_size` that ext4 defines: blocks of 64 KiB.
pub const MAX_LOG_BLOCK_SIZE: u32 = 6;

/// Whether the file system was unmounted cleanly.
#[derive(Debug, Clone, Copy, PartialEq, Eq, Structural)]
pub enum State {
    Clean,
    Errors,
    Orphan,
}

impl State {
    /// The state that the stored number stands for, if it stands for one.
    pub fn from_raw(raw: u16) -> (r: Option<State>)
        ensures
            r == (match raw {
                1 => Some(State::Clean),
                2 => Some(State::Errors),
                4 => Some(State::Orphan),
                _ => None,
            }),
    {
        match raw {
            1 => Some(State::Clean),
            2 => Some(State::Errors),
            4 => Some(State::Orphan),
            _ => None,
        }
    }
}

/// What the kernel does when it detects an error.
#[derive(Debug, Clone, Copy, PartialEq, Eq, Structural)]
pub enum ErrorPolicy {
    Continue,
    ReadOnly,
    Panic,
}

impl ErrorPolicy {
    /// The policy that the stored number stands for, if it stands for one.
    pub fn from_raw(raw: u16) -> (r: Option<ErrorPolicy>)
        ensures
            r == (match raw {
                1 => Some(ErrorPolicy::Continue),
                2 => Some(ErrorPolicy::ReadOnly),
                3 => Some(ErrorPolicy::Panic),
                _ => None,
            }),
    {
        match raw {
            1 => Some(ErrorPolicy::Continue),
            2 => Some(ErrorPolicy::ReadOnly),
            3 => Some(ErrorPolicy::Panic),
            _ => None,
        }
    }
}

/// The revision of the format.
#[derive(Debug, Clone, Copy, PartialEq, Eq, Structural)]
pub enum Revision {
    Original,
    Dynamic,
}

impl Revision {
    /// The revision that the stored number stands for, if it stands for one.
    pub fn from_raw(raw: u32) -> (r: Option<Revision>)
        ensures
            r == (match raw {
                0 => Some(Revision::Original),
                1 => Some(Revision::Dynamic),
                _ => None,
            }),
    {
        match raw {
            0 => Some(Revision::Original),
            1 => Some(Revision::Dynamic),
            _ => None,
        }
    }
}

/// The operating system that created the file system.
#[derive(Debug, Clone, Copy, PartialEq, Eq, Structural)]
pub enum CreatorOS {
    Linux,
    Hurd,
    Masix,
    FreeBSD,
    Lites,
}

impl CreatorOS {
    /// The system that the stored number stands for, if it stands for one.
    pub fn from_raw(raw: u32) -> (r: Option<CreatorOS>)
        ensures
            r == (match raw {
                0 => Some(CreatorOS::Linux),
                1 => Some(CreatorOS::Hurd),
                2 => Some(CreatorOS::Masix),
                3 => Some(CreatorOS::FreeBSD),
                4 => Some(CreatorOS::Lites),
                _ => None,
            }),
    {
        match raw {
            0 => Some(CreatorOS::Linux),
            1 => Some(CreatorOS::Hurd),
            2 => Some(CreatorOS::Masix),
            3 => Some(CreatorOS::FreeBSD),
            4 => Some(CreatorOS::Lites),
            _ => None,
        }
    }
}

/// The hash that indexed directories use by default.
#[derive(Debug, Clone, Copy, PartialEq, Eq, Structural)]
pub enum DefaultHashVersion {
    Legacy,
    HalfMD4,
    Tea,
    LegacyUnsigned,
    HalfMD4Unsigned,
    TeaUnsigned,
}

impl DefaultHashVersion {
    /// The hash that the stored number stands for, if it stands for one.
    pub fn from_raw(raw: u8) -> (r: Option<DefaultHashVersion>)
        ensures
            r == (match raw {
                0 => Some(DefaultHashVersion::Legacy),
                1 => Some(DefaultHashVersion::HalfMD4),
                2 => Some(DefaultHashVersion::Tea),
                3 => Some(DefaultHashVersion::LegacyUnsigned),
                4 => Some(DefaultHashVersion::HalfMD4Unsigned),
                5 => Some(DefaultHashVersion::TeaUnsigned),
                _ => None,
            }),
    {
        match raw {
            0 => Some(DefaultHashVersion::Legacy),
            1 => Some(DefaultHashVersion::HalfMD4),
            2 => Some(DefaultHashVersion::Tea),
            3 => Some(DefaultHashVersion::LegacyUnsigned),
            4 => Some(DefaultHashVersion::HalfMD4Unsigned),
            5 => Some(DefaultHashVersion::TeaUnsigned),
            _ => None,
        }
    }
}

/// A cipher that the file system's encryption may use.
#[derive(Debug, Clone, Copy, PartialEq, Eq, Structural)]
pub enum EncryptionAlgorithm {
    Invalid,
    Aes256Xts,
    Aes256Gcm,
    Aes256Cbc,
}

impl EncryptionAlgorithm {
    /// The cipher that the stored number stands for, if it stands for one.
    pub fn from_raw(raw: u8) -> (r: Option<EncryptionAlgorithm>)
        ensures
            r == (match raw {
                0 => Some(EncryptionAlgorithm::Invalid),
                1 => Some(EncryptionAlgorithm::Aes256Xts),
                2 => Some(EncryptionAlgorithm::Aes256Gcm),
                3 => Some(EncryptionAlgorithm::Aes256Cbc),
                _ => None,
            }),
    {
        match raw {
            0 => Some(EncryptionAlgorithm::Invalid),
            1 => Some(EncryptionAlgorithm::Aes256Xts),
            2 => Some(EncryptionAlgorithm::Aes256Gcm),
            3 => Some(EncryptionAlgorithm::Aes256Cbc),
            _ => None,
        }
    }
}

/// The features that a reader may ignore. Bits without a meaning are dropped when the set is read.
#[derive(Debug, Clone, Copy, PartialEq, Eq, Structural)]
pub struct CompatibleFeatures {
    pub bits: u32,
}

impl CompatibleFeatures {
    pub const DIRECTORY_PREALLOCATION: u32 = 0x00000001;

    pub const IMAGIC_INODE: u32 = 0x00000002;

    pub const HAS_JOURNAL: u32 = 0x00000004;

    pub const EXTENDED_ATTRIBUTES: u32 = 0x00000008;

    pub const RESIZE_INODE: u32 = 0x00000010;

    pub const DIRECTORY_INDICES: u32 = 0x00000020;

    pub const LAZY_BLOCK_GROUPS: u32 = 0x00000040;

    pub const EXCLUDE_INODE: u32 = 0x00000080;

    pub const EXCLUDE_BITMAP: u32 = 0x00000100;

    pub const SPARSE_SUPER2: u32 = 0x00000200;

    pub const FAST_COMMIT: u32 = 0x00000400;

    pub const ORPHAN_FILE: u32 = 0x00001000;

    /// Every bit that has a meaning.
    pub const ALL: u32 = 0x000017FF;

    /// The members of the set among `bits`.
    pub fn from_bits_truncate(bits: u32) -> (r: CompatibleFeatures)
        ensures
            r.bits == bits & 0x000017FF,
    {
        CompatibleFeatures { bits: bits & Self::ALL }
    }

    /// The set as bits.
    pub fn bits(&self) -> (r: u32)
        ensures
            r == self.bits,
    {
        self.bits
    }

    /// Whether every bit of `other` is set.
    pub fn contains(&self, other: u32) -> (r: bool)
        ensures
            r == (self.bits & other == other),
    {
        self.bits & other == other
    }

    /// Decodes the set from the first four bytes of `input`.
    pub fn parse(input: &[u8]) -> (r: Result<CompatibleFeatures, Error>)
        ensures
            input@.len() >= 4 ==> (r matches Ok(f) && f.bits == (le32(input@, 0) as u32)
                & 0x000017FF),
            input@.len() < 4 ==> (r matches Err(e) && e@ == short_buffer(
                ParseContext::Superblock,
            )),
    {
        let bits = u32_at(input, 0, ParseContext::Superblock)?;
        Ok(CompatibleFeatures::from_bits_truncate(bits))
    }
}

/// The features that a reader must know in order to read the file system. Bits without a meaning are dropped when the set is read.
#[derive(Debug, Clone, Copy, PartialEq, Eq, Structural)]
pub struct IncompatibleFeatures {
    pub bits: u32,
}

impl IncompatibleFeatures {
    pub const COMPRESSION: u32 = 0x00000001;

    pub const FILE_TYPE: u32 = 0x00000002;

    pub const NEEDS_RECOVERY: u32 = 0x00000004;

    pub const JOURNAL_DEVICE: u32 = 0x00000008;

    pub const META_BLOCK_GROUPS: u32 = 0x00000010;

    pub const EXTENTS: u32 = 0x00000040;

    pub const BIT64: u32 = 0x00000080;

    pub const MULTIPLE_MOUNT_PROTECTION: u32 = 0x00000100;

    pub const FLEXIBLE_BLOCK_GROUPS: u32 = 0x00000200;

    pub const EXTENDED_ATTRIBUTE_INODES: u32 = 0x00000400;

    pub const DIRECTORY_DATA: u32 = 0x00001000;

    pub const CHECKSUM_SEED: u32 = 0x00002000;

    pub const LARGE_DIRECTORY: u32 = 0x00004000;

    pub const INLINE_DATA: u32 = 0x00008000;

    pub const ENCRYPTED_INODES: u32 = 0x00010000;

    /// Every bit that has a meaning.
    pub const ALL: u32 = 0x0001F7DF;

    /// The members of the set among `bits`.
    pub fn from_bits_truncate(bits: u32) -> (r: IncompatibleFeatures)
        ensures
            r.bits == bits & 0x0001F7DF,
    {
        IncompatibleFeatures { bits: bits & Self::ALL }
    }

    /// The set as bits.
    pub fn bits(&self) -> (r: u32)
        ensures
            r == self.bits,
    {
        self.bits
    }

    /// Whether every bit of `other` is set.
    pub fn contains(&self, other: u32) -> (r: bool)
        ensures
            r == (self.bits & other == other),
    {
        self.bits & other == other
    }

    /// Decodes the set from the first four bytes of `input`.
    pub fn parse(input: &[u8]) -> (r: Result<IncompatibleFeatures, Error>)
        ensures
            input@.len() >= 4 ==> (r matches Ok(f) && f.bits == (le32(input@, 0) as u32)
                & 0x0001F7DF),
            input@.len() < 4 ==> (r matches Err(e) && e@ == short_buffer(
                ParseContext::Superblock,
            )),
    {
        let bits = u32_at(input, 0, ParseContext::Superblock)?;
        Ok(IncompatibleFeatures::from_bits_truncate(bits))
    }
}

/// The features that a writer must know; a reader may ignore them. Bits without a meaning are dropped when the set is read.
#[derive(Debug, Clone, Copy, PartialEq, Eq, Structural)]
pub struct ReadOnlyCompatibleFeatures {
    pub bits: u32,
}

impl ReadOnlyCompatibleFeatures {
    pub const SPARSE_SUPER: u32 = 0x00000001;

    pub const LARGE_FILE: u32 = 0x00000002;

    pub const BTREE_DIRECTORY: u32 = 0x00000004;

    pub const HUGE_FILE: u32 = 0x00000008;

    pub const GROUP_DESCRIPTOR_CHECKSUM: u32 = 0x00000010;

    pub const NO_DIRECTORY_LINK_LIMIT: u32 = 0x00000020;

    pub const EXTRA_INODE_SIZE: u32 = 0x00000040;

    pub const HAS_SNAPSHOT: u32 = 0x00000080;

    pub const QUOTA: u32 = 0x00000100;

    pub const BIG_ALLOC: u32 = 0x00000200;

    pub const METADATA_CHECKSUM: u32 = 0x00000400;

    pub const REPLICA: u32 = 0x00000800;

    pub const READ_ONLY: u32 = 0x00001000;

    pub const PROJECT_QUOTA: u32 = 0x00002000;

    pub const VERITY: u32 = 0x00008000;

    pub const ORPHAN_PRESENT: u32 = 0x00010000;

    /// Every bit that has a meaning.
    pub const ALL: u32 = 0x0001BFFF;

    /// The members of the set among `bits`.
    pub fn from_bits_truncate(bits: u32) -> (r: ReadOnlyCompatibleFeatures)
        ensures
            r.bits == bits & 0x0001BFFF,
    {
        ReadOnlyCompatibleFeatures { bits: bits & Self::ALL }
    }

    /// The set as bits.
    pub fn bits(&self) -> (r: u32)
        ensures
            r == self.bits,
    {
        self.bits
    }

    /// Whether every bit of `other` is set.
    pub fn contains(&self, other: u32) -> (r: bool)
        ensures
            r == (self.bits & other == other),
    {
        self.bits & other == other
    }

    /// Decodes the set from the first four bytes of `input`.
    pub fn parse(input: &[u8]) -> (r: Result<ReadOnlyCompatibleFeatures, Error>)
        ensures
            input@.len() >= 4 ==> (r matches Ok(f) && f.bits == (le32(input@, 0) as u32)
                & 0x0001BFFF),
            input@.len() < 4 ==> (r matches Err(e) && e@ == short_buffer(
                ParseContext::Superblock,
            )),
    {
        let bits = u32_at(input, 0, ParseContext::Superblock)?;
        Ok(ReadOnlyCompatibleFeatures::from_bits_truncate(bits))
    }
}

/// The options with which the file system is mounted by default. Bits without a meaning are dropped when the set is read.
#[derive(Debug, Clone, Copy, PartialEq, Eq, Structural)]
pub struct DefaultMountOptions {
    pub bits: u32,
}

impl DefaultMountOptions {
    pub const DEBUG: u32 = 0x00000001;

    pub const BSD_GROUPS: u32 = 0x00000002;

    pub const EXTENDED_ATTRIBUTE_USER: u32 = 0x00000004;

    pub const ACL: u32 = 0x00000008;

    pub const UID16: u32 = 0x00000010;

    pub const JOURNAL_MODE_DATA: u32 = 0x00000020;

    pub const JOURNAL_MODE_ORDERED: u32 = 0x00000040;

    pub const JOURNAL_MODE_WRITEBACK: u32 = 0x00000060;

    pub const NO_BARRIER: u32 = 0x00000100;

    pub const BLOCK_VALIDITY: u32 = 0x00000200;

    pub const DISCARD: u32 = 0x00000400;

    pub const NO_DELAYED_ALLOCATION: u32 = 0x00000800;

    /// Every bit that has a meaning.
    pub const ALL: u32 = 0x00000F7F;

    /// The members of the set among `bits`.
    pub fn from_bits_truncate(bits: u32) -> (r: DefaultMountOptions)
        ensures
            r.bits == bits & 0x00000F7F,
    {
        DefaultMountOptions { bits: bits & Self::ALL }
    }

    /// The set as bits.
    pub fn bits(&self) -> (r: u32)
        ensures
            r == self.bits,
    {
        self.bits
    }

    /// Whether every bit of `other` is set.
    pub fn contains(&self, other: u32) -> (r: bool)
        ensures
            r == (self.bits & other == other),
    {
        self.bits & other == other
    }

    /// Decodes the set from the first four bytes of `input`.
    pub fn parse(input: &[u8]) -> (r: Result<DefaultMountOptions, Error>)
        ensures
            input@.len() >= 4 ==> (r matches Ok(f) && f.bits == (le32(input@, 0) as u32)
                & 0x00000F7F),
            input@.len() < 4 ==> (r matches Err(e) && e@ == short_buffer(
                ParseContext::Superblock,
            )),
    {
        let bits = u32_at(input, 0, ParseContext::Superblock)?;
        Ok(DefaultMountOptions::from_bits_truncate(bits))
    }
}

/// The flags of the superblock. Bits without a meaning are dropped when the set is read.
#[derive(Debug, Clone, Copy, PartialEq, Eq, Structural)]
pub struct Flags {
    pub bits: u32,
}

impl Flags {
    pub const SIGNED_DIRECTORY_HASH: u32 = 0x00000001;

    pub const UNSIGNED_DIRECTORY_HASH: u32 = 0x00000002;

    pub const DEVELOPMENT_MODE: u32 = 0x00000004;

    /// Every bit that has a meaning.
    pub const ALL: u32 = 0x00000007;

    /// The members of the set among `bits`.
    pub fn from_bits_truncate(bits: u32) -> (r: Flags)
        ensures
            r.bits == bits & 0x00000007,
    {
        Flags { bits: bits & Self::ALL }
    }

    /// The set as bits.
    pub fn bits(&self) -> (r: u32)
        ensures
            r == self.bits,
    {
        self.bits
    }

    /// Whether every bit of `other` is set.
    pub fn contains(&self, other: u32) -> (r: bool)
        ensures
            r == (self.bits & other == other),
    {
        self.bits & other == other
    }

    /// Decodes the set from the first four bytes of `input`.
    pub fn parse(input: &[u8]) -> (r: Result<Flags, Error>)
        ensures
            input@.len() >= 4 ==> (r matches Ok(f) && f.bits == (le32(input@, 0) as u32)
                & 0x00000007),
            input@.len() < 4 ==> (r matches Err(e) && e@ == short_buffer(
                ParseContext::Superblock,
            )),
    {
        let bits = u32_at(input, 0, ParseContext::Superblock)?;
        Ok(Flags::from_bits_truncate(bits))
    }
}

/// The superblock as it is stored, field by field. Only the geometry is
/// interpreted; the other fields are kept as they were read.
#[derive(Debug, Clone, PartialEq, Eq)]
pub struct Superblock {
    pub inodes_count: u32,
    pub blocks_count_lo: u32,
    pub reserved_blocks_count_lo: u32,
    pub free_blocks_count_lo: u32,
    pub free_inodes_count: u32,
    pub first_data_block: u32,
    pub log_block_size: u32,
    pub log_cluster_size: u32,
    pub blocks_per_group: u32,
    pub frags_per_group: u32,
    pub inodes_per_group: u32,
    pub mount_time: u32,
    pub write_time: u32,
    pub mount_count: u16,
    pub max_mount_count: u16,
    pub magic: u16,
    pub state: u16,
    pub errors: u16,
    pub minor_rev_level: u16,
    pub last_check_time: u32,
    pub check_interval: u32,
    pub creator_os: u32,
    pub rev_level: u32,
    pub def_resuid: u16,
    pub def_resgid: u16,
    pub first_inode: u32,
    pub inode_size: u16,
    pub block_group_index: u16,
    pub features_compatible: CompatibleFeatures,
    pub features_incompatible: IncompatibleFeatures,
    pub features_read_only: ReadOnlyCompatibleFeatures,
    pub uuid: Vec<u8>,
    pub volume_name: Vec<u8>,
    pub last_mounted: Vec<u8>,
    pub algorithm_usage_bitmap: u32,
    pub prealloc_blocks: u8,
    pub prealloc_dir_blocks: u8,
    pub reserved_gdt_blocks: u16,
    pub journal_uuid: Vec<u8>,
    pub journal_inode_number: u32,
    pub journal_dev: u32,
    pub last_orphan: u32,
    pub hash_seed: Vec<u32>,
    pub default_hash_version: u8,
    pub journal_backup_type: u8,
    pub desc_size: u16,
    pub default_mount_opts: DefaultMountOptions,
    pub first_meta_bg: u32,
    pub mkfs_time: u32,
    pub journal_blocks: Vec<u32>,
    pub blocks_count_hi: u32,
    pub reserved_blocks_count_hi: u32,
    pub free_blocks_count_hi: u32,
    pub min_extra_isize: u16,
    pub want_extra_isize: u16,
    pub flags: Flags,
    pub raid_stride: u16,
    pub mmp_interval: u16,
    pub mmp_block: u64,
    pub raid_stripe_width: u32,
    pub log_groups_per_flex: u8,
    pub checksum_type: u8,
    pub reserved_pad: u16,
    pub kbytes_written: u64,
    pub snapshot_inum: u32,
    pub snapshot_id: u32,
    pub snapshot_r_blocks_count: u64,
    pub snapshot_list: u32,
    pub error_count: u32,
    pub first_error_time: u32,
    pub first_error_ino: u32,
    pub first_error_block: u64,
    pub first_error_func: Vec<u8>,
    pub first_error_line: u32,
    pub last_error_time: u32,
    pub last_error_ino: u32,
    pub last_error_line: u32,
    pub last_error_block: u64,
    pub last_error_func: Vec<u8>,
    pub mount_opts: Vec<u8>,
    pub usr_quota_inum: u32,
    pub grp_quota_inum: u32,
    pub overhead_clusters: u32,
    pub backup_bgs: Vec<u32>,
    pub encrypt_algos: Vec<u8>,
    pub encrypt_pw_salt: Vec<u8>,
    pub lpf_ino: u32,
    pub padding: Vec<u32>,
    pub checksum: u32,
}

/// The failure of a superblock whose block size is larger than ext4 allows.
pub open spec fn block_size_out_of_range() -> Failure {
    Failure::InvalidData {
        context: ParseContext::Superblock,
        message: "block size out of range"@,
    }
}

/// The failure of a superblock whose block groups hold no blocks.
pub open spec fn empty_block_groups() -> Failure {
    Failure::InvalidData {
        context: ParseContext::Superblock,
        message: "blocks per group is zero"@,
    }
}

/// The failure of a superblock whose block groups hold no inodes.
pub open spec fn empty_inode_tables() -> Failure {
    Failure::InvalidData {
        context: ParseContext::Superblock,
        message: "inodes per group is zero"@,
    }
}

/// The index of the first zero byte of `name`, or its length if it has none.
pub open spec fn nul_position(name: Seq<u8>) -> int
    decreases name.len(),
{
    if name.len() == 0 || name[0] == 0 {
        0
    } else {
        1 + nul_position(name.drop_first())
    }
}

/// The text that a NUL-terminated label holds: the bytes before the first
/// zero byte, read as UTF-8, or nothing if they are not UTF-8.
pub open spec fn label_text(name: Seq<u8>) -> Seq<char> {
    let raw = name.take(nul_position(name));
    if valid_utf8(raw) {
        decode_utf8(raw)
    } else {
        Seq::empty()
    }
}

impl Superblock {
    /// The number of bytes that a superblock occupies.
    pub const SIZE: usize = 1024;

    /// The offset of the superblock in the image.
    pub const SUPERBLOCK_OFFSET: u64 = 1024;

    pub const EXT4_SUPERBLOCK_OS_HURD: u32 = 1;

    /// Whether each field holds what `data` stores at the field's offset.
    pub open spec fn decodes(&self, data: Seq<u8>) -> bool
        recommends
            data.len() >= 1024,
    {
        &&& self.inodes_count as int == le32(data, 0)
        &&& self.blocks_count_lo as int == le32(data, 4)
        &&& self.reserved_blocks_count_lo as int == le32(data, 8)
        &&& self.free_blocks_count_lo as int == le32(data, 12)
        &&& self.free_inodes_count as int == le32(data, 16)
        &&& self.first_data_block as int == le32(data, 20)
        &&& self.log_block_size as int == le32(data, 24)
        &&& self.log_cluster_size as int == le32(data, 28)
        &&& self.blocks_per_group as int == le32(data, 32)
        &&& self.frags_per_group as int == le32(data, 36)
        &&& self.inodes_per_group as int == le32(data, 40)
        &&& self.mount_time as int == le32(data, 44)
        &&& self.write_time as int == le32(data, 48)
        &&& self.mount_count as int == le16(data, 52)
        &&& self.max_mount_count as int == le16(data, 54)
        &&& self.magic as int == le16(data, 56)
        &&& self.state as int == le16(data, 58)
        &&& self.errors as int == le16(data, 60)
        &&& self.minor_rev_level as int == le16(data, 62)
        &&& self.last_check_time as int == le32(data, 64)
        &&& self.check_interval as int == le32(data, 68)
        &&& self.creator_os as int == le32(data, 72)
        &&& self.rev_level as int == le32(data, 76)
        &&& self.def_resuid as int == le16(data, 80)
        &&& self.def_resgid as int == le16(data, 82)
        &&& self.first_inode as int == le32(data, 84)
        &&& self.inode_size as int == le16(data, 88)
        &&& self.block_group_index as int == le16(data, 90)
        &&& self.features_compatible.bits == (le32(data, 92) as u32) & 0x000017FF
        &&& self.features_incompatible.bits == (le32(data, 96) as u32) & 0x0001F7DF
        &&& self.features_read_only.bits == (le32(data, 100) as u32) & 0x0001BFFF
        &&& self.uuid@ == data.subrange(104, 120)
        &&& self.volume_name@ == data.subrange(120, 136)
        &&& self.last_mounted@ == data.subrange(136, 200)
        &&& self.algorithm_usage_bitmap as int == le32(data, 200)
        &&& self.prealloc_blocks == data[204]
        &&& self.prealloc_dir_blocks == data[205]
        &&& self.reserved_gdt_blocks as int == le16(data, 206)
        &&& self.journal_uuid@ == data.subrange(208, 224)
        &&& self.journal_inode_number as int == le32(data, 224)
        &&& self.journal_dev as int == le32(data, 228)
        &&& self.last_orphan as int == le32(data, 232)
        &&& words_at(self.hash_seed@, data, 236, 4)
        &&& self.default_hash_version == data[252]
        &&& self.journal_backup_type == data[253]
        &&& self.desc_size as int == le16(data, 254)
        &&& self.default_mount_opts.bits == (le32(data, 256) as u32) & 0x00000F7F
        &&& self.first_meta_bg as int == le32(data, 260)
        &&& self.mkfs_time as int == le32(data, 264)
        &&& words_at(self.journal_blocks@, data, 268, 17)
        &&& self.blocks_count_hi as int == le32(data, 336)
        &&& self.reserved_blocks_count_hi as int == le32(data, 340)
        &&& self.free_blocks_count_hi as int == le32(data, 344)
        &&& self.min_extra_isize as int == le16(data, 348)
        &&& self.want_extra_isize as int == le16(data, 350)
        &&& self.flags.bits == (le32(data, 352) as u32) & 0x00000007
        &&& self.raid_stride as int == le16(data, 356)
        &&& self.mmp_interval as int == le16(data, 358)
        &&& self.mmp_block as int == le64(data, 360)
        &&& self.raid_stripe_width as int == le32(data, 368)
        &&& self.log_groups_per_flex == data[372]
        &&& self.checksum_type == data[373]
        &&& self.reserved_pad as int == le16(data, 374)
        &&& self.kbytes_written as int == le64(data, 376)
        &&& self.snapshot_inum as int == le32(data, 384)
        &&& self.snapshot_id as int == le32(data, 388)
        &&& self.snapshot_r_blocks_count as int == le64(data, 392)
        &&& self.snapshot_list as int == le32(data, 400)
        &&& self.error_count as int == le32(data, 404)
        &&& self.first_error_time as int == le32(data, 408)
        &&& self.first_error_ino as int == le32(data, 412)
        &&& self.first_error_block as int == le64(data, 416)
        &&& self.first_error_func@ == data.subrange(424, 456)
        &&& self.first_error_line as int == le32(data, 456)
        &&& self.last_error_time as int == le32(data, 460)
        &&& self.last_error_ino as int == le32(data, 464)
        &&& self.last_error_line as int == le32(data, 468)
        &&& self.last_error_block as int == le64(data, 472)
        &&& self.last_error_func@ == data.subrange(480, 512)
        &&& self.mount_opts@ == data.subrange(512, 576)
        &&& self.usr_quota_inum as int == le32(data, 576)
        &&& self.grp_quota_inum as int == le32(data, 580)
        &&& self.overhead_clusters as int == le32(data, 584)
        &&& words_at(self.backup_bgs@, data, 588, 2)
        &&& self.encrypt_algos@ == data.subrange(596, 600)
        &&& self.encrypt_pw_salt@ == data.subrange(600, 616)
        &&& self.lpf_ino as int == le32(data, 616)
        &&& words_at(self.padding@, data, 620, 100)
        &&& self.checksum as int == le32(data, 1020)
    }

    /// Whether the geometry can be computed with: the block size is one that
    /// ext4 defines and no group is empty.
    pub open spec fn wf(&self) -> bool {
        &&& self.log_block_size <= 6
        &&& self.blocks_per_group >= 1
        &&& self.inodes_per_group >= 1
        &&& self.volume_name@.len() == 16
    }

    /// Why `data` is not accepted as a superblock, if it is not. The fields
    /// are taken in the order in which they are stored, up to the magic
    /// number; the ranges are checked once everything is read.
    pub open spec fn rejection(data: Seq<u8>) -> Option<Failure> {
        if data.len() < 58 {
            Some(short_buffer(ParseContext::Superblock))
        } else if le16(data, 56) != 0xEF53 {
            Some(Failure::InvalidMagic(ParseContext::Superblock))
        } else if data.len() < 1024 {
            Some(short_buffer(ParseContext::Superblock))
        } else if le32(data, 24) > 6 {
            Some(block_size_out_of_range())
        } else if le32(data, 32) == 0 {
            Some(empty_block_groups())
        } else if le32(data, 40) == 0 {
            Some(empty_inode_tables())
        } else {
            None
        }
    }

    /// Decodes the superblock from the first 1024 bytes of `bytes`.
    pub fn parse(bytes: &[u8]) -> (r: Result<Self, Error>)
        ensures
            match r {
                Ok(sb) => Self::rejection(bytes@) is None && sb.decodes(bytes@) && sb.wf(),
                Err(e) => Self::rejection(bytes@) == Some(e@),
            },
    {
        let ctx = ParseContext::Superblock;
        let magic = u16_at(bytes, 56, ctx)?;
        if magic != SUPERBLOCK_MAGIC {
            return Err(Error::InvalidMagic(ctx));
        }
        if bytes.len() < 1024 {
            return Err(Error::invalid_data(ctx, "buffer too small"));
        }
        let inodes_count = u32_at(bytes, 0, ctx)?;
        let blocks_count_lo = u32_at(bytes, 4, ctx)?;
        let reserved_blocks_count_lo = u32_at(bytes, 8, ctx)?;
        let free_blocks_count_lo = u32_at(bytes, 12, ctx)?;
        let free_inodes_count = u32_at(bytes, 16, ctx)?;
        let first_data_block = u32_at(bytes, 20, ctx)?;
        let log_block_size = u32_at(bytes, 24, ctx)?;
        let log_cluster_size = u32_at(bytes, 28, ctx)?;
        let blocks_per_group = u32_at(bytes, 32, ctx)?;
        let frags_per_group = u32_at(bytes, 36, ctx)?;
        let inodes_per_group = u32_at(bytes, 40, ctx)?;
        let mount_time = u32_at(bytes, 44, ctx)?;
        let write_time = u32_at(bytes, 48, ctx)?;
        let mount_count = u16_at(bytes, 52, ctx)?;
        let max_mount_count = u16_at(bytes, 54, ctx)?;
        let state = u16_at(bytes, 58, ctx)?;
        let errors = u16_at(bytes, 60, ctx)?;
        let minor_rev_level = u16_at(bytes, 62, ctx)?;
        let last_check_time = u32_at(bytes, 64, ctx)?;
        let check_interval = u32_at(bytes, 68, ctx)?;
        let creator_os = u32_at(bytes, 72, ctx)?;
        let rev_level = u32_at(bytes, 76, ctx)?;
        let def_resuid = u16_at(bytes, 80, ctx)?;
        let def_resgid = u16_at(bytes, 82, ctx)?;
        let first_inode = u32_at(bytes, 84, ctx)?;
        let inode_size = u16_at(bytes, 88, ctx)?;
        let block_group_index = u16_at(bytes, 90, ctx)?;
        let features_compatible = CompatibleFeatures::parse(slice_subrange(bytes, 92, 96))?;
        let features_incompatible = IncompatibleFeatures::parse(slice_subrange(bytes, 96, 100))?;
        let features_read_only = ReadOnlyCompatibleFeatures::parse(slice_subrange(bytes, 100, 104))?;
        let uuid = bytes_at(bytes, 104, 16, ctx)?;
        let volume_name = bytes_at(bytes, 120, 16, ctx)?;
        let last_mounted = bytes_at(bytes, 136, 64, ctx)?;
        let algorithm_usage_bitmap = u32_at(bytes, 200, ctx)?;
        let prealloc_blocks = u8_at(bytes, 204, ctx)?;
        let prealloc_dir_blocks = u8_at(bytes, 205, ctx)?;
        let reserved_gdt_blocks = u16_at(bytes, 206, ctx)?;
        let journal_uuid = bytes_at(bytes, 208, 16, ctx)?;
        let journal_inode_number = u32_at(bytes, 224, ctx)?;
        let journal_dev = u32_at(bytes, 228, ctx)?;
        let last_orphan = u32_at(bytes, 232, ctx)?;
        let hash_seed = u32s_at(bytes, 236, 4, ctx)?;
        let default_hash_version = u8_at(bytes, 252, ctx)?;
        let journal_backup_type = u8_at(bytes, 253, ctx)?;
        let desc_size = u16_at(bytes, 254, ctx)?;
        let default_mount_opts = DefaultMountOptions::parse(slice_subrange(bytes, 256, 260))?;
        let first_meta_bg = u32_at(bytes, 260, ctx)?;
        let mkfs_time = u32_at(bytes, 264, ctx)?;
        let journal_blocks = u32s_at(bytes, 268, 17, ctx)?;
        let blocks_count_hi = u32_at(bytes, 336, ctx)?;
        let reserved_blocks_count_hi = u32_at(bytes, 340, ctx)?;
        let free_blocks_count_hi = u32_at(bytes, 344, ctx)?;
        let min_extra_isize = u16_at(bytes, 348, ctx)?;
        let want_extra_isize = u16_at(bytes, 350, ctx)?;
        let flags = Flags::parse(slice_subrange(bytes, 352, 356))?;
        let raid_stride = u16_at(bytes, 356, ctx)?;
        let mmp_interval = u16_at(bytes, 358, ctx)?;
        let mmp_block = u64_at(bytes, 360, ctx)?;
        let raid_stripe_width = u32_at(bytes, 368, ctx)?;
        let log_groups_per_flex = u8_at(bytes, 372, ctx)?;
        let checksum_type = u8_at(bytes, 373, ctx)?;
        let reserved_pad = u16_at(bytes, 374, ctx)?;
        let kbytes_written = u64_at(bytes, 376, ctx)?;
        let snapshot_inum = u32_at(bytes, 384, ctx)?;
        let snapshot_id = u32_at(bytes, 388, ctx)?;
        let snapshot_r_blocks_count = u64_at(bytes, 392, ctx)?;
        let snapshot_list = u32_at(bytes, 400, ctx)?;
        let error_count = u32_at(bytes, 404, ctx)?;
        let first_error_time = u32_at(bytes, 408, ctx)?;
        let first_error_ino = u32_at(bytes, 412, ctx)?;
        let first_error_block = u64_at(bytes, 416, ctx)?;
        let first_error_func = bytes_at(bytes, 424, 32, ctx)?;
        let first_error_line = u32_at(bytes, 456, ctx)?;
        let last_error_time = u32_at(bytes, 460, ctx)?;
        let last_error_ino = u32_at(bytes, 464, ctx)?;
        let last_error_line = u32_at(bytes, 468, ctx)?;
        let last_error_block = u64_at(bytes, 472, ctx)?;
        let last_error_func = bytes_at(bytes, 480, 32, ctx)?;
        let mount_opts = bytes_at(bytes, 512, 64, ctx)?;
        let usr_quota_inum = u32_at(bytes, 576, ctx)?;
        let grp_quota_inum = u32_at(bytes, 580, ctx)?;
        let overhead_clusters = u32_at(bytes, 584, ctx)?;
        let backup_bgs = u32s_at(bytes, 588, 2, ctx)?;
        let encrypt_algos = bytes_at(bytes, 596, 4, ctx)?;
        let encrypt_pw_salt = bytes_at(bytes, 600, 16, ctx)?;
        let lpf_ino = u32_at(bytes, 616, ctx)?;
        let padding = u32s_at(bytes, 620, 100, ctx)?;
        let checksum = u32_at(bytes, 1020, ctx)?;
        if log_block_size > MAX_LOG_BLOCK_SIZE {
            return Err(Error::invalid_data(ctx, "block size out of range"));
        }
        if blocks_per_group == 0 {
            return Err(Error::invalid_data(ctx, "blocks per group is zero"));
        }
        if inodes_per_group == 0 {
            return Err(Error::invalid_data(ctx, "inodes per group is zero"));
        }
        Ok(Superblock {
            inodes_count,
            blocks_count_lo,
            reserved_blocks_count_lo,
            free_blocks_count_lo,
            free_inodes_count,
            first_data_block,
            log_block_size,
            log_cluster_size,
            blocks_per_group,
            frags_per_group,
            inodes_per_group,
            mount_time,
            write_time,
            mount_count,
            max_mount_count,
            magic,
            state,
            errors,
            minor_rev_level,
            last_check_time,
            check_interval,
            creator_os,
            rev_level,
            def_resuid,
            def_resgid,
            first_inode,
            inode_size,
            block_group_index,
            features_compatible,
            features_incompatible,
            features_read_only,
            uuid,
            volume_name,
            last_mounted,
            algorithm_usage_bitmap,
            prealloc_blocks,
            prealloc_dir_blocks,
            reserved_gdt_blocks,
            journal_uuid,
            journal_inode_number,
            journal_dev,
            last_orphan,
            hash_seed,
            default_hash_version,
            journal_backup_type,
            desc_size,
            default_mount_opts,
            first_meta_bg,
            mkfs_time,
            journal_blocks,
            blocks_count_hi,
            reserved_blocks_count_hi,
            free_blocks_count_hi,
            min_extra_isize,
            want_extra_isize,
            flags,
            raid_stride,
            mmp_interval,
            mmp_block,
            raid_stripe_width,
            log_groups_per_flex,
            checksum_type,
            reserved_pad,
            kbytes_written,
            snapshot_inum,
            snapshot_id,
            snapshot_r_blocks_count,
            snapshot_list,
            error_count,
            first_error_time,
            first_error_ino,
            first_error_block,
            first_error_func,
            first_error_line,
            last_error_time,
            last_error_ino,
            last_error_line,
            last_error_block,
            last_error_func,
            mount_opts,
            usr_quota_inum,
            grp_quota_inum,
            overhead_clusters,
            backup_bgs,
            encrypt_algos,
            encrypt_pw_salt,
            lpf_ino,
            padding,
            checksum,
        })
    }

    /// The size of a block in bytes.
    pub open spec fn spec_block_size(&self) -> int {
        1024 * (pow2(self.log_block_size as nat) as int)
    }

    /// The size of a block in bytes: 1024 doubled `log_block_size` times.
    pub fn block_size(&self) -> (r: u32)
        requires
            self.wf(),
        ensures
            r as int == self.spec_block_size(),
            1024 <= r <= 65536,
            r % 1024 == 0,
    {
        let log = self.log_block_size;
        proof {
            lemma2_to64();
            assert(log <= 6 ==> (log == 0 ==> 1024u32 << log == 1024) && (log == 1 ==> 1024u32
                << log == 2048) && (log == 2 ==> 1024u32 << log == 4096) && (log == 3 ==> 1024u32
                << log == 8192) && (log == 4 ==> 1024u32 << log == 16384) && (log == 5 ==> 1024u32
                << log == 32768) && (log == 6 ==> 1024u32 << log == 65536)) by (bit_vector);
        }
        1024u32 << log
    }

    pub open spec fn spec_blocks_count(&self) -> int {
        join32(self.blocks_count_hi as int, self.blocks_count_lo as int)
    }

    /// The number of blocks in the file system.
    pub fn blocks_count(&self) -> (r: u64)
        ensures
            r as int == self.spec_blocks_count(),
    {
        combine_u32(self.blocks_count_hi, self.blocks_count_lo)
    }

    /// The number of block groups: the blocks divided by the blocks of a
    /// group, rounded up, and cut to 32 bits.
    pub open spec fn spec_block_group_count(&self) -> u32 {
        ((self.spec_blocks_count() + self.blocks_per_group - 1) / (self.blocks_per_group as int)) as u32
    }

    /// The number of block groups.
    pub fn block_group_count(&self) -> (r: u32)
        requires
            self.wf(),
        ensures
            r == self.spec_block_group_count(),
    {
        let blocks = self.blocks_count() as u128;
        let per_group = self.blocks_per_group as u128;
        let groups = (blocks + per_group - 1) / per_group;
        #[verifier::truncate]
        (groups as u32)
    }

    pub open spec fn spec_descriptor_size(&self) -> u16 {
        if self.desc_size < 32 {
            32
        } else {
            self.desc_size
        }
    }

    /// The size of a group descriptor; a stored size under 32 stands for 32.
    pub fn descriptor_size(&self) -> (r: u16)
        ensures
            r == self.spec_descriptor_size(),
    {
        if self.desc_size < BlockGroupDescriptor::MIN_SIZE {
            BlockGroupDescriptor::MIN_SIZE
        } else {
            self.desc_size
        }
    }

    /// The number of inodes that group `bgid` holds: a full table for every
    /// group but the last, which holds what is left.
    pub fn inodes_in_group_cnt(&self, bgid: u32) -> (r: u32)
        requires
            self.wf(),
            self.spec_block_group_count() >= 1,
            (self.spec_block_group_count() - 1) * self.inodes_per_group <= self.inodes_count,
        ensures
            bgid < self.spec_block_group_count() - 1 ==> r == self.inodes_per_group,
            bgid >= self.spec_block_group_count() - 1 ==> r == self.inodes_count - (
            self.spec_block_group_count() - 1) * self.inodes_per_group,
    {
        let block_group_count = self.block_group_count();
        if bgid < block_group_count - 1 {
            self.inodes_per_group
        } else {
            let full = (block_group_count - 1) as u64 * self.inodes_per_group as u64;
            (self.inodes_count as u64 - full) as u32
        }
    }

    /// The number of free blocks in the file system.
    pub fn free_blocks_count(&self) -> (r: u64)
        ensures
            r as int == join32(self.free_blocks_count_hi as int, self.free_blocks_count_lo as int),
    {
        combine_u32(self.free_blocks_count_hi, self.free_blocks_count_lo)
    }

    /// The number of inodes in each block group.
    pub fn inodes_per_group(&self) -> (r: u32)
        ensures
            r == self.inodes_per_group,
    {
        self.inodes_per_group
    }

    /// The size of an inode record in bytes.
    pub fn inode_size(&self) -> (r: u64)
        ensures
            r == self.inode_size,
    {
        self.inode_size as u64
    }

    /// The revision of the format, where the stored number names one.
    pub fn revision(&self) -> (r: Option<Revision>)
        ensures
            r == (match self.rev_level {
                0 => Some(Revision::Original),
                1 => Some(Revision::Dynamic),
                _ => None,
            }),
    {
        Revision::from_raw(self.rev_level)
    }

    /// The size of the data of `inode`: both halves of the size field for a
    /// regular file on a file system of the dynamic revision, the low half
    /// for anything else.
    pub open spec fn spec_inode_size_file(&self, inode: InodeView) -> int {
        if inode.is_regular_file() && self.rev_level == 1 {
            join32(inode.size_hi as int, inode.size as int)
        } else {
            inode.size as int
        }
    }

    /// The size in bytes of the data of `inode`.
    pub fn inode_size_file(&self, inode: &Inode) -> (r: u64)
        ensures
            r as int == self.spec_inode_size_file(inode@),
    {
        if inode.is_regular_file() && self.rev_level == 1 {
            inode.size()
        } else {
            inode.size as u64
        }
    }

    /// The volume label as text.
    pub open spec fn spec_volume_name(&self) -> Seq<char> {
        label_text(self.volume_name@)
    }

    /// The volume label: the bytes of the label field before its first zero
    /// byte. A label that is not UTF-8 reads as the empty text.
    pub fn volume_name(&self) -> (r: &str)
        ensures
            r@ == self.spec_volume_name(),
    {
        let name = self.volume_name.as_slice();
        let mut end: usize = 0;
        assert(name@.skip(0) == name@);
        while end < name.len() && name[end] != 0
            invariant
                end <= name@.len(),
                name@ == self.volume_name@,
                nul_position(name@) == end + nul_position(name@.skip(end as int)),
            decreases name@.len() - end,
        {
            proof {
                let rest = name@.skip(end as int);
                assert(rest.drop_first() == name@.skip(end + 1));
            }
            end += 1;
        }
        proof {
            let rest = name@.skip(end as int);
            assert(rest.len() == 0 || rest[0] == 0);
        }
        let raw = slice_subrange(name, 0, end);
        assert(raw@ == name@.take(end as int));
        proof {
            reveal_strlit("");
        }
        match core::str::from_utf8(raw) {
            Ok(text) => text,
            Err(_) => "",
        }
    }
}

} // verus!

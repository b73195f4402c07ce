//! Inodes: the record that describes one file, directory or link.

use crate::ext4::text::{digit, digit_char};
use crate::ext4::wire::{
    combine_u16, combine_u32, join16, join32, le16, le32, u16_at, u32_at, u32s_at,
};
use crate::ext4::xattr::{
    entries_from, lemma_values_are_counted_from_base, views, XAttrEntry, XAttrEntryView,
    XAttrIbodyHeader,
};
use crate::utils::{short_buffer, Error, Failure, ParseContext};
use vstd::prelude::*;
use vstd::slice::slice_subrange;

verus! {

/// The kind of object that an inode describes.
#[derive(Debug, Clone, Copy, PartialEq, Eq, Structural)]
pub enum FileType {
    Fifo,
    CharacterDevice,
    Directory,
    BlockDevice,
    RegularFile,
    SymbolicLink,
    Socket,
}

impl FileType {
    /// The kind that the top four bits of a mode name, if they name one.
    pub open spec fn of_mode(mode: u16) -> Option<FileType> {
        let kind = mode & 0xF000;
        if kind == 0x1000 {
            Some(FileType::Fifo)
        } else if kind == 0x2000 {
            Some(FileType::CharacterDevice)
        } else if kind == 0x4000 {
            Some(FileType::Directory)
        } else if kind == 0x6000 {
            Some(FileType::BlockDevice)
        } else if kind == 0x8000 {
            Some(FileType::RegularFile)
        } else if kind == 0xA000 {
            Some(FileType::SymbolicLink)
        } else if kind == 0xC000 {
            Some(FileType::Socket)
        } else {
            None
        }
    }

    /// Decodes the kind of object from a mode.
    pub fn from_mode(mode: u16) -> (r: Option<Self>)
        ensures
            r == Self::of_mode(mode),
    {
        let kind = mode & Mode::TYPE_MASK;
        if kind == 0x1000 {
            Some(FileType::Fifo)
        } else if kind == 0x2000 {
            Some(FileType::CharacterDevice)
        } else if kind == 0x4000 {
            Some(FileType::Directory)
        } else if kind == 0x6000 {
            Some(FileType::BlockDevice)
        } else if kind == 0x8000 {
            Some(FileType::RegularFile)
        } else if kind == 0xA000 {
            Some(FileType::SymbolicLink)
        } else if kind == 0xC000 {
            Some(FileType::Socket)
        } else {
            None
        }
    }
}

/// The mode of an inode: the kind of object in the top four bits, the
/// permissions and the three special bits below them.
#[derive(Debug, Clone, Copy, PartialEq, Eq, Structural)]
pub struct Mode {
    pub bits: u16,
}

/// The permissions of a mode as `fs_config` writes them: four octal digits.
pub open spec fn permissions_text(bits: u16) -> Seq<char> {
    let p = (bits & 0x0FFF) as int;
    seq![
        digit_char(p / 512),
        digit_char((p / 64) % 8),
        digit_char((p / 8) % 8),
        digit_char(p % 8),
    ]
}

impl Mode {
    pub const OTHER_EXECUTE: u16 = 0x001;

    pub const OTHER_WRITE: u16 = 0x002;

    pub const OTHER_READ: u16 = 0x004;

    pub const GROUP_EXECUTE: u16 = 0x008;

    pub const GROUP_WRITE: u16 = 0x010;

    pub const GROUP_READ: u16 = 0x020;

    pub const OWNER_EXECUTE: u16 = 0x040;

    pub const OWNER_WRITE: u16 = 0x080;

    pub const OWNER_READ: u16 = 0x100;

    pub const STICKY_BIT: u16 = 0x200;

    pub const SET_GID: u16 = 0x400;

    pub const SET_UID: u16 = 0x800;

    pub const TYPE_FIFO: u16 = 0x1000;

    pub const TYPE_CHARACTER_DEVICE: u16 = 0x2000;

    pub const TYPE_DIRECTORY: u16 = 0x4000;

    pub const TYPE_BLOCK_DEVICE: u16 = 0x6000;

    pub const TYPE_REGULAR_FILE: u16 = 0x8000;

    pub const TYPE_SYMBOLIC_LINK: u16 = 0xA000;

    pub const TYPE_SOCKET: u16 = 0xC000;

    /// The bits that hold the permissions and the special bits.
    pub const PERM_MASK: u16 = 0x0FFF;

    /// The bits that hold the kind of object.
    pub const TYPE_MASK: u16 = 0xF000;

    /// Every bit of a mode has a meaning, so nothing is cut off.
    pub fn from_bits_truncate(bits: u16) -> (r: Mode)
        ensures
            r.bits == bits,
    {
        Mode { bits }
    }

    /// The sixteen bits of the mode.
    pub fn bits(&self) -> (r: u16)
        ensures
            r == self.bits,
    {
        self.bits
    }

    /// Whether every bit of `other` is set in this mode.
    pub fn contains(&self, other: u16) -> (r: bool)
        ensures
            r == (self.bits & other == other),
    {
        self.bits & other == other
    }

    /// Decodes a mode from the first two bytes of `input`.
    pub fn parse(input: &[u8]) -> (r: Result<Mode, Error>)
        ensures
            input@.len() >= 2 ==> (r matches Ok(m) && m.bits as int == le16(input@, 0)),
            input@.len() < 2 ==> (r matches Err(e) && e@ == short_buffer(ParseContext::Inode)),
    {
        let bits = u16_at(input, 0, ParseContext::Inode)?;
        Ok(Mode::from_bits_truncate(bits))
    }

    /// The kind of object, if the mode names one.
    pub fn file_type(&self) -> (r: Option<FileType>)
        ensures
            r == FileType::of_mode(self.bits),
    {
        FileType::from_mode(self.bits)
    }

    /// The permissions and special bits in four octal digits.
    pub fn permissions_string(&self) -> (r: String)
        ensures
            r@ == permissions_text(self.bits),
    {
        let bits = self.bits;
        let p = bits & Mode::PERM_MASK;
        assert(bits & 0x0FFF < 4096) by (bit_vector);
        let mut text = String::new();
        text.push(digit((p / 512) as u8));
        text.push(digit(((p / 64) % 8) as u8));
        text.push(digit(((p / 8) % 8) as u8));
        text.push(digit((p % 8) as u8));
        assert(text@ =~= permissions_text(self.bits));
        text
    }
}

/// The flags of an inode. Bits without a meaning are dropped when the flags
/// are read.
#[derive(Debug, Clone, Copy, PartialEq, Eq, Structural)]
pub struct Flags {
    pub bits: u32,
}

impl Flags {
    pub const SECURE_DELETE: u32 = 0x00000001;

    pub const UNDELETE: u32 = 0x00000002;

    pub const COMPRESSED: u32 = 0x00000004;

    pub const SYNCHRONOUS: u32 = 0x00000008;

    pub const IMMUTABLE: u32 = 0x00000010;

    pub const APPEND_ONLY: u32 = 0x00000020;

    pub const NO_DUMP: u32 = 0x00000040;

    pub const NO_ACCESS_TIME: u32 = 0x00000080;

    pub const DIRTY_COMPRESSED: u32 = 0x00000100;

    pub const COMPRESSED_CLUSTERS: u32 = 0x00000200;

    pub const NO_COMPRESS: u32 = 0x00000400;

    pub const ENCRYPTED: u32 = 0x00000800;

    pub const HASHED_INDEX: u32 = 0x00001000;

    pub const AFS_DIRECTORY: u32 = 0x00002000;

    pub const JOURNAL_DATA: u32 = 0x00004000;

    pub const NO_TAIL_MERGE: u32 = 0x00008000;

    pub const DIRECTORY_SYNC: u32 = 0x00010000;

    pub const TOP_DIRECTORY: u32 = 0x00020000;

    pub const HUGE_FILE: u32 = 0x00040000;

    /// The data is mapped by an extent tree.
    pub const EXTENTS: u32 = 0x00080000;

    pub const VERITY_PROTECTED: u32 = 0x00100000;

    pub const EXTENDED_ATTRIBUTE: u32 = 0x00200000;

    pub const EXTENTS_OVERFLOW: u32 = 0x00400000;

    pub const SNAPSHOT: u32 = 0x01000000;

    pub const SNAPSHOT_DELETED: u32 = 0x04000000;

    pub const SNAPSHOT_SHRUNK: u32 = 0x08000000;

    pub const INLINE_DATA: u32 = 0x10000000;

    pub const PROJECT_INHERIT: u32 = 0x20000000;

    pub const RESERVED: u32 = 0x80000000;

    /// Every bit that has a meaning.
    pub const ALL: u32 = 0xBD7FFFFF;

    /// The bits that a user may see.
    pub const USER_VISIBLE: u32 = 0x705BDFFF;

    /// The bits that a user may change.
    pub const USER_MODIFIABLE: u32 = 0x604BC0FF;

    /// The flags among `bits` that have a meaning.
    pub fn from_bits_truncate(bits: u32) -> (r: Flags)
        ensures
            r.bits == bits & 0xBD7FFFFF,
    {
        Flags { bits: bits & Flags::ALL }
    }

    /// The flags as bits.
    pub fn bits(&self) -> (r: u32)
        ensures
            r == self.bits,
    {
        self.bits
    }

    /// Whether every bit of `other` is set.
    pub fn contains(&self, other: u32) -> (r: bool)
        ensures
            r == (self.bits & other == other),
    {
        self.bits & other == other
    }

    /// Decodes the flags from the first four bytes of `input`.
    pub fn parse(input: &[u8]) -> (r: Result<Flags, Error>)
        ensures
            input@.len() >= 4 ==> (r matches Ok(f) && f.bits == (le32(input@, 0) as u32)
                & 0xBD7FFFFF),
            input@.len() < 4 ==> (r matches Err(e) && e@ == short_buffer(ParseContext::Inode)),
    {
        let bits = u32_at(input, 0, ParseContext::Inode)?;
        Ok(Flags::from_bits_truncate(bits))
    }

    /// The flags that a user may see.
    pub fn user_visible(&self) -> (r: Flags)
        ensures
            r.bits == (self.bits & 0x705BDFFF) & 0xBD7FFFFF,
    {
        Flags::from_bits_truncate(self.bits & Flags::USER_VISIBLE)
    }

    /// The flags that a user may change.
    pub fn user_modifiable(&self) -> (r: Flags)
        ensures
            r.bits == (self.bits & 0x604BC0FF) & 0xBD7FFFFF,
    {
        Flags::from_bits_truncate(self.bits & Flags::USER_MODIFIABLE)
    }
}

/// The twelve bytes of an inode that Linux uses for the high halves of
/// several fields.
#[derive(Debug, Clone, Copy, Default, PartialEq, Eq, Structural)]
pub struct Linux2 {
    pub blocks_high: u16,
    pub file_acl_high: u16,
    pub uid_high: u16,
    pub gid_high: u16,
    pub checksum_lo: u16,
    pub reserved: u16,
}

impl Linux2 {
    /// The record that the first twelve bytes of `data` encode.
    pub open spec fn decoded(data: Seq<u8>) -> Linux2
        recommends
            data.len() >= 12,
    {
        Linux2 {
            blocks_high: le16(data, 0) as u16,
            file_acl_high: le16(data, 2) as u16,
            uid_high: le16(data, 4) as u16,
            gid_high: le16(data, 6) as u16,
            checksum_lo: le16(data, 8) as u16,
            reserved: le16(data, 10) as u16,
        }
    }

    /// Decodes the record from the start of `bytes`.
    pub fn parse(bytes: &[u8]) -> (r: Result<Self, Error>)
        ensures
            bytes@.len() >= 12 ==> (r matches Ok(x) && x == Self::decoded(bytes@)),
            bytes@.len() < 12 ==> (r matches Err(e) && e@ == short_buffer(ParseContext::Inode)),
    {
        let ctx = ParseContext::Inode;
        if bytes.len() < 12 {
            return Err(Error::invalid_data(ctx, "buffer too small"));
        }
        let blocks_high = u16_at(bytes, 0, ctx)?;
        let file_acl_high = u16_at(bytes, 2, ctx)?;
        let uid_high = u16_at(bytes, 4, ctx)?;
        let gid_high = u16_at(bytes, 6, ctx)?;
        let checksum_lo = u16_at(bytes, 8, ctx)?;
        let reserved = u16_at(bytes, 10, ctx)?;
        Ok(Linux2 { blocks_high, file_acl_high, uid_high, gid_high, checksum_lo, reserved })
    }
}

/// An inode as it is stored, with the attributes kept in its tail.
#[derive(Debug, Clone)]
pub struct Inode {
    pub mode: Mode,
    pub uid: u16,
    pub size: u32,
    pub atime: u32,
    pub ctime: u32,
    pub mtime: u32,
    pub dtime: u32,
    pub gid: u16,
    pub links_count: u16,
    pub blocks: u32,
    pub flags: Flags,
    pub osd1: u32,
    /// The sixty bytes that map the data: an extent tree's root, fifteen
    /// block pointers, or the target of a short symbolic link.
    pub block: [u32; 15],
    pub generation: u32,
    pub file_acl: u32,
    pub size_hi: u32,
    pub faddr: u32,
    pub osd2: Linux2,
    pub extra_isize: u16,
    pub checksum_hi: u16,
    pub ctime_extra: u32,
    pub mtime_extra: u32,
    pub atime_extra: u32,
    pub crtime: u32,
    pub crtime_extra: u32,
    pub version_hi: u32,
    pub project_id: u32,
    pub inline_xattrs: Vec<XAttrEntry>,
}

/// An inode with its block map as a sequence and its attributes by their
/// views.
pub struct InodeView {
    pub mode: Mode,
    pub uid: u16,
    pub size: u32,
    pub atime: u32,
    pub ctime: u32,
    pub mtime: u32,
    pub dtime: u32,
    pub gid: u16,
    pub links_count: u16,
    pub blocks: u32,
    pub flags: Flags,
    pub osd1: u32,
    pub block: Seq<u32>,
    pub generation: u32,
    pub file_acl: u32,
    pub size_hi: u32,
    pub faddr: u32,
    pub osd2: Linux2,
    pub extra_isize: u16,
    pub checksum_hi: u16,
    pub ctime_extra: u32,
    pub mtime_extra: u32,
    pub atime_extra: u32,
    pub crtime: u32,
    pub crtime_extra: u32,
    pub version_hi: u32,
    pub project_id: u32,
    pub inline_xattrs: Seq<XAttrEntryView>,
}

impl View for Inode {
    type V = InodeView;

    open spec fn view(&self) -> InodeView {
        InodeView {
            mode: self.mode,
            uid: self.uid,
            size: self.size,
            atime: self.atime,
            ctime: self.ctime,
            mtime: self.mtime,
            dtime: self.dtime,
            gid: self.gid,
            links_count: self.links_count,
            blocks: self.blocks,
            flags: self.flags,
            osd1: self.osd1,
            block: self.block@,
            generation: self.generation,
            file_acl: self.file_acl,
            size_hi: self.size_hi,
            faddr: self.faddr,
            osd2: self.osd2,
            extra_isize: self.extra_isize,
            checksum_hi: self.checksum_hi,
            ctime_extra: self.ctime_extra,
            mtime_extra: self.mtime_extra,
            atime_extra: self.atime_extra,
            crtime: self.crtime,
            crtime_extra: self.crtime_extra,
            version_hi: self.version_hi,
            project_id: self.project_id,
            inline_xattrs: views(self.inline_xattrs@),
        }
    }
}

impl InodeView {
    /// Whether the block map has its fifteen words, as that of every inode
    /// has.
    pub open spec fn wf(&self) -> bool {
        self.block.len() == 15
    }

    /// The size that the inode gives for its data: both halves of the size
    /// field for a regular file, the low half for anything else.
    ///
    /// The high half counts only on a file system of the dynamic revision,
    /// which an inode does not know. The size of the data with that taken
    /// into account is `Superblock::spec_inode_size_file`.
    pub open spec fn size(&self) -> int {
        if self.is_regular_file() {
            join32(self.size_hi as int, self.size as int)
        } else {
            self.size as int
        }
    }

    pub open spec fn uid(&self) -> int {
        join16(self.osd2.uid_high as int, self.uid as int)
    }

    pub open spec fn gid(&self) -> int {
        join16(self.osd2.gid_high as int, self.gid as int)
    }

    pub open spec fn file_type(&self) -> Option<FileType> {
        FileType::of_mode(self.mode.bits)
    }

    pub open spec fn is_directory(&self) -> bool {
        self.file_type() == Some(FileType::Directory)
    }

    pub open spec fn is_regular_file(&self) -> bool {
        self.file_type() == Some(FileType::RegularFile)
    }

    pub open spec fn is_symlink(&self) -> bool {
        self.file_type() == Some(FileType::SymbolicLink)
    }

    pub open spec fn uses_extents(&self) -> bool {
        self.flags.bits & 0x00080000 == 0x00080000
    }

    /// Whether the inode is a symbolic link that keeps its target in the
    /// block map: one whose target is shorter than the map.
    pub open spec fn is_fast_symlink(&self) -> bool {
        self.is_symlink() && self.size < 60
    }

    /// The block that holds the attributes that did not fit in the inode;
    /// zero if there is none.
    pub open spec fn xattr_block(&self) -> int {
        join32(self.osd2.file_acl_high as int, self.file_acl as int)
    }
}

/// The failure of an inode whose extra fields are said to reach beyond the
/// end of the record.
pub open spec fn extra_size_out_of_bounds() -> Failure {
    Failure::InvalidData {
        context: ParseContext::Inode,
        message: "extra size exceeds available data"@,
    }
}

/// What decoding the tail of an inode gives: nothing if the tail is too
/// short for a header, else the records after the header, their values
/// counted from the first record.
pub open spec fn inline_entries(tail: Seq<u8>) -> Result<Seq<XAttrEntryView>, Failure> {
    if tail.len() < 4 {
        Ok(Seq::empty())
    } else {
        match XAttrIbodyHeader::parsed(tail) {
            Err(f) => Err(f),
            Ok(_) => entries_from(tail, 4, 4),
        }
    }
}

/// In the tail of an inode a value lies at the offset that its record
/// gives, counted from the first record, which stands four bytes into the
/// tail.
pub proof fn lemma_inline_values_are_counted_from_the_first_entry(tail: Seq<u8>, i: int)
    requires
        inline_entries(tail) is Ok,
        0 <= i < inline_entries(tail)->Ok_0.len(),
        inline_entries(tail)->Ok_0[i].header.value_inum == 0,
        inline_entries(tail)->Ok_0[i].header.value_size > 0,
        4 + inline_entries(tail)->Ok_0[i].header.value_offs + inline_entries(
            tail,
        )->Ok_0[i].header.value_size <= tail.len(),
    ensures
        inline_entries(tail)->Ok_0[i].value == tail.subrange(
            4 + inline_entries(tail)->Ok_0[i].header.value_offs,
            4 + inline_entries(tail)->Ok_0[i].header.value_offs + inline_entries(
                tail,
            )->Ok_0[i].header.value_size,
        ),
{
    lemma_values_are_counted_from_base(tail, 4, 4, i);
}

impl Inode {
    /// The number of the root directory's inode.
    pub const ROOT_INODE: u32 = 2;

    /// The size of an inode without extra fields.
    pub const GOOD_OLD_SIZE: u16 = 128;

    /// The size of an inode with every extra field that is decoded.
    pub const FULL_SIZE: usize = 160;

    /// The number of direct block pointers.
    pub const DIRECT_BLOCKS: u32 = 12;

    pub const INDIRECT_BLOCK_IDX: usize = 12;

    pub const DOUBLE_INDIRECT_BLOCK_IDX: usize = 13;

    pub const TRIPLE_INDIRECT_BLOCK_IDX: usize = 14;

    /// A symbolic link shorter than this keeps its target in the inode.
    pub const FAST_SYMLINK_MAX_SIZE: u64 = 60;

    /// The size of the extra fields that `data` declares: the field at
    /// offset 128 where the record has all extra fields, zero where it is
    /// shorter.
    pub open spec fn extra_size_in(data: Seq<u8>) -> int {
        if data.len() >= 160 {
            le16(data, 128)
        } else {
            0
        }
    }

    /// The attributes kept in the tail of the record `data`.
    pub open spec fn tail_entries(data: Seq<u8>) -> Result<Seq<XAttrEntryView>, Failure> {
        let extra = Self::extra_size_in(data);
        if extra == 0 {
            Ok(Seq::empty())
        } else if 128 + extra > data.len() {
            Err(extra_size_out_of_bounds())
        } else {
            inline_entries(data.skip(128 + extra))
        }
    }

    /// The inode that the record `data` encodes. The fields from offset 128
    /// on are zero where `data` has fewer than 160 bytes.
    pub open spec fn decoded(data: Seq<u8>) -> InodeView
        recommends
            Self::rejection(data) is None,
    {
        let full = data.len() >= 160;
        InodeView {
            mode: Mode { bits: le16(data, 0) as u16 },
            uid: le16(data, 2) as u16,
            size: le32(data, 4) as u32,
            atime: le32(data, 8) as u32,
            ctime: le32(data, 12) as u32,
            mtime: le32(data, 16) as u32,
            dtime: le32(data, 20) as u32,
            gid: le16(data, 24) as u16,
            links_count: le16(data, 26) as u16,
            blocks: le32(data, 28) as u32,
            flags: Flags { bits: (le32(data, 32) as u32) & 0xBD7FFFFF },
            osd1: le32(data, 36) as u32,
            block: Seq::new(15, |i: int| le32(data, 40 + 4 * i) as u32),
            generation: le32(data, 100) as u32,
            file_acl: le32(data, 104) as u32,
            size_hi: le32(data, 108) as u32,
            faddr: le32(data, 112) as u32,
            osd2: Linux2::decoded(data.subrange(116, 128)),
            extra_isize: Self::extra_size_in(data) as u16,
            checksum_hi: if full { le16(data, 130) as u16 } else { 0 },
            ctime_extra: if full { le32(data, 132) as u32 } else { 0 },
            mtime_extra: if full { le32(data, 136) as u32 } else { 0 },
            atime_extra: if full { le32(data, 140) as u32 } else { 0 },
            crtime: if full { le32(data, 144) as u32 } else { 0 },
            crtime_extra: if full { le32(data, 148) as u32 } else { 0 },
            version_hi: if full { le32(data, 152) as u32 } else { 0 },
            project_id: if full { le32(data, 156) as u32 } else { 0 },
            inline_xattrs: match Self::tail_entries(data) {
                Ok(found) => found,
                Err(_) => Seq::empty(),
            },
        }
    }

    /// Why `data` is not accepted as an inode, if it is not.
    pub open spec fn rejection(data: Seq<u8>) -> Option<Failure> {
        if data.len() < 128 {
            Some(short_buffer(ParseContext::Inode))
        } else {
            match Self::tail_entries(data) {
                Err(f) => Some(f),
                Ok(_) => None,
            }
        }
    }

    /// Decodes an inode from `bytes`, which hold the whole record: the
    /// fixed fields and, after the extra fields, the attributes.
    pub fn parse(bytes: &[u8]) -> (r: Result<Self, Error>)
        ensures
            match r {
                Ok(inode) => Self::rejection(bytes@) is None && inode@ == Self::decoded(bytes@),
                Err(e) => Self::rejection(bytes@) == Some(e@),
            },
    {
        let ctx = ParseContext::Inode;
        if bytes.len() < 128 {
            return Err(Error::invalid_data(ctx, "buffer too small"));
        }
        let mode = Mode::parse(bytes)?;
        let uid = u16_at(bytes, 2, ctx)?;
        let size = u32_at(bytes, 4, ctx)?;
        let atime = u32_at(bytes, 8, ctx)?;
        let ctime = u32_at(bytes, 12, ctx)?;
        let mtime = u32_at(bytes, 16, ctx)?;
        let dtime = u32_at(bytes, 20, ctx)?;
        let gid = u16_at(bytes, 24, ctx)?;
        let links_count = u16_at(bytes, 26, ctx)?;
        let blocks = u32_at(bytes, 28, ctx)?;
        let flag_bits = slice_subrange(bytes, 32, 36);
        let flags = Flags::parse(flag_bits)?;
        let osd1 = u32_at(bytes, 36, ctx)?;
        let words = u32s_at(bytes, 40, 15, ctx)?;
        let block: [u32; 15] = [
            words[0],
            words[1],
            words[2],
            words[3],
            words[4],
            words[5],
            words[6],
            words[7],
            words[8],
            words[9],
            words[10],
            words[11],
            words[12],
            words[13],
            words[14],
        ];
        let generation = u32_at(bytes, 100, ctx)?;
        let file_acl = u32_at(bytes, 104, ctx)?;
        let size_hi = u32_at(bytes, 108, ctx)?;
        let faddr = u32_at(bytes, 112, ctx)?;
        let osd2 = Linux2::parse(slice_subrange(bytes, 116, 128))?;
        let mut inode = Inode {
            mode,
            uid,
            size,
            atime,
            ctime,
            mtime,
            dtime,
            gid,
            links_count,
            blocks,
            flags,
            osd1,
            block,
            generation,
            file_acl,
            size_hi,
            faddr,
            osd2,
            extra_isize: 0,
            checksum_hi: 0,
            ctime_extra: 0,
            mtime_extra: 0,
            atime_extra: 0,
            crtime: 0,
            crtime_extra: 0,
            version_hi: 0,
            project_id: 0,
            inline_xattrs: Vec::new(),
        };
        if bytes.len() >= Self::FULL_SIZE {
            inode.extra_isize = u16_at(bytes, 128, ctx)?;
            inode.checksum_hi = u16_at(bytes, 130, ctx)?;
            inode.ctime_extra = u32_at(bytes, 132, ctx)?;
            inode.mtime_extra = u32_at(bytes, 136, ctx)?;
            inode.atime_extra = u32_at(bytes, 140, ctx)?;
            inode.crtime = u32_at(bytes, 144, ctx)?;
            inode.crtime_extra = u32_at(bytes, 148, ctx)?;
            inode.version_hi = u32_at(bytes, 152, ctx)?;
            inode.project_id = u32_at(bytes, 156, ctx)?;
        }
        assert(views(inode.inline_xattrs@) =~= Seq::<XAttrEntryView>::empty());
        if inode.extra_isize > 0 {
            let start = Self::GOOD_OLD_SIZE as usize + inode.extra_isize as usize;
            if start > bytes.len() {
                return Err(Error::invalid_data(ctx, "extra size exceeds available data"));
            }
            let inline_data = slice_subrange(bytes, start, bytes.len());
            assert(inline_data@ == bytes@.skip(start as int));
            inode.inline_xattrs = Self::parse_inline_xattr(inline_data)?;
        }
        assert(inode@.block =~= Self::decoded(bytes@).block);
        Ok(inode)
    }

    /// Decodes the attributes kept in the tail of an inode. `inline_data`
    /// starts where the extra fields end.
    pub fn parse_inline_xattr(inline_data: &[u8]) -> (r: Result<Vec<XAttrEntry>, Error>)
        ensures
            match r {
                Ok(found) => inline_entries(inline_data@) == Ok::<Seq<XAttrEntryView>, Failure>(
                    views(found@),
                ),
                Err(e) => inline_entries(inline_data@) == Err::<Seq<XAttrEntryView>, Failure>(e@),
            },
    {
        if inline_data.len() < XAttrIbodyHeader::SIZE {
            let none: Vec<XAttrEntry> = Vec::new();
            assert(views(none@) =~= Seq::<XAttrEntryView>::empty());
            return Ok(none);
        }
        match XAttrIbodyHeader::parse(inline_data) {
            Ok(_) => {},
            Err(e) => {
                return Err(e);
            },
        }
        XAttrEntry::parse(inline_data, XAttrIbodyHeader::SIZE, XAttrIbodyHeader::SIZE)
    }

    pub open spec fn spec_size(&self) -> int {
        self@.size()
    }

    /// The size that the inode gives for its data: both halves of the size
    /// field for a regular file, the low half for anything else.
    ///
    /// The high half counts only on a file system of the dynamic revision.
    /// An inode does not carry the revision, so this takes the file system
    /// to be of that revision. `Superblock::inode_size_file` knows the
    /// revision: it is what `InodeReader::size` and `File::size` return and
    /// what every read goes by.
    pub fn size(&self) -> (r: u64)
        ensures
            r as int == self.spec_size(),
            r as int == (if self@.is_regular_file() {
                join32(self.size_hi as int, self.size as int)
            } else {
                self.size as int
            }),
    {
        if self.is_regular_file() {
            combine_u32(self.size_hi, self.size)
        } else {
            self.size as u64
        }
    }

    /// The mode: the kind of object and its permissions.
    pub fn mode(&self) -> (r: Mode)
        ensures
            r == self.mode,
    {
        self.mode
    }

    pub open spec fn spec_uid(&self) -> int {
        self@.uid()
    }

    /// The owner: the two halves of the user id, joined.
    pub fn uid(&self) -> (r: u32)
        ensures
            r as int == self.spec_uid(),
    {
        combine_u16(self.osd2.uid_high, self.uid)
    }

    pub open spec fn spec_gid(&self) -> int {
        self@.gid()
    }

    /// The group: the two halves of the group id, joined.
    pub fn gid(&self) -> (r: u32)
        ensures
            r as int == self.spec_gid(),
    {
        combine_u16(self.osd2.gid_high, self.gid)
    }

    pub open spec fn spec_file_type(&self) -> Option<FileType> {
        self@.file_type()
    }

    /// The kind of object that the inode describes.
    #[verifier::when_used_as_spec(spec_file_type)]
    pub fn file_type(&self) -> (r: Option<FileType>)
        ensures
            r == self.spec_file_type(),
    {
        FileType::from_mode(self.mode.bits())
    }

    pub open spec fn spec_is_directory(&self) -> bool {
        self@.is_directory()
    }

    /// Whether the inode describes a directory.
    #[verifier::when_used_as_spec(spec_is_directory)]
    pub fn is_directory(&self) -> (r: bool)
        ensures
            r == self.spec_is_directory(),
    {
        match self.file_type() {
            Some(FileType::Directory) => true,
            _ => false,
        }
    }

    pub open spec fn spec_is_regular_file(&self) -> bool {
        self@.is_regular_file()
    }

    /// Whether the inode describes a regular file.
    #[verifier::when_used_as_spec(spec_is_regular_file)]
    pub fn is_regular_file(&self) -> (r: bool)
        ensures
            r == self.spec_is_regular_file(),
    {
        match self.file_type() {
            Some(FileType::RegularFile) => true,
            _ => false,
        }
    }

    pub open spec fn spec_is_symlink(&self) -> bool {
        self@.is_symlink()
    }

    /// Whether the inode describes a symbolic link.
    #[verifier::when_used_as_spec(spec_is_symlink)]
    pub fn is_symlink(&self) -> (r: bool)
        ensures
            r == self.spec_is_symlink(),
    {
        match self.file_type() {
            Some(FileType::SymbolicLink) => true,
            _ => false,
        }
    }

    /// Whether the inode is a symbolic link that keeps its target in the
    /// block map.
    pub fn is_fast_symlink(&self) -> (r: bool)
        ensures
            r == self@.is_fast_symlink(),
    {
        self.is_symlink() && (self.size as u64) < Self::FAST_SYMLINK_MAX_SIZE
    }

    pub open spec fn spec_uses_extents(&self) -> bool {
        self@.uses_extents()
    }

    /// Whether the data is mapped by an extent tree; if not, by block
    /// pointers.
    #[verifier::when_used_as_spec(spec_uses_extents)]
    pub fn uses_extents(&self) -> (r: bool)
        ensures
            r == self.spec_uses_extents(),
    {
        self.flags.contains(Flags::EXTENTS)
    }

    /// The mode without the kind of object.
    pub fn permissions(&self) -> (r: Mode)
        ensures
            r.bits == self.mode.bits & 0x0FFF,
    {
        Mode::from_bits_truncate(self.mode.bits() & Mode::PERM_MASK)
    }

    pub open spec fn spec_xattr_block(&self) -> int {
        self@.xattr_block()
    }

    /// The block that holds the attributes that did not fit in the inode,
    /// if there is one.
    pub fn xattr_block_number(&self) -> (r: Option<u64>)
        ensures
            self.spec_xattr_block() == 0 ==> r is None,
            self.spec_xattr_block() != 0 ==> r == Some(self.spec_xattr_block() as u64),
    {
        let block_num = combine_u32(self.osd2.file_acl_high as u32, self.file_acl);
        if block_num != 0 {
            Some(block_num)
        } else {
            None
        }
    }

    /// The attributes kept in the inode's tail.
    pub fn xattrs(&self) -> (r: &[XAttrEntry])
        ensures
            r@ == self.inline_xattrs@,
    {
        self.inline_xattrs.as_slice()
    }
}

} // verus!

//! The on-disk structures of ext4 and the read path built on them.

use crate::ext4::text::{text_of, text_or_empty};
use vstd::prelude::*;
use vstd::slice::slice_subrange;
use vstd::std_specs::convert::FromSpecImpl;

pub mod block;
pub mod directory;
pub mod extent;
pub mod file;
pub mod inode;
pub mod inode_reader;
pub mod reader;
pub mod superblock;
pub mod text;
pub mod volume;
pub mod walker;
pub mod wire;
pub mod xattr;

verus! {

/// The kind of object that a directory entry names, as the entry records it.
#[derive(Debug, Clone, Copy, PartialEq, Eq, Structural)]
pub enum DirEntryType {
    Unknown,
    RegFile,
    Dir,
    ChrDev,
    BlkDev,
    Fifo,
    Sock,
    Symlink,
}

impl DirEntryType {
    /// The kind that the stored number stands for; a number that stands for
    /// none is read as unknown.
    pub open spec fn of_raw(value: u8) -> DirEntryType {
        match value {
            1 => DirEntryType::RegFile,
            2 => DirEntryType::Dir,
            3 => DirEntryType::ChrDev,
            4 => DirEntryType::BlkDev,
            5 => DirEntryType::Fifo,
            6 => DirEntryType::Sock,
            7 => DirEntryType::Symlink,
            _ => DirEntryType::Unknown,
        }
    }
}

impl From<u8> for DirEntryType {
    fn from(value: u8) -> (r: Self) {
        match value {
            1 => DirEntryType::RegFile,
            2 => DirEntryType::Dir,
            3 => DirEntryType::ChrDev,
            4 => DirEntryType::BlkDev,
            5 => DirEntryType::Fifo,
            6 => DirEntryType::Sock,
            7 => DirEntryType::Symlink,
            _ => DirEntryType::Unknown,
        }
    }
}

impl FromSpecImpl<u8> for DirEntryType {
    open spec fn obeys_from_spec() -> bool {
        true
    }

    open spec fn from_spec(value: u8) -> DirEntryType {
        DirEntryType::of_raw(value)
    }
}

/// One record of a directory: a name and the inode that it names.
#[derive(Debug, Clone, Copy)]
pub struct DirectoryEntry {
    pub inode: u32,
    pub entry_len: u16,
    /// The length of the name in bytes.
    pub name_len: u8,
    pub inode_type: u8,
    /// The name in its first `name_len` bytes. What follows them is not
    /// part of the name.
    pub name: [u8; 255],
}

/// A directory entry with the bytes that hold its name as a sequence.
pub struct DirectoryEntryView {
    pub inode: u32,
    pub entry_len: u16,
    pub name_len: u8,
    pub inode_type: u8,
    pub name: Seq<u8>,
}

impl View for DirectoryEntry {
    type V = DirectoryEntryView;

    open spec fn view(&self) -> DirectoryEntryView {
        DirectoryEntryView {
            inode: self.inode,
            entry_len: self.entry_len,
            name_len: self.name_len,
            inode_type: self.inode_type,
            name: self.name@,
        }
    }
}

impl DirectoryEntryView {
    /// The bytes of the name: the first `name_len` of the bytes that hold
    /// it, or all of them where there are fewer.
    pub open spec fn name_bytes(&self) -> Seq<u8> {
        if self.name_len <= self.name.len() {
            self.name.take(self.name_len as int)
        } else {
            self.name
        }
    }

    /// The name as text; a name that is not UTF-8 reads as the empty text.
    pub open spec fn name_text(&self) -> Seq<char> {
        text_of(self.name_bytes())
    }

    /// Whether the entry is one of the two that every directory has for
    /// itself and for its parent.
    pub open spec fn is_dot(&self) -> bool {
        self.name_text() == "."@ || self.name_text() == ".."@
    }
}

impl DirectoryEntry {
    /// The size of a record without its name.
    pub const HEADER_SIZE: usize = 8;

    /// The longest name that a record can hold.
    pub const MAX_NAME_LEN: usize = 255;

    /// The name as text: the first `name_len` bytes of `name`, read as
    /// UTF-8. A name that is not UTF-8 reads as the empty text.
    pub fn name_str(&self) -> (r: &str)
        ensures
            r@ == self@.name_text(),
            r@ == text_of(self.name@.take(self.name_len as int)),
    {
        let len = self.name_len as usize;
        let bytes = slice_subrange(self.name.as_slice(), 0, len);
        assert(bytes@ == self.name@.take(len as int));
        text_or_empty(bytes)
    }

    /// The kind of object that the entry names, as the entry records it.
    pub fn entry_type(&self) -> (r: DirEntryType)
        ensures
            r == DirEntryType::of_raw(self.inode_type),
    {
        DirEntryType::from(self.inode_type)
    }
}

/// The record that ends a directory block that carries a checksum.
#[derive(Debug, Clone, Copy, PartialEq, Eq, Structural)]
pub struct DirectoryEntryTail {
    pub reserved_zero1: u32,
    pub rec_len: u16,
    pub reserved_zero2: u8,
    pub reserved_ft: u8,
    pub checksum: u32,
}

/// Where a directory entry was found.
#[derive(Debug, Clone)]
pub struct DirectorySearchResult {
    pub dentry: DirectoryEntry,
    pub pblock_id: u64,
    pub offset: usize,
    pub prev_offset: usize,
}

/// The views of `entries`.
pub open spec fn entry_views(entries: Seq<DirectoryEntry>) -> Seq<DirectoryEntryView> {
    entries.map_values(|e: DirectoryEntry| e@)
}

} // verus!

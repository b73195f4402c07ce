//! A reader that answers by path: the volume under the names of the
//! questions most often asked of it.

use crate::ext4::block::BlockGroupDescriptor;
use crate::ext4::directory::{all_name_inodes, index_of, position_of, Directory};
use crate::ext4::extent::Extent;
use crate::ext4::inode::{Inode, InodeView};
use crate::ext4::inode_reader::{
    block_bytes, block_map_bytes, collect_extents, extent_list, file_bytes, in_order,
    resolve_logical, resolved, whole_file, InodeReader,
};
use crate::ext4::superblock::Superblock;
use crate::ext4::text::{lossy_text, utf8_lossy};
use crate::ext4::volume::Volume;
use crate::ext4::{entry_views, DirectoryEntry, DirectoryEntryView};
use crate::utils::{outcome, outcome_view, Error, Failure};
use vstd::prelude::*;
use vstd::slice::{slice_subrange, slice_to_vec};

verus! {

/// The failure of asking for the target of something that is no symbolic
/// link.
pub open spec fn not_a_symlink() -> Failure {
    Failure::InvalidPath { path: Seq::empty(), reason: "not a symbolic link"@ }
}

/// An ext4 image with its superblock decoded, read by path.
#[derive(Debug)]
pub struct Ext4Reader {
    pub volume: Volume,
}

impl Ext4Reader {
    /// Whether the volume is well formed.
    pub open spec fn wf(&self) -> bool {
        self.volume.wf()
    }

    /// Mounts `image`.
    pub fn new(image: Vec<u8>) -> (r: Result<Self, Error>)
        ensures
            match r {
                Ok(reader) => Volume::rejection(image@) is None && reader.wf()
                    && reader.volume.image@ == image@ && reader.volume.superblock.decodes(
                    image@.subrange(1024, 2048),
                ),
                Err(e) => Volume::rejection(image@) == Some(e@),
            },
    {
        let volume = Volume::new(image)?;
        Ok(Ext4Reader { volume })
    }

    /// The superblock of the image.
    pub fn superblock(&self) -> (r: &Superblock)
        ensures
            *r == *self.volume.superblock,
    {
        self.volume.superblock()
    }

    /// The size of a block in bytes.
    pub fn block_size(&self) -> (r: u32)
        ensures
            r == self.volume.block_size,
    {
        self.volume.block_size()
    }

    /// Reads one block of the image.
    pub fn read_block(&self, block_num: u64) -> (r: Result<Vec<u8>, Error>)
        requires
            self.wf(),
        ensures
            outcome_view(r) == self.volume.block_outcome(block_num as int),
    {
        self.volume.read_block(block_num)
    }

    /// Reads the descriptor of block group `bg_index`.
    pub fn read_block_group_descriptor(&self, bg_index: u32) -> (r: Result<
        BlockGroupDescriptor,
        Error,
    >)
        requires
            self.wf(),
        ensures
            outcome(r) == self.volume.spec_descriptor(bg_index),
    {
        self.volume.read_block_group_descriptor(bg_index)
    }

    /// Reads an inode by its number.
    pub fn read_inode(&self, inode_num: u32) -> (r: Result<Inode, Error>)
        requires
            self.wf(),
        ensures
            outcome_view(r) == self.volume.spec_inode(inode_num),
    {
        self.volume.read_inode(inode_num)
    }

    /// Reads up to `length` bytes of the data of `inode`, the first at
    /// `offset`.
    pub fn read_inode_data(&self, inode: &Inode, offset: u64, length: usize) -> (r: Result<
        Vec<u8>,
        Error,
    >)
        requires
            self.wf(),
        ensures
            outcome_view(r) == file_bytes(&self.volume, inode@, offset as int, length as int),
    {
        InodeReader::new(&self.volume, inode).read_data(offset, length)
    }

    /// Finds the physical block of logical block `logical_block` of
    /// `inode` through its block pointers; 0 stands for a hole.
    pub fn get_block_from_inode(&self, inode: &Inode, logical_block: u32) -> (r: Result<
        u64,
        Error,
    >)
        requires
            self.wf(),
        ensures
            match r {
                Ok(address) => resolved(&self.volume, inode.block@, logical_block as int) == Ok::<
                    int,
                    Failure,
                >(address as int),
                Err(e) => resolved(&self.volume, inode.block@, logical_block as int) == Err::<
                    int,
                    Failure,
                >(e@),
            },
    {
        resolve_logical(&self.volume, &inode.block, logical_block as u64)
    }

    /// Collects the extents of the tree rooted in an inode's block map.
    pub fn parse_extent_tree(&self, block_data: &[u32; 15]) -> (r: Result<Vec<Extent>, Error>)
        requires
            self.wf(),
        ensures
            outcome_view(r) == extent_list(&self.volume, block_bytes(block_data@)),
            r matches Ok(extents) ==> in_order(extents@),
    {
        let bytes = block_map_bytes(block_data);
        collect_extents(&self.volume, bytes.as_slice())
    }

    /// Collects the extents of the tree whose root node is `block_data`.
    pub fn parse_extent_tree_from_block(&self, block_data: &[u8]) -> (r: Result<
        Vec<Extent>,
        Error,
    >)
        requires
            self.wf(),
        ensures
            outcome_view(r) == extent_list(&self.volume, block_data@),
            r matches Ok(extents) ==> in_order(extents@),
    {
        collect_extents(&self.volume, block_data)
    }

    /// The `length` bytes from `offset` on of a block map as it is stored.
    pub fn u32_array_to_bytes(&self, data: &[u32; 15], offset: usize, length: usize) -> (r: Vec<
        u8,
    >)
        requires
            offset + length <= 60,
        ensures
            r@ == block_bytes(data@).subrange(offset as int, offset + length),
    {
        let bytes = block_map_bytes(data);
        slice_to_vec(slice_subrange(bytes.as_slice(), offset, offset + length))
    }

    /// Lists the directory `inode`.
    pub fn read_directory(&self, inode: &Inode) -> (r: Result<Vec<DirectoryEntry>, Error>)
        requires
            self.wf(),
        ensures
            match r {
                Ok(entries) => Directory::opened(&self.volume, inode@, Seq::empty()) == Ok::<
                    Seq<DirectoryEntryView>,
                    Failure,
                >(entry_views(entries@)) && all_name_inodes(entries@),
                Err(e) => Directory::opened(&self.volume, inode@, Seq::empty()) == Err::<
                    Seq<DirectoryEntryView>,
                    Failure,
                >(e@),
            },
    {
        if !inode.is_directory() {
            return Err(Error::NotADirectory(String::new()));
        }
        Directory::parse_entries(&self.volume, inode)
    }

    /// Finds the first entry of the directory `dir_inode` whose name is
    /// `name`.
    pub fn find_entry_in_directory(&self, dir_inode: &Inode, name: &str) -> (r: Result<
        Option<DirectoryEntry>,
        Error,
    >)
        requires
            self.wf(),
        ensures
            match r {
                Ok(found) => Directory::opened(&self.volume, dir_inode@, Seq::empty()) matches Ok(
                    entries,
                ) && (match found {
                    Some(entry) => position_of(entries, name@) matches Some(i) && 0 <= i
                        < entries.len() && entry@ == entries[i],
                    None => position_of(entries, name@) is None,
                }),
                Err(e) => Directory::opened(&self.volume, dir_inode@, Seq::empty()) == Err::<
                    Seq<DirectoryEntryView>,
                    Failure,
                >(e@),
            },
    {
        let mut entries = self.read_directory(dir_inode)?;
        match index_of(entries.as_slice(), name) {
            Some(i) => Ok(Some(entries.remove(i))),
            None => Ok(None),
        }
    }

    /// Looks up `path` and returns the inode that it names.
    pub fn lookup_path(&self, path: &str) -> (r: Result<Inode, Error>)
        requires
            self.wf(),
        ensures
            outcome_view(r) == self.volume.spec_lookup_inode(path@),
    {
        self.volume.lookup_path(path)
    }

    /// What reading the file that `path` names gives: all of its data, or
    /// the failure of a path that names no regular file.
    pub open spec fn spec_read_file(&self, path: Seq<char>) -> Result<Seq<u8>, Failure> {
        match self.volume.spec_lookup(path) {
            Err(f) => Err(f),
            Ok((inode, _)) => if !inode.is_regular_file() {
                Err(Failure::NotAFile(path))
            } else {
                whole_file(&self.volume, inode)
            },
        }
    }

    /// Reads all the data of the regular file that `path` names.
    pub fn read_file(&self, path: &str) -> (r: Result<Vec<u8>, Error>)
        requires
            self.wf(),
        ensures
            outcome_view(r) == self.spec_read_file(path@),
    {
        let (inode, _) = self.volume.lookup_path_with_normalized(path)?;
        if !inode.is_regular_file() {
            return Err(Error::NotAFile(path.to_owned()));
        }
        InodeReader::new(&self.volume, &inode).read_all()
    }

    /// What listing the directory that `path` names gives.
    pub open spec fn spec_list_directory(&self, path: Seq<char>) -> Result<
        Seq<DirectoryEntryView>,
        Failure,
    > {
        match self.volume.spec_lookup(path) {
            Err(f) => Err(f),
            Ok((inode, _)) => Directory::opened(&self.volume, inode, path),
        }
    }

    /// Lists the directory that `path` names.
    pub fn list_directory(&self, path: &str) -> (r: Result<Vec<DirectoryEntry>, Error>)
        requires
            self.wf(),
        ensures
            match r {
                Ok(entries) => self.spec_list_directory(path@) == Ok::<
                    Seq<DirectoryEntryView>,
                    Failure,
                >(entry_views(entries@)),
                Err(e) => self.spec_list_directory(path@) == Err::<
                    Seq<DirectoryEntryView>,
                    Failure,
                >(e@),
            },
    {
        let (inode, _) = self.volume.lookup_path_with_normalized(path)?;
        if !inode.is_directory() {
            return Err(Error::NotADirectory(path.to_owned()));
        }
        Directory::parse_entries(&self.volume, &inode)
    }

    /// What reading the target of the symbolic link `inode` gives.
    pub open spec fn spec_read_symlink(&self, inode: InodeView) -> Result<Seq<char>, Failure> {
        if !inode.is_symlink() {
            Err(not_a_symlink())
        } else {
            match whole_file(&self.volume, inode) {
                Err(f) => Err(f),
                Ok(bytes) => Ok(utf8_lossy(bytes)),
            }
        }
    }

    /// Reads the target of the symbolic link `inode` as text.
    pub fn read_symlink(&self, inode: &Inode) -> (r: Result<String, Error>)
        requires
            self.wf(),
        ensures
            outcome_view(r) == self.spec_read_symlink(inode@),
    {
        if !inode.is_symlink() {
            return Err(Error::InvalidPath { path: String::new(), reason: "not a symbolic link" });
        }
        let data = InodeReader::new(&self.volume, inode).read_all()?;
        Ok(lossy_text(data.as_slice()))
    }

    /// The size of the data of the inode that `path` names.
    pub fn file_size(&self, path: &str) -> (r: Result<u64, Error>)
        requires
            self.wf(),
        ensures
            match r {
                Ok(size) => self.volume.spec_lookup_inode(path@) matches Ok(inode) && size as int
                    == self.volume.superblock.spec_inode_size_file(inode),
                Err(e) => self.volume.spec_lookup_inode(path@) == Err::<InodeView, Failure>(e@),
            },
    {
        let inode = self.lookup_path(path)?;
        Ok(self.volume.superblock.inode_size_file(&inode))
    }

    /// Whether `path` names anything.
    pub fn path_exists(&self, path: &str) -> (r: bool)
        requires
            self.wf(),
        ensures
            r == self.volume.spec_lookup_inode(path@) is Ok,
    {
        self.lookup_path(path).is_ok()
    }

    /// Whether `path` names a directory.
    pub fn is_directory(&self, path: &str) -> (r: Result<bool, Error>)
        requires
            self.wf(),
        ensures
            match r {
                Ok(answer) => self.volume.spec_lookup_inode(path@) matches Ok(inode) && answer
                    == inode.is_directory(),
                Err(e) => self.volume.spec_lookup_inode(path@) == Err::<InodeView, Failure>(e@),
            },
    {
        let inode = self.lookup_path(path)?;
        Ok(inode.is_directory())
    }

    /// Whether `path` names a regular file.
    pub fn is_file(&self, path: &str) -> (r: Result<bool, Error>)
        requires
            self.wf(),
        ensures
            match r {
                Ok(answer) => self.volume.spec_lookup_inode(path@) matches Ok(inode) && answer
                    == inode.is_regular_file(),
                Err(e) => self.volume.spec_lookup_inode(path@) == Err::<InodeView, Failure>(e@),
            },
    {
        let inode = self.lookup_path(path)?;
        Ok(inode.is_regular_file())
    }

    /// Whether `path` names a symbolic link.
    pub fn is_symlink(&self, path: &str) -> (r: Result<bool, Error>)
        requires
            self.wf(),
        ensures
            match r {
                Ok(answer) => self.volume.spec_lookup_inode(path@) matches Ok(inode) && answer
                    == inode.is_symlink(),
                Err(e) => self.volume.spec_lookup_inode(path@) == Err::<InodeView, Failure>(e@),
            },
    {
        let inode = self.lookup_path(path)?;
        Ok(inode.is_symlink())
    }
}

} // verus!

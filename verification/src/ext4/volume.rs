//! The volume: an image held in memory, with its superblock decoded.

use crate::ext4::block::BlockGroupDescriptor;
use crate::ext4::directory::{position_of, Directory};
use crate::ext4::file::File;
use crate::ext4::inode::{Inode, InodeView};
use crate::ext4::inode_reader::{whole_file, InodeReader};
use crate::ext4::superblock::Superblock;
use crate::ext4::text::from_chars;
use crate::ext4::wire::table_offset;
use crate::ext4::xattr::{
    block_entries, parse_xattrs_from_block, views, XAttrEntry, XAttrEntryView,
};
use crate::ext4::DirectoryEntryView;
use crate::utils::{
    child_path, end_of_image, inode_zero_failure, normal_names, outcome, outcome_view, path_names,
    texts, Error, Failure,
};
use std::sync::Arc;
use vstd::prelude::*;
use vstd::slice::{slice_subrange, slice_to_vec};

verus! {

/// The `length` bytes of `image` from `start` on, if the image holds them all.
pub open spec fn range_of(image: Seq<u8>, start: int, length: int) -> Option<Seq<u8>> {
    if 0 <= start && 0 <= length && start + length <= image.len() {
        Some(image.subrange(start, start + length))
    } else {
        None
    }
}

/// The failure of a read that asked for an inode beyond the last one.
pub open spec fn inode_out_of_range(inode: u32) -> Failure {
    Failure::InvalidInode { inode, reason: "inode number exceeds the inode count"@ }
}

/// An ext4 file system: the image and the superblock decoded from it.
///
/// The image is shared, not copied, when a volume is cloned, so every reader
/// can have a volume of its own.
#[derive(Debug)]
pub struct Volume {
    pub image: Arc<Vec<u8>>,
    pub superblock: Arc<Superblock>,
    pub block_size: u32,
}

impl Clone for Volume {
    fn clone(&self) -> (r: Self)
        ensures
            r == *self,
    {
        Volume {
            image: Arc::clone(&self.image),
            superblock: Arc::clone(&self.superblock),
            block_size: self.block_size,
        }
    }
}

impl Volume {
    /// The smallest block size, at which the group descriptors start in the
    /// third block, not the second.
    pub const MIN_BLOCK_SIZE: u32 = 1024;

    /// Whether the block size is the one that the superblock declares.
    pub open spec fn wf(&self) -> bool {
        &&& self.superblock.wf()
        &&& self.block_size as int == self.superblock.spec_block_size()
        &&& 1024 <= self.block_size <= 65536
        &&& self.block_size % 1024 == 0
    }

    /// Why `image` cannot be mounted, if it cannot: it ends before the end
    /// of the superblock, or the superblock is not accepted.
    pub open spec fn rejection(image: Seq<u8>) -> Option<Failure> {
        match range_of(image, 1024, 1024) {
            None => Some(end_of_image()),
            Some(bytes) => Superblock::rejection(bytes),
        }
    }

    /// Mounts `image`: decodes the superblock stored at offset 1024.
    pub fn new(image: Vec<u8>) -> (r: Result<Self, Error>)
        ensures
            match r {
                Ok(volume) => Self::rejection(image@) is None && volume.wf() && volume.image@
                    == image@ && volume.superblock.decodes(image@.subrange(1024, 2048)),
                Err(e) => Self::rejection(image@) == Some(e@),
            },
    {
        if image.len() < 2048 {
            return Err(Error::unexpected_eof());
        }
        let superblock = Superblock::parse(slice_subrange(image.as_slice(), 1024, 2048))?;
        let block_size = superblock.block_size();
        Ok(Volume { image: Arc::new(image), superblock: Arc::new(superblock), block_size })
    }

    /// The volume label, if the superblock has one.
    pub fn name(&self) -> (r: Option<String>)
        ensures
            self.superblock.spec_volume_name().len() == 0 ==> r is None,
            self.superblock.spec_volume_name().len() != 0 ==> (r matches Some(label) && label@
                == self.superblock.spec_volume_name()),
    {
        let label = self.superblock.volume_name();
        if label.is_empty() {
            None
        } else {
            Some(label.to_owned())
        }
    }

    /// The superblock of the image.
    pub fn superblock(&self) -> (r: &Superblock)
        ensures
            *r == *self.superblock,
    {
        &self.superblock
    }

    /// The size of a block in bytes.
    pub fn block_size(&self) -> (r: u32)
        ensures
            r == self.block_size,
    {
        self.block_size
    }

    /// The bytes of the whole image.
    pub fn reader(&self) -> (r: &[u8])
        ensures
            r@ == self.image@,
    {
        self.image.as_slice()
    }

    /// Copies `length` bytes of the image, the first at `start`.
    pub(crate) fn fetch(&self, start: u128, length: usize) -> (r: Result<Vec<u8>, Error>)
        ensures
            outcome_view(r) == (match range_of(self.image@, start as int, length as int) {
                Some(bytes) => Ok::<Seq<u8>, Failure>(bytes),
                None => Err::<Seq<u8>, Failure>(end_of_image()),
            }),
    {
        let image = self.image.as_slice();
        let total = image.len();
        if start > total as u128 || length as u128 > total as u128 - start {
            return Err(Error::unexpected_eof());
        }
        let first = start as usize;
        Ok(slice_to_vec(slice_subrange(image, first, first + length)))
    }

    /// Copies `length` bytes of the image, the first at `offset`.
    pub fn read_at(&self, offset: u64, length: usize) -> (r: Result<Vec<u8>, Error>)
        ensures
            outcome_view(r) == (match range_of(self.image@, offset as int, length as int) {
                Some(bytes) => Ok::<Seq<u8>, Failure>(bytes),
                None => Err::<Seq<u8>, Failure>(end_of_image()),
            }),
    {
        self.fetch(offset as u128, length)
    }

    /// The bytes of block `block`, if the image holds the whole block.
    pub open spec fn spec_block(&self, block: int) -> Option<Seq<u8>> {
        range_of(self.image@, block * self.block_size, self.block_size as int)
    }

    /// What reading block `block` gives.
    pub open spec fn block_outcome(&self, block: int) -> Result<Seq<u8>, Failure> {
        match self.spec_block(block) {
            Some(bytes) => Ok(bytes),
            None => Err(end_of_image()),
        }
    }

    /// Reads one block of the image.
    pub fn read_block(&self, block_num: u64) -> (r: Result<Vec<u8>, Error>)
        requires
            self.wf(),
        ensures
            outcome_view(r) == self.block_outcome(block_num as int),
            r matches Ok(bytes) ==> bytes@.len() == self.block_size,
    {
        let start = self.block_start(block_num, 0);
        self.fetch(start, self.block_size as usize)
    }

    /// The position in the image of byte `within` of block `block`.
    pub(crate) fn block_start(&self, block: u64, within: u64) -> (r: u128)
        requires
            self.wf(),
        ensures
            r as int == block * self.block_size + within,
    {
        let size = self.block_size as u128;
        assert(block * self.block_size <= 0xFFFF_FFFF_FFFF_FFFF * 65536) by (nonlinear_arith)
            requires
                block <= 0xFFFF_FFFF_FFFF_FFFF,
                self.block_size <= 65536,
        ;
        (block as u128) * size + (within as u128)
    }

    /// The first block of the group descriptor table.
    pub open spec fn first_descriptor_block(&self) -> int {
        if self.block_size == 1024 {
            2
        } else {
            1
        }
    }

    /// What reading the descriptor of block group `index` gives.
    pub open spec fn spec_descriptor(&self, index: u32) -> Result<BlockGroupDescriptor, Failure> {
        let count = self.superblock.spec_block_group_count();
        let size = self.superblock.spec_descriptor_size();
        if index >= count {
            Err(Failure::InvalidBlockGroup { index, count })
        } else {
            match range_of(
                self.image@,
                self.first_descriptor_block() * self.block_size + index * size,
                size as int,
            ) {
                None => Err(end_of_image()),
                Some(bytes) => Ok(BlockGroupDescriptor::decoded(bytes)),
            }
        }
    }

    /// Reads the descriptor of block group `bg_index` from the table that
    /// follows the superblock.
    pub fn read_block_group_descriptor(&self, bg_index: u32) -> (r: Result<
        BlockGroupDescriptor,
        Error,
    >)
        requires
            self.wf(),
        ensures
            outcome(r) == self.spec_descriptor(bg_index),
    {
        let block_group_count = self.superblock.block_group_count();
        if bg_index >= block_group_count {
            return Err(Error::InvalidBlockGroup { index: bg_index, count: block_group_count });
        }
        let desc_size = self.superblock.descriptor_size();
        let first_block: u64 = if self.block_size == Self::MIN_BLOCK_SIZE {
            2
        } else {
            1
        };
        let within = table_offset(bg_index, desc_size);
        let start = self.block_start(first_block, within);
        let buffer = self.fetch(start, desc_size as usize)?;
        BlockGroupDescriptor::parse(buffer.as_slice())
    }

    /// What reading the record of inode `inode_num` gives: the bytes of its
    /// slot in the inode table of its block group.
    pub open spec fn spec_inode_record(&self, inode_num: u32) -> Result<Seq<u8>, Failure> {
        let per_group = self.superblock.inodes_per_group as int;
        let size = self.superblock.inode_size as int;
        if inode_num == 0 {
            Err(inode_zero_failure())
        } else if inode_num > self.superblock.inodes_count {
            Err(inode_out_of_range(inode_num))
        } else {
            match self.spec_descriptor(((inode_num - 1) / per_group) as u32) {
                Err(f) => Err(f),
                Ok(descriptor) => match range_of(
                    self.image@,
                    descriptor.spec_inode_table_first_block() * self.block_size + ((inode_num - 1)
                        % per_group) * size,
                    size,
                ) {
                    None => Err(end_of_image()),
                    Some(bytes) => Ok(bytes),
                },
            }
        }
    }

    /// What reading inode `inode_num` gives.
    pub open spec fn spec_inode(&self, inode_num: u32) -> Result<InodeView, Failure> {
        match self.spec_inode_record(inode_num) {
            Err(f) => Err(f),
            Ok(bytes) => match Inode::rejection(bytes) {
                Some(f) => Err(f),
                None => Ok(Inode::decoded(bytes)),
            },
        }
    }

    /// The attributes of `inode`: those kept in the inode, followed by
    /// those of its attribute block. An attribute block that is missing
    /// from the image or cannot be decoded counts as holding none.
    pub open spec fn spec_xattrs(&self, inode: InodeView) -> Seq<XAttrEntryView> {
        if inode.xattr_block() == 0 {
            inode.inline_xattrs
        } else {
            match self.block_outcome(inode.xattr_block()) {
                Err(_) => inode.inline_xattrs,
                Ok(block) => match block_entries(block) {
                    Err(_) => inode.inline_xattrs,
                    Ok(more) => inode.inline_xattrs + more,
                },
            }
        }
    }

    /// Reads the extended attributes of `inode`. This does not fail: an
    /// attribute block that is missing from the image or cannot be decoded
    /// counts as holding none.
    pub fn read_xattrs(&self, inode: &Inode) -> (r: Result<Vec<XAttrEntry>, Error>)
        requires
            self.wf(),
        ensures
            r matches Ok(found) && views(found@) == self.spec_xattrs(inode@),
    {
        let inline = inode.xattrs();
        let mut xattrs: Vec<XAttrEntry> = Vec::new();
        let mut i: usize = 0;
        assert(views(xattrs@) =~= views(inline@).take(0));
        while i < inline.len()
            invariant
                i <= inline@.len(),
                views(xattrs@) == views(inline@).take(i as int),
            decreases inline@.len() - i,
        {
            let copy = inline[i].clone();
            let ghost before = xattrs@;
            xattrs.push(copy);
            assert(views(xattrs@) =~= views(before).push(copy@));
            assert(views(inline@).take(i + 1) =~= views(inline@).take(i as int).push(
                inline@[i as int]@,
            ));
            i += 1;
        }
        assert(views(inline@).take(inline@.len() as int) =~= views(inline@));
        if let Some(xattr_block) = inode.xattr_block_number() {
            match self.read_block(xattr_block) {
                Ok(block_data) => match parse_xattrs_from_block(block_data.as_slice()) {
                    Ok(mut block_xattrs) => {
                        let ghost first = xattrs@;
                        let ghost second = block_xattrs@;
                        xattrs.append(&mut block_xattrs);
                        assert(views(xattrs@) =~= views(first) + views(second));
                    },
                    Err(_) => {},
                },
                Err(_) => {},
            }
        }
        Ok(xattrs)
    }

    /// Reads all the data of `inode`.
    pub fn read_inode_data(&self, inode: &Inode) -> (r: Result<Vec<u8>, Error>)
        requires
            self.wf(),
        ensures
            outcome_view(r) == whole_file(self, inode@),
    {
        InodeReader::new(self, inode).read_all()
    }

    /// Reads an inode by its number. Inodes are numbered from 1.
    pub fn read_inode(&self, inode_num: u32) -> (r: Result<Inode, Error>)
        requires
            self.wf(),
        ensures
            outcome_view(r) == self.spec_inode(inode_num),
    {
        if inode_num == 0 {
            return Err(Error::inode_zero());
        }
        if inode_num > self.superblock.inodes_count {
            return Err(
                Error::InvalidInode {
                    inode: inode_num,
                    reason: "inode number exceeds the inode count",
                },
            );
        }
        let inodes_per_group = self.superblock.inodes_per_group();
        let inode_size = self.superblock.inode_size;
        let bg_index = (inode_num - 1) / inodes_per_group;
        let inode_index = (inode_num - 1) % inodes_per_group;
        let descriptor = self.read_block_group_descriptor(bg_index)?;
        let inode_table_block = descriptor.inode_table_first_block();
        let within = table_offset(inode_index, inode_size);
        let start = self.block_start(inode_table_block, within);
        let buffer = self.fetch(start, inode_size as usize)?;
        Inode::parse(buffer.as_slice())
    }

    /// Where following `names` from index `i` on leads, starting at the
    /// directory `current`, which was reached by `current_path`: each name
    /// is looked up in the directory reached so far. `asked` is the path
    /// that was asked for.
    pub open spec fn followed(
        &self,
        names: Seq<Seq<char>>,
        i: int,
        current: InodeView,
        current_path: Seq<char>,
        asked: Seq<char>,
    ) -> Result<(InodeView, Seq<char>), Failure>
        decreases names.len() - i,
    {
        if i < 0 || i >= names.len() {
            Ok((current, current_path))
        } else {
            match Directory::opened(self, current, current_path) {
                Err(f) => Err(f),
                Ok(entries) => match position_of(entries, names[i]) {
                    None => Err(Failure::PathNotFound { path: asked, component: names[i] }),
                    Some(k) => match self.spec_inode(entries[k].inode) {
                        Err(f) => Err(f),
                        Ok(next) => self.followed(
                            names,
                            i + 1,
                            next,
                            child_path(current_path, names[i]),
                            asked,
                        ),
                    },
                },
            }
        }
    }

    /// What looking up `path` gives: the inode that the path names and the
    /// path from the root that leads to it. The path is normalized and then
    /// followed from the root directory, whether or not it starts there.
    pub open spec fn spec_lookup(&self, path: Seq<char>) -> Result<(InodeView, Seq<char>), Failure> {
        match normal_names(path) {
            Err(reason) => Err(Failure::InvalidPath { path, reason }),
            Ok(names) => match self.spec_inode(2) {
                Err(f) => Err(f),
                Ok(root) => self.followed(names, 0, root, seq!['/'], path),
            },
        }
    }

    /// Looks up `path` and returns its inode with the path from the root
    /// that leads to it.
    pub fn lookup_path_with_normalized(&self, path: &str) -> (r: Result<(Inode, String), Error>)
        requires
            self.wf(),
        ensures
            match r {
                Ok((inode, normal)) => self.spec_lookup(path@) == Ok::<
                    (InodeView, Seq<char>),
                    Failure,
                >((inode@, normal@)),
                Err(e) => self.spec_lookup(path@) == Err::<(InodeView, Seq<char>), Failure>(e@),
            },
    {
        let (_, names) = path_names(path)?;
        let mut current_inode = self.read_inode(Inode::ROOT_INODE)?;
        let mut current_path = String::new();
        current_path.push('/');
        assert(current_path@ =~= seq!['/']);
        let ghost root = current_inode@;
        let mut i: usize = 0;
        while i < names.len()
            invariant
                self.wf(),
                i <= names@.len(),
                self.spec_lookup(path@) == self.followed(
                    texts(names@),
                    i as int,
                    current_inode@,
                    current_path@,
                    path@,
                ),
            decreases names@.len() - i,
        {
            let component = from_chars(names[i].as_slice());
            assert(texts(names@)[i as int] == component@);
            let ghost before = current_inode@;
            let directory = Directory::new(self, current_inode, current_path.clone())?;
            let next = match directory.find(component.as_str()) {
                Some(entry) => entry.inode,
                None => {
                    return Err(Error::PathNotFound { path: path.to_owned(), component });
                },
            };
            current_inode = self.read_inode(next)?;
            current_path = crate::utils::join_path(current_path.as_str(), component.as_str());
            i += 1;
        }
        Ok((current_inode, current_path))
    }

    /// What looking up `path` gives, without the path that leads to it.
    pub open spec fn spec_lookup_inode(&self, path: Seq<char>) -> Result<InodeView, Failure> {
        match self.spec_lookup(path) {
            Err(f) => Err(f),
            Ok((inode, _)) => Ok(inode),
        }
    }

    /// Looks up `path` and returns the inode that it names.
    pub fn lookup_path(&self, path: &str) -> (r: Result<Inode, Error>)
        requires
            self.wf(),
        ensures
            outcome_view(r) == self.spec_lookup_inode(path@),
    {
        match self.lookup_path_with_normalized(path) {
            Ok((inode, _)) => Ok(inode),
            Err(e) => Err(e),
        }
    }

    /// Opens the regular file or symbolic link that `path` names.
    pub fn open_file(&self, path: &str) -> (r: Result<File, Error>)
        requires
            self.wf(),
        ensures
            match r {
                Ok(file) => self.spec_lookup(path@) matches Ok((inode, normal)) && File::refusal(
                    inode,
                    normal,
                ) is None && file.inode@ == inode && file.path@ == normal && file.position == 0
                    && file.volume == *self,
                Err(e) => match self.spec_lookup(path@) {
                    Err(f) => e@ == f,
                    Ok((inode, normal)) => File::refusal(inode, normal) == Some(e@),
                },
            },
    {
        let (inode, normalized_path) = self.lookup_path_with_normalized(path)?;
        File::new(self, inode, normalized_path)
    }

    /// Opens the directory that `path` names.
    pub fn open_dir(&self, path: &str) -> (r: Result<Directory, Error>)
        requires
            self.wf(),
        ensures
            match r {
                Ok(directory) => self.spec_lookup(path@) matches Ok((inode, normal))
                    && Directory::opened(self, inode, normal) == Ok::<
                    Seq<DirectoryEntryView>,
                    Failure,
                >(crate::ext4::entry_views(directory.entries@)) && directory.inode@ == inode
                    && directory.path@ == normal && directory.volume == *self,
                Err(e) => match self.spec_lookup(path@) {
                    Err(f) => e@ == f,
                    Ok((inode, normal)) => Directory::opened(self, inode, normal) == Err::<
                        Seq<DirectoryEntryView>,
                        Failure,
                    >(e@),
                },
            },
    {
        let (inode, normalized_path) = self.lookup_path_with_normalized(path)?;
        Directory::new(self, inode, normalized_path)
    }
}

} // verus!

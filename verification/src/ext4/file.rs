//! Files: a regular file or symbolic link opened for reading.

use crate::ext4::inode::{Inode, InodeView};
use crate::ext4::inode_reader::{file_bytes, whole_file, InodeReader};
use crate::ext4::volume::Volume;
use crate::utils::{outcome_view, Error, Failure, IoFailure};
use vstd::prelude::*;

verus! {

/// Where a seek counts from.
#[derive(Debug, Clone, Copy, PartialEq, Eq, Structural)]
pub enum SeekFrom {
    /// From the start of the file.
    Start(u64),
    /// From the end of the file.
    End(i64),
    /// From the current position.
    Current(i64),
}

/// The failure of a seek to a position that no file has.
pub open spec fn invalid_seek() -> Failure {
    Failure::Io(IoFailure::InvalidSeek)
}

/// A regular file or symbolic link of the volume, with a position in it.
#[derive(Debug)]
pub struct File {
    pub volume: Volume,
    pub inode: Inode,
    pub position: u64,
    pub path: String,
}

impl File {
    /// Why `inode` cannot be opened as a file, if it cannot: it is neither
    /// a regular file nor a symbolic link.
    pub open spec fn refusal(inode: InodeView, path: Seq<char>) -> Option<Failure> {
        if !inode.is_regular_file() && !inode.is_symlink() {
            Some(Failure::NotAFile(path))
        } else {
            None
        }
    }

    /// Opens the file that `inode` describes. `path` is the path by which
    /// the file was reached.
    pub fn new(volume: &Volume, inode: Inode, path: String) -> (r: Result<Self, Error>)
        ensures
            match r {
                Ok(file) => Self::refusal(inode@, path@) is None && file.volume == *volume
                    && file.inode == inode && file.path == path && file.position == 0,
                Err(e) => Self::refusal(inode@, path@) == Some(e@),
            },
    {
        if !inode.is_regular_file() && !inode.is_symlink() {
            return Err(Error::NotAFile(path));
        }
        Ok(File { volume: volume.clone(), inode, position: 0, path })
    }

    pub open spec fn spec_size(&self) -> int {
        self.volume.superblock.spec_inode_size_file(self.inode@)
    }

    /// The size of the file in bytes.
    pub fn size(&self) -> (r: u64)
        ensures
            r as int == self.spec_size(),
    {
        self.volume.superblock.inode_size_file(&self.inode)
    }

    /// The position at which the next read starts.
    pub fn position(&self) -> (r: u64)
        ensures
            r == self.position,
    {
        self.position
    }

    /// The inode of the file.
    pub fn inode(&self) -> (r: &Inode)
        ensures
            *r == self.inode,
    {
        &self.inode
    }

    /// Whether the file is a symbolic link.
    pub fn is_symlink(&self) -> (r: bool)
        ensures
            r == self.inode@.is_symlink(),
    {
        self.inode.is_symlink()
    }

    /// The path by which the file was reached.
    pub fn path(&self) -> (r: &str)
        ensures
            r@ == self.path@,
    {
        self.path.as_str()
    }

    /// Reads the whole file and moves the position to its start.
    pub fn read_all(&mut self) -> (r: Result<Vec<u8>, Error>)
        requires
            old(self).volume.wf(),
        ensures
            outcome_view(r) == whole_file(&old(self).volume, old(self).inode@),
            *final(self) == (File { position: 0, ..*old(self) }),
    {
        self.position = 0;
        InodeReader::new(&self.volume, &self.inode).read_all()
    }

    /// Reads up to `length` bytes at the position and moves the position
    /// past them. At or after the end of the file nothing is read.
    pub fn read(&mut self, length: usize) -> (r: Result<Vec<u8>, Error>)
        requires
            old(self).volume.wf(),
        ensures
            final(self).volume == old(self).volume,
            final(self).inode == old(self).inode,
            final(self).path == old(self).path,
            old(self).position >= old(self).spec_size() ==> (r matches Ok(bytes) && bytes@.len()
                == 0 && final(self).position == old(self).position),
            old(self).position < old(self).spec_size() ==> outcome_view(r) == file_bytes(
                &old(self).volume,
                old(self).inode@,
                old(self).position as int,
                length as int,
            ),
            r matches Ok(bytes) ==> final(self).position == old(self).position + bytes@.len(),
            r is Err ==> final(self).position == old(self).position,
    {
        let size = self.size();
        if self.position >= size {
            return Ok(Vec::new());
        }
        let data = InodeReader::new(&self.volume, &self.inode).read_data(self.position, length)?;
        self.position = self.position + data.len() as u64;
        Ok(data)
    }

    /// Where a seek leads: the offset counted from the start, the end or
    /// the current position.
    pub open spec fn target(&self, pos: SeekFrom) -> int {
        match pos {
            SeekFrom::Start(offset) => offset as int,
            SeekFrom::End(offset) => self.spec_size() + offset,
            SeekFrom::Current(offset) => self.position + offset,
        }
    }

    /// Moves the position. A position before the start of the file, or one
    /// too large to be held, is refused and the position stays.
    pub fn seek(&mut self, pos: SeekFrom) -> (r: Result<u64, Error>)
        ensures
            final(self).volume == old(self).volume,
            final(self).inode == old(self).inode,
            final(self).path == old(self).path,
            0 <= old(self).target(pos) <= u64::MAX ==> r == Ok::<u64, Error>(
                old(self).target(pos) as u64,
            ) && final(self).position == old(self).target(pos),
            !(0 <= old(self).target(pos) <= u64::MAX) ==> (r matches Err(e) && e@
                == invalid_seek()) && final(self).position == old(self).position,
    {
        let new_pos: i128 = match pos {
            SeekFrom::Start(offset) => offset as i128,
            SeekFrom::End(offset) => self.size() as i128 + offset as i128,
            SeekFrom::Current(offset) => self.position as i128 + offset as i128,
        };
        if new_pos < 0 || new_pos > u64::MAX as i128 {
            return Err(Error::Io(IoFailure::InvalidSeek));
        }
        self.position = new_pos as u64;
        Ok(self.position)
    }
}

} // verus!

//! A read-only decoder for raw ext4 images as shipped in Android partitions.
//!
//! The image is given as bytes. [`Volume`] decodes its superblock and reads
//! blocks, group descriptors and inodes out of it; the data of an inode is
//! read through its extent tree or its block pointers; directories are
//! decoded into entries, paths are looked up from the root, and a
//! [`DirectoryWalker`] visits every entry below a directory with the owner,
//! mode, SELinux label and capabilities that Android keeps for it. The
//! module [`sidecar`] writes the lines of `fs_config` and `file_contexts`
//! from what the walker found.
//!
//! Every function states in its contract what it returns, over the bytes of
//! the image, and is verified against it. Nothing here touches the host:
//! reading the image from a file and writing what was extracted is left to
//! the caller.

pub mod ext4;
pub mod extract;
pub mod sidecar;
pub mod utils;

pub use ext4::directory::Directory;
pub use ext4::file::File;
pub use ext4::inode::FileType;
pub use ext4::volume::Volume;
pub use ext4::walker::{DirectoryWalker, EntryAttributes, WalkItem};
pub use utils::{Error, ParseContext};

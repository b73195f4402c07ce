//! What an extraction does with each entry, and where it puts the result.
//! The work on the host is the caller's; the decisions are made here.

use crate::ext4::inode::FileType;
use crate::ext4::text::push_text;
use vstd::prelude::*;

verus! {

/// What is written to the host for an entry.
#[derive(Debug, Clone, Copy, PartialEq, Eq, Structural)]
pub enum Payload {
    /// The data of the file is copied out.
    Data,
    /// A symbolic link to the target that the link holds is made.
    Link,
    /// The directory is made.
    Directory,
    /// Nothing is written; the entry is recorded in the lists alone.
    Nothing,
}

/// What is written for an entry of kind `kind`: devices, pipes and sockets
/// have nothing to write.
pub open spec fn payload_of(kind: FileType) -> Payload {
    match kind {
        FileType::RegularFile => Payload::Data,
        FileType::SymbolicLink => Payload::Link,
        FileType::Directory => Payload::Directory,
        _ => Payload::Nothing,
    }
}

/// Decides what to write for an entry of kind `kind`.
pub fn payload_for(kind: FileType) -> (r: Payload)
    ensures
        r == payload_of(kind),
{
    match kind {
        FileType::RegularFile => Payload::Data,
        FileType::SymbolicLink => Payload::Link,
        FileType::Directory => Payload::Directory,
        _ => Payload::Nothing,
    }
}

/// The name under which a volume is extracted: its label if it has one,
/// else the name of the image without its extension, else `unknown`.
pub open spec fn mount_name_of(label: Option<Seq<char>>, image_stem: Option<Seq<char>>) -> Seq<
    char,
> {
    match label {
        Some(name) => name,
        None => match image_stem {
            Some(stem) => stem,
            None => "unknown"@,
        },
    }
}

/// Chooses the name under which a volume is extracted.
pub fn mount_name(label: Option<String>, image_stem: Option<&str>) -> (r: String)
    ensures
        r@ == mount_name_of(
            match label {
                Some(name) => Some(name@),
                None => None,
            },
            match image_stem {
                Some(stem) => Some(stem@),
                None => None,
            },
        ),
{
    match label {
        Some(name) => name,
        None => {
            let mut name = String::new();
            match image_stem {
                Some(stem) => {
                    push_text(&mut name, stem);
                    assert(name@ =~= stem@);
                },
                None => {
                    push_text(&mut name, "unknown");
                    assert(name@ =~= "unknown"@);
                },
            }
            name
        },
    }
}

/// The name of the list of owners and modes for the volume `mount_name`.
pub open spec fn fs_config_name(mount_name: Seq<char>) -> Seq<char> {
    mount_name + "_fs_config"@
}

/// The name of the list of labels for the volume `mount_name`.
pub open spec fn file_contexts_name(mount_name: Seq<char>) -> Seq<char> {
    mount_name + "_file_contexts"@
}

/// The names of the two lists for the volume `mount_name`, the list of
/// owners and modes first. Both stand in the directory `config` of the
/// output.
pub fn list_names(mount_name: &str) -> (r: (String, String))
    ensures
        r.0@ == fs_config_name(mount_name@),
        r.1@ == file_contexts_name(mount_name@),
{
    let mut config = String::new();
    push_text(&mut config, mount_name);
    push_text(&mut config, "_fs_config");
    assert(config@ =~= fs_config_name(mount_name@));
    let mut contexts = String::new();
    push_text(&mut contexts, mount_name);
    push_text(&mut contexts, "_file_contexts");
    assert(contexts@ =~= file_contexts_name(mount_name@));
    (config, contexts)
}

} // verus!

//! Directories: decoding the records that a directory's data holds.

use crate::ext4::inode::{Inode, InodeView};
use crate::ext4::inode_reader::{whole_file, InodeReader};
use crate::ext4::text::same_text;
use crate::ext4::volume::Volume;
use crate::ext4::wire::{le16, le32, u16_at, u32_at};
use crate::ext4::{entry_views, DirectoryEntry, DirectoryEntryView};
use crate::utils::{Error, Failure, ParseContext};
use vstd::prelude::*;
use vstd::array::ArrayAdditionalExecFns;
use vstd::utf8::{
    decode_utf8_encode_utf8, encode_utf8, encode_utf8_decode_utf8, encode_utf8_valid_utf8,
    valid_utf8,
};

verus! {

/// The bytes that hold the name of the entry whose record starts at
/// `offset`: the name, which follows the eight bytes of the record's fixed
/// part, and zeros after it. A name that reaches beyond the end of the
/// data is not read: all the bytes are zero.
pub open spec fn name_at(data: Seq<u8>, offset: int) -> Seq<u8> {
    Seq::new(
        255,
        |i: int|
            if i < data[offset + 6] && offset + 8 + data[offset + 6] <= data.len() {
                data[offset + 8 + i]
            } else {
                0u8
            },
    )
}

/// The entry whose record starts at `offset`.
pub open spec fn entry_at(data: Seq<u8>, offset: int) -> DirectoryEntryView {
    DirectoryEntryView {
        inode: le32(data, offset) as u32,
        entry_len: le16(data, offset + 4) as u16,
        name_len: data[offset + 6],
        inode_type: data[offset + 7],
        name: name_at(data, offset),
    }
}

/// The name of a decoded entry is the bytes that follow the fixed part of
/// its record, as many as the record says, where the data holds them all.
pub proof fn lemma_name_of_entry(data: Seq<u8>, offset: int)
    requires
        0 <= offset,
        offset + 8 + data[offset + 6] <= data.len(),
    ensures
        entry_at(data, offset).name_bytes() == data.subrange(
            offset + 8,
            offset + 8 + data[offset + 6],
        ),
{
    assert(entry_at(data, offset).name_bytes() =~= data.subrange(
        offset + 8,
        offset + 8 + data[offset + 6],
    ));
}

/// The entries whose records start at `offset` and follow one another, each
/// at the distance that the one before it declares. The list ends where no
/// record header fits, or at a record that declares no length or more than
/// is left. Records with inode 0 are erased: they are passed over.
pub open spec fn decoded_entries(data: Seq<u8>, offset: int) -> Seq<DirectoryEntryView>
    decreases data.len() - offset,
{
    if offset < 0 || offset + 8 > data.len() {
        Seq::empty()
    } else {
        let rec_len = le16(data, offset + 4);
        if rec_len <= 0 || rec_len > data.len() - offset {
            Seq::empty()
        } else if le32(data, offset) == 0 {
            decoded_entries(data, offset + rec_len)
        } else {
            seq![entry_at(data, offset)] + decoded_entries(data, offset + rec_len)
        }
    }
}

/// What listing the directory `inode` gives: the entries decoded from all
/// of its data.
pub open spec fn directory_entries(volume: &Volume, inode: InodeView) -> Result<
    Seq<DirectoryEntryView>,
    Failure,
> {
    match whole_file(volume, inode) {
        Err(f) => Err(f),
        Ok(data) => Ok(decoded_entries(data, 0)),
    }
}

/// The index of the first of `entries` whose name is `name`.
pub open spec fn position_of(entries: Seq<DirectoryEntryView>, name: Seq<char>) -> Option<int>
    decreases entries.len(),
{
    if entries.len() == 0 {
        None
    } else if entries[0].name_text() == name {
        Some(0)
    } else {
        match position_of(entries.drop_first(), name) {
            Some(i) => Some(i + 1),
            None => None,
        }
    }
}

/// A name that is not empty is the name of an entry exactly when its bytes
/// in UTF-8 are the bytes of the entry's name.
pub proof fn lemma_names_are_compared_by_their_bytes(entry: DirectoryEntryView, name: Seq<char>)
    requires
        name.len() > 0,
    ensures
        entry.name_text() == name <==> entry.name_bytes() == encode_utf8(name),
{
    encode_utf8_valid_utf8(name);
    encode_utf8_decode_utf8(name);
    if valid_utf8(entry.name_bytes()) {
        decode_utf8_encode_utf8(entry.name_bytes());
    }
}

/// No decoded entry is an erased record: every one names an inode.
pub proof fn lemma_decoded_entries_name_inodes(data: Seq<u8>, offset: int, i: int)
    requires
        0 <= i < decoded_entries(data, offset).len(),
    ensures
        decoded_entries(data, offset)[i].inode != 0,
    decreases data.len() - offset,
{
    if !(offset < 0 || offset + 8 > data.len()) {
        let rec_len = le16(data, offset + 4);
        if !(rec_len <= 0 || rec_len > data.len() - offset) {
            if le32(data, offset) == 0 {
                lemma_decoded_entries_name_inodes(data, offset + rec_len, i);
            } else if i > 0 {
                lemma_decoded_entries_name_inodes(data, offset + rec_len, i - 1);
            }
        }
    }
}

/// Whether every one of `entries` names an inode: none is an erased
/// record.
pub open spec fn all_name_inodes(entries: Seq<DirectoryEntry>) -> bool {
    forall|i: int| 0 <= i < entries.len() ==> (#[trigger] entries[i]).inode != 0
}

/// Entries whose views were decoded from data all name inodes.
pub proof fn lemma_decoded_name_inodes(data: Seq<u8>, entries: Seq<DirectoryEntry>)
    requires
        decoded_entries(data, 0) == entry_views(entries),
    ensures
        all_name_inodes(entries),
{
    assert forall|i: int| 0 <= i < entries.len() implies (#[trigger] entries[i]).inode != 0 by {
        assert(entry_views(entries)[i] == entries[i]@);
        lemma_decoded_entries_name_inodes(data, 0, i);
    }
}

/// Listing a directory twice gives the same entries, field by field, as
/// long as the image is the same; and no entry listed is an erased record.
pub proof fn lemma_listing_is_repeatable(
    volume: &Volume,
    inode: InodeView,
    path: Seq<char>,
    first: Seq<DirectoryEntry>,
    second: Seq<DirectoryEntry>,
)
    requires
        Directory::opened(volume, inode, path) == Ok::<Seq<DirectoryEntryView>, Failure>(
            entry_views(first),
        ),
        Directory::opened(volume, inode, path) == Ok::<Seq<DirectoryEntryView>, Failure>(
            entry_views(second),
        ),
    ensures
        first.len() == second.len(),
        forall|i: int|
            0 <= i < first.len() ==> {
                &&& (#[trigger] first[i]).inode == second[i].inode
                &&& first[i].entry_len == second[i].entry_len
                &&& first[i].name_len == second[i].name_len
                &&& first[i].inode_type == second[i].inode_type
                &&& first[i].name@ == second[i].name@
                &&& first[i].inode != 0
            },
{
    assert(entry_views(first).len() == first.len());
    assert(entry_views(second).len() == second.len());
    let data = whole_file(volume, inode)->Ok_0;
    lemma_decoded_name_inodes(data, first);
    assert forall|i: int| 0 <= i < first.len() implies {
        &&& (#[trigger] first[i]).inode == second[i].inode
        &&& first[i].entry_len == second[i].entry_len
        &&& first[i].name_len == second[i].name_len
        &&& first[i].inode_type == second[i].inode_type
        &&& first[i].name@ == second[i].name@
        &&& first[i].inode != 0
    } by {
        assert(entry_views(first)[i] == first[i]@);
        assert(entry_views(second)[i] == second[i]@);
    }
}

/// Decoding the same bytes twice gives the same entries.
pub proof fn lemma_decoding_is_idempotent(
    data: Seq<u8>,
    first: Seq<DirectoryEntryView>,
    second: Seq<DirectoryEntryView>,
)
    requires
        first == decoded_entries(data, 0),
        second == decoded_entries(data, 0),
    ensures
        first == second,
{
}

/// Copies the name of the record that starts at `offset` into the bytes
/// that hold an entry's name. A name that reaches beyond the end of the
/// data is not copied.
fn copy_name(data: &[u8], offset: usize) -> (name: [u8; 255])
    requires
        offset + 8 <= data@.len(),
    ensures
        name@ == name_at(data@, offset as int),
{
    let mut name = [0u8; 255];
    let total = data.len();
    let start = offset + DirectoryEntry::HEADER_SIZE;
    let length = data[offset + 6] as usize;
    if length <= total - start {
        let mut i: usize = 0;
        while i < length
            invariant
                i <= length <= 255,
                start + length <= data@.len() == total,
                forall|k: int| 0 <= k < i ==> name@[k] == data@[start + k],
                forall|k: int| i <= k < 255 ==> name@[k] == 0,
            decreases length - i,
        {
            name.set(i, data[start + i]);
            i += 1;
        }
    }
    assert(name@ =~= name_at(data@, offset as int));
    name
}

/// Decodes the records of a directory from its data.
pub fn decode_entries(data: &[u8]) -> (entries: Vec<DirectoryEntry>)
    ensures
        entry_views(entries@) == decoded_entries(data@, 0),
        all_name_inodes(entries@),
{
    let entries = decode_records(data);
    proof {
        lemma_decoded_name_inodes(data@, entries@);
    }
    entries
}

/// Decodes the records of a directory, one after the other.
fn decode_records(data: &[u8]) -> (entries: Vec<DirectoryEntry>)
    ensures
        entry_views(entries@) == decoded_entries(data@, 0),
{
    let mut entries: Vec<DirectoryEntry> = Vec::new();
    let mut offset: usize = 0;
    let length = data.len();
    let ghost whole = decoded_entries(data@, 0);
    proof {
        assert(entry_views(entries@) =~= Seq::<DirectoryEntryView>::empty());
        assert(Seq::<DirectoryEntryView>::empty() + whole =~= whole);
    }
    while offset < length
        invariant
            length == data@.len(),
            offset <= length,
            whole == decoded_entries(data@, 0),
            whole == entry_views(entries@) + decoded_entries(data@, offset as int),
        decreases length - offset,
    {
        if length - offset < DirectoryEntry::HEADER_SIZE {
            assert(entry_views(entries@) + Seq::<DirectoryEntryView>::empty() =~= entry_views(
                entries@,
            ));
            return entries;
        }
        let inode_num = match u32_at(data, offset, ParseContext::Inode) {
            Ok(value) => value,
            Err(_) => {
                return entries;
            },
        };
        let entry_len = match u16_at(data, offset + 4, ParseContext::Inode) {
            Ok(value) => value,
            Err(_) => {
                return entries;
            },
        };
        if entry_len == 0 || entry_len as usize > length - offset {
            assert(entry_views(entries@) + Seq::<DirectoryEntryView>::empty() =~= entry_views(
                entries@,
            ));
            return entries;
        }
        if inode_num != 0 {
            let name_len = data[offset + 6];
            let inode_type = data[offset + 7];
            let name = copy_name(data, offset);
            let entry = DirectoryEntry { inode: inode_num, entry_len, name_len, inode_type, name };
            let ghost before = entries@;
            entries.push(entry);
            proof {
                let this = entry_at(data@, offset as int);
                assert(entry@ == this);
                assert(entry_views(entries@) =~= entry_views(before).push(this));
                let more = decoded_entries(data@, offset + entry_len);
                assert(entry_views(before) + (seq![this] + more) =~= entry_views(entries@) + more);
            }
        }
        offset += entry_len as usize;
    }
    assert(entry_views(entries@) + Seq::<DirectoryEntryView>::empty() =~= entry_views(entries@));
    entries
}

/// A directory of the volume, with its entries decoded.
#[derive(Debug)]
pub struct Directory {
    pub volume: Volume,
    pub path: String,
    pub inode: Inode,
    pub entries: Vec<DirectoryEntry>,
}

impl Directory {
    /// What opening the directory `inode` gives: its entries, or the
    /// failure of an inode that is no directory or cannot be listed.
    pub open spec fn opened(volume: &Volume, inode: InodeView, path: Seq<char>) -> Result<
        Seq<DirectoryEntryView>,
        Failure,
    > {
        if !inode.is_directory() {
            Err(Failure::NotADirectory(path))
        } else {
            directory_entries(volume, inode)
        }
    }

    /// Opens the directory that `inode` describes. `path` is the path by
    /// which the directory was reached.
    pub fn new(volume: &Volume, inode: Inode, path: String) -> (r: Result<Self, Error>)
        requires
            volume.wf(),
        ensures
            match r {
                Ok(directory) => Self::opened(volume, inode@, path@) == Ok::<
                    Seq<DirectoryEntryView>,
                    Failure,
                >(entry_views(directory.entries@)) && all_name_inodes(directory.entries@)
                    && directory.volume == *volume && directory.inode == inode
                    && directory.path == path,
                Err(e) => Self::opened(volume, inode@, path@) == Err::<
                    Seq<DirectoryEntryView>,
                    Failure,
                >(e@),
            },
    {
        if !inode.is_directory() {
            return Err(Error::NotADirectory(path));
        }
        let entries = Self::parse_entries(volume, &inode)?;
        Ok(Directory { volume: volume.clone(), path, inode, entries })
    }

    /// The inode of the directory.
    pub fn inode(&self) -> (r: &Inode)
        ensures
            *r == self.inode,
    {
        &self.inode
    }

    /// The path by which the directory was reached.
    pub fn path(&self) -> (r: &str)
        ensures
            r@ == self.path@,
    {
        self.path.as_str()
    }

    /// The entries of the directory, in the order in which they are stored.
    pub fn entries(&self) -> (r: &[DirectoryEntry])
        ensures
            r@ == self.entries@,
    {
        self.entries.as_slice()
    }

    /// The entries of the directory, for the caller to change.
    pub fn entries_mut(&mut self) -> (r: &mut Vec<DirectoryEntry>)
        ensures
            *r == old(self).entries,
            *final(self) == (Directory { entries: *final(r), ..*old(self) }),
    {
        &mut self.entries
    }

    /// Reads the data of the directory `inode` and decodes its records.
    pub fn parse_entries(volume: &Volume, inode: &Inode) -> (r: Result<
        Vec<DirectoryEntry>,
        Error,
    >)
        requires
            volume.wf(),
        ensures
            match r {
                Ok(entries) => directory_entries(volume, inode@) == Ok::<
                    Seq<DirectoryEntryView>,
                    Failure,
                >(entry_views(entries@)) && all_name_inodes(entries@),
                Err(e) => directory_entries(volume, inode@) == Err::<
                    Seq<DirectoryEntryView>,
                    Failure,
                >(e@),
            },
    {
        let data = InodeReader::new(volume, inode).read_all()?;
        Ok(decode_entries(data.as_slice()))
    }

    /// The first entry whose name is `name`.
    pub fn find(&self, name: &str) -> (r: Option<&DirectoryEntry>)
        ensures
            match r {
                Some(entry) => position_of(entry_views(self.entries@), name@) matches Some(i)
                    && 0 <= i < self.entries@.len() && *entry == self.entries@[i],
                None => position_of(entry_views(self.entries@), name@) is None,
            },
    {
        match index_of(self.entries.as_slice(), name) {
            Some(i) => Some(&self.entries[i]),
            None => None,
        }
    }
}

/// The index of the first of `entries` whose name is `name`.
pub fn index_of(entries: &[DirectoryEntry], name: &str) -> (r: Option<usize>)
    ensures
        match r {
            Some(i) => position_of(entry_views(entries@), name@) == Some(i as int) && i
                < entries@.len(),
            None => position_of(entry_views(entries@), name@) is None,
        },
{
    let mut i: usize = 0;
    let ghost all = entry_views(entries@);
    assert(all.skip(0) =~= all);
    while i < entries.len()
        invariant
            i <= entries@.len(),
            all == entry_views(entries@),
            match position_of(all.skip(i as int), name@) {
                Some(k) => position_of(all, name@) == Some(k + i),
                None => position_of(all, name@) is None,
            },
        decreases entries@.len() - i,
    {
        assert(all.skip(i as int)[0] == entries@[i as int]@);
        assert(all.skip(i as int).drop_first() =~= all.skip(i + 1));
        if same_text(entries[i].name_str(), name) {
            return Some(i);
        }
        i += 1;
    }
    None
}

} // verus!

//! Extended attributes: the records kept after an inode's fields and in a
//! block of their own, and the two attributes that Android reads from them.

use crate::ext4::text::{digits, lossy_text, push_number, push_text, utf8_lossy};
use crate::ext4::wire::{combine_u32, join32, le16, le32, u16_at, u32_at, u8_at};
use crate::utils::{outcome, short_buffer, Error, Failure, ParseContext};
use vstd::prelude::*;
use vstd::slice::{slice_subrange, slice_to_vec};
use vstd::string::StringExecFns;

verus! {

/// The number that opens an attribute block and an inode's attribute area.
pub const XATTR_MAGIC: u32 = 0xEA020000;

/// The header of a block of extended attributes. Twelve reserved bytes
/// follow the checksum; they are skipped.
#[derive(Debug, Clone, Copy, PartialEq, Eq, Structural)]
pub struct XAttrHeader {
    pub magic: u32,
    pub refcount: u32,
    pub blocks: u32,
    pub hash: u32,
    pub checksum: u32,
}

impl XAttrHeader {
    pub const SIZE: usize = 32;

    /// What decoding `data` gives, the fields taken in stored order.
    pub open spec fn parsed(data: Seq<u8>) -> Result<XAttrHeader, Failure> {
        if data.len() < 4 {
            Err(short_buffer(ParseContext::XAttrHeader))
        } else if le32(data, 0) != 0xEA020000 {
            Err(Failure::InvalidMagic(ParseContext::XAttrHeader))
        } else if data.len() < 32 {
            Err(short_buffer(ParseContext::XAttrHeader))
        } else {
            Ok(
                XAttrHeader {
                    magic: le32(data, 0) as u32,
                    refcount: le32(data, 4) as u32,
                    blocks: le32(data, 8) as u32,
                    hash: le32(data, 12) as u32,
                    checksum: le32(data, 16) as u32,
                },
            )
        }
    }

    /// Decodes the header of an attribute block from the start of `bytes`.
    pub fn parse(bytes: &[u8]) -> (r: Result<Self, Error>)
        ensures
            outcome(r) == Self::parsed(bytes@),
    {
        let ctx = ParseContext::XAttrHeader;
        let magic = u32_at(bytes, 0, ctx)?;
        if magic != XATTR_MAGIC {
            return Err(Error::InvalidMagic(ctx));
        }
        if bytes.len() < 32 {
            return Err(Error::invalid_data(ctx, "buffer too small"));
        }
        let refcount = u32_at(bytes, 4, ctx)?;
        let blocks = u32_at(bytes, 8, ctx)?;
        let hash = u32_at(bytes, 12, ctx)?;
        let checksum = u32_at(bytes, 16, ctx)?;
        Ok(XAttrHeader { magic, refcount, blocks, hash, checksum })
    }
}

/// The header of the attribute area that follows an inode's fields.
#[derive(Debug, Clone, Copy, PartialEq, Eq, Structural)]
pub struct XAttrIbodyHeader {
    pub magic: u32,
}

impl XAttrIbodyHeader {
    pub const SIZE: usize = 4;

    /// What decoding `data` gives.
    pub open spec fn parsed(data: Seq<u8>) -> Result<XAttrIbodyHeader, Failure> {
        if data.len() < 4 {
            Err(short_buffer(ParseContext::XAttrIbodyHeader))
        } else if le32(data, 0) != 0xEA020000 {
            Err(Failure::InvalidMagic(ParseContext::XAttrIbodyHeader))
        } else {
            Ok(XAttrIbodyHeader { magic: le32(data, 0) as u32 })
        }
    }

    /// Decodes the header of an inode's attribute area from the start of `bytes`.
    pub fn parse(bytes: &[u8]) -> (r: Result<Self, Error>)
        ensures
            outcome(r) == Self::parsed(bytes@),
    {
        let ctx = ParseContext::XAttrIbodyHeader;
        let magic = u32_at(bytes, 0, ctx)?;
        if magic != XATTR_MAGIC {
            return Err(Error::InvalidMagic(ctx));
        }
        Ok(XAttrIbodyHeader { magic })
    }
}

/// The namespace of an attribute, stored as a number in place of the
/// prefix of the attribute's name.
#[derive(Debug, Clone, Copy, PartialEq, Eq, Structural)]
pub enum XAttrNameIndex {
    NoPrefix,
    User,
    SystemPosixAclAccess,
    SystemPosixAclDefault,
    Trusted,
    Security,
    System,
    SystemRichAcl,
}

impl XAttrNameIndex {
    /// The namespace that the stored number stands for, if it stands for one.
    pub open spec fn of_raw(raw: u8) -> Option<XAttrNameIndex> {
        match raw {
            0 => Some(XAttrNameIndex::NoPrefix),
            1 => Some(XAttrNameIndex::User),
            2 => Some(XAttrNameIndex::SystemPosixAclAccess),
            3 => Some(XAttrNameIndex::SystemPosixAclDefault),
            4 => Some(XAttrNameIndex::Trusted),
            6 => Some(XAttrNameIndex::Security),
            7 => Some(XAttrNameIndex::System),
            8 => Some(XAttrNameIndex::SystemRichAcl),
            _ => None,
        }
    }

    /// Decodes the namespace from the number that stands for it.
    pub fn from_raw(raw: u8) -> (r: Option<XAttrNameIndex>)
        ensures
            r == Self::of_raw(raw),
    {
        match raw {
            0 => Some(XAttrNameIndex::NoPrefix),
            1 => Some(XAttrNameIndex::User),
            2 => Some(XAttrNameIndex::SystemPosixAclAccess),
            3 => Some(XAttrNameIndex::SystemPosixAclDefault),
            4 => Some(XAttrNameIndex::Trusted),
            6 => Some(XAttrNameIndex::Security),
            7 => Some(XAttrNameIndex::System),
            8 => Some(XAttrNameIndex::SystemRichAcl),
            _ => None,
        }
    }

    pub open spec fn spec_is_acl(&self) -> bool {
        *self == XAttrNameIndex::SystemPosixAclAccess || *self
            == XAttrNameIndex::SystemPosixAclDefault || *self == XAttrNameIndex::SystemRichAcl
    }

    /// Whether the namespace is one of the access control lists, whose
    /// attributes have the namespace's prefix as their whole name.
    #[verifier::when_used_as_spec(spec_is_acl)]
    pub fn is_acl(&self) -> (r: bool)
        ensures
            r == self.spec_is_acl(),
    {
        match self {
            XAttrNameIndex::SystemPosixAclAccess => true,
            XAttrNameIndex::SystemPosixAclDefault => true,
            XAttrNameIndex::SystemRichAcl => true,
            _ => false,
        }
    }

    /// The prefix that the namespace puts before an attribute's name.
    pub open spec fn prefix(&self) -> Seq<char> {
        match self {
            XAttrNameIndex::NoPrefix => ""@,
            XAttrNameIndex::User => "user."@,
            XAttrNameIndex::SystemPosixAclAccess => "system.posix_acl_access"@,
            XAttrNameIndex::SystemPosixAclDefault => "system.posix_acl_default"@,
            XAttrNameIndex::Trusted => "trusted."@,
            XAttrNameIndex::Security => "security."@,
            XAttrNameIndex::System => "system."@,
            XAttrNameIndex::SystemRichAcl => "system.richacl"@,
        }
    }

    /// The prefix that the namespace puts before an attribute's name.
    pub fn as_str(&self) -> (s: &'static str)
        ensures
            s@ == self.prefix(),
    {
        match self {
            XAttrNameIndex::NoPrefix => "",
            XAttrNameIndex::User => "user.",
            XAttrNameIndex::SystemPosixAclAccess => "system.posix_acl_access",
            XAttrNameIndex::SystemPosixAclDefault => "system.posix_acl_default",
            XAttrNameIndex::Trusted => "trusted.",
            XAttrNameIndex::Security => "security.",
            XAttrNameIndex::System => "system.",
            XAttrNameIndex::SystemRichAcl => "system.richacl",
        }
    }

    /// The prefix of the namespace as an owned text.
    pub fn to_string(&self) -> (s: String)
        ensures
            s@ == self.prefix(),
    {
        String::from_str(self.as_str())
    }
}

/// The fixed part of an attribute record.
#[derive(Debug, Clone, Copy, PartialEq, Eq, Structural)]
pub struct XAttrEntryHeader {
    pub name_len: u8,
    pub name_index: XAttrNameIndex,
    pub value_offs: u16,
    pub value_inum: u32,
    pub value_size: u32,
    pub hash: u32,
}

/// The failure of a record whose namespace number stands for no namespace.
pub open spec fn unknown_name_index() -> Failure {
    Failure::InvalidData { context: ParseContext::XAttrEntry, message: "unknown name index"@ }
}

/// The failure of a record whose name reaches beyond the end of the data.
pub open spec fn name_out_of_bounds() -> Failure {
    Failure::InvalidData { context: ParseContext::XAttrEntry, message: "name out of bounds"@ }
}

impl XAttrEntryHeader {
    pub const SIZE: usize = 16;

    /// What decoding `data` gives, the fields taken in stored order.
    pub open spec fn parsed(data: Seq<u8>) -> Result<XAttrEntryHeader, Failure> {
        if data.len() < 2 {
            Err(short_buffer(ParseContext::XAttrEntry))
        } else {
            match XAttrNameIndex::of_raw(data[1]) {
                None => Err(unknown_name_index()),
                Some(name_index) => if data.len() < 16 {
                    Err(short_buffer(ParseContext::XAttrEntry))
                } else {
                    Ok(
                        XAttrEntryHeader {
                            name_len: data[0],
                            name_index,
                            value_offs: le16(data, 2) as u16,
                            value_inum: le32(data, 4) as u32,
                            value_size: le32(data, 8) as u32,
                            hash: le32(data, 12) as u32,
                        },
                    )
                },
            }
        }
    }

    /// Decodes the fixed part of a record from the start of `bytes`.
    pub fn parse(bytes: &[u8]) -> (r: Result<Self, Error>)
        ensures
            outcome(r) == Self::parsed(bytes@),
    {
        let ctx = ParseContext::XAttrEntry;
        let name_len = u8_at(bytes, 0, ctx)?;
        let raw_index = u8_at(bytes, 1, ctx)?;
        let name_index = match XAttrNameIndex::from_raw(raw_index) {
            Some(index) => index,
            None => {
                return Err(Error::invalid_data(ctx, "unknown name index"));
            },
        };
        let value_offs = u16_at(bytes, 2, ctx)?;
        let value_inum = u32_at(bytes, 4, ctx)?;
        let value_size = u32_at(bytes, 8, ctx)?;
        let hash = u32_at(bytes, 12, ctx)?;
        Ok(XAttrEntryHeader { name_len, name_index, value_offs, value_inum, value_size, hash })
    }

    pub open spec fn spec_is_end_of_entries(&self) -> bool {
        self.name_len == 0 && self.name_index == XAttrNameIndex::NoPrefix && self.value_offs == 0
            && self.value_inum == 0
    }

    /// Whether this is the record of zeros that ends a list of attributes.
    #[verifier::when_used_as_spec(spec_is_end_of_entries)]
    pub fn is_end_of_entries(&self) -> (r: bool)
        ensures
            r == self.spec_is_end_of_entries(),
    {
        let no_prefix = match self.name_index {
            XAttrNameIndex::NoPrefix => true,
            _ => false,
        };
        self.name_len == 0 && no_prefix && self.value_offs == 0 && self.value_inum == 0
    }

    /// The distance from this record to the next: the fixed part and the
    /// name, rounded up to a multiple of four.
    pub open spec fn spec_size(&self) -> int {
        16 + 4 * ((self.name_len + 3) / 4)
    }
}

/// One extended attribute.
#[derive(Debug)]
pub struct XAttrEntry {
    pub header: XAttrEntryHeader,
    /// The name without the prefix of its namespace.
    pub name: String,
    /// The value; empty where the record has none or keeps it elsewhere.
    pub value: Vec<u8>,
}

/// An attribute with its name as characters and its value as bytes.
pub struct XAttrEntryView {
    pub header: XAttrEntryHeader,
    pub name: Seq<char>,
    pub value: Seq<u8>,
}

impl View for XAttrEntry {
    type V = XAttrEntryView;

    open spec fn view(&self) -> XAttrEntryView {
        XAttrEntryView { header: self.header, name: self.name@, value: self.value@ }
    }
}

impl Clone for XAttrEntry {
    fn clone(&self) -> (r: Self)
        ensures
            r@ == self@,
    {
        XAttrEntry {
            header: self.header,
            name: self.name.clone(),
            value: slice_to_vec(self.value.as_slice()),
        }
    }
}

/// The attributes of `entries`, each by its view.
pub open spec fn views(entries: Seq<XAttrEntry>) -> Seq<XAttrEntryView> {
    entries.map_values(|e: XAttrEntry| e@)
}

/// The value of the record `header` in `data`: the `value_size` bytes at
/// `value_offs`, counted from `base`. A record that keeps its value in an
/// inode of its own, has none, or points outside `data` has the empty value.
pub open spec fn value_at(data: Seq<u8>, header: XAttrEntryHeader, base: int) -> Seq<u8> {
    let start = base + header.value_offs;
    let end = start + header.value_size;
    if header.value_inum == 0 && header.value_size > 0 && end <= data.len() {
        data.subrange(start, end)
    } else {
        Seq::empty()
    }
}

/// The attribute whose record starts at `pos`.
pub open spec fn entry_at(data: Seq<u8>, pos: int, header: XAttrEntryHeader, base: int)
    -> XAttrEntryView {
    XAttrEntryView {
        header,
        name: utf8_lossy(data.subrange(pos + 16, pos + 16 + header.name_len)),
        value: value_at(data, header, base),
    }
}

/// The attributes whose records start at `pos` and follow one another up to
/// the record of zeros or the end of `data`; or the failure of the first
/// record that cannot be decoded.
pub open spec fn entries_from(data: Seq<u8>, pos: int, base: int) -> Result<
    Seq<XAttrEntryView>,
    Failure,
>
    decreases
        (if pos < data.len() {
            data.len() - pos
        } else {
            0
        }),
{
    if pos < 0 || pos + 16 > data.len() {
        Ok(Seq::empty())
    } else {
        match XAttrEntryHeader::parsed(data.skip(pos)) {
            Err(f) => Err(f),
            Ok(header) => if header.spec_is_end_of_entries() {
                Ok(Seq::empty())
            } else if pos + 16 + header.name_len > data.len() {
                Err(name_out_of_bounds())
            } else {
                match entries_from(data, pos + header.spec_size(), base) {
                    Err(f) => Err(f),
                    Ok(rest) => Ok(seq![entry_at(data, pos, header, base)] + rest),
                }
            },
        }
    }
}

/// `found`, followed by what `rest` holds if it holds anything.
pub open spec fn followed_by(found: Seq<XAttrEntryView>, rest: Result<
    Seq<XAttrEntryView>,
    Failure,
>) -> Result<Seq<XAttrEntryView>, Failure> {
    match rest {
        Ok(more) => Ok(found + more),
        Err(f) => Err(f),
    }
}

/// Every attribute that is decoded has the value that its record points
/// to, counted from `base`.
pub proof fn lemma_values_are_counted_from_base(data: Seq<u8>, pos: int, base: int, i: int)
    requires
        entries_from(data, pos, base) is Ok,
        0 <= i < entries_from(data, pos, base)->Ok_0.len(),
    ensures
        entries_from(data, pos, base)->Ok_0[i].value == value_at(
            data,
            entries_from(data, pos, base)->Ok_0[i].header,
            base,
        ),
    decreases
        (if pos < data.len() {
            data.len() - pos
        } else {
            0
        }),
{
    if !(pos < 0 || pos + 16 > data.len()) {
        let header = XAttrEntryHeader::parsed(data.skip(pos))->Ok_0;
        if i > 0 {
            lemma_values_are_counted_from_base(data, pos + header.spec_size(), base, i - 1);
        }
    }
}

/// In an attribute block a value lies at the offset that its record
/// gives, counted from the start of the block.
pub proof fn lemma_block_values_are_counted_from_the_block(block: Seq<u8>, i: int)
    requires
        block_entries(block) is Ok,
        0 <= i < block_entries(block)->Ok_0.len(),
        block_entries(block)->Ok_0[i].header.value_inum == 0,
        block_entries(block)->Ok_0[i].header.value_size > 0,
        block_entries(block)->Ok_0[i].header.value_offs + block_entries(
            block,
        )->Ok_0[i].header.value_size <= block.len(),
    ensures
        block_entries(block)->Ok_0[i].value == block.subrange(
            block_entries(block)->Ok_0[i].header.value_offs as int,
            block_entries(block)->Ok_0[i].header.value_offs + block_entries(
                block,
            )->Ok_0[i].header.value_size,
        ),
{
    lemma_values_are_counted_from_base(block, 32, 0, i);
}

/// A value without the one zero byte that may end it.
pub open spec fn without_nul(value: Seq<u8>) -> Seq<u8> {
    if value.len() > 0 && value.last() == 0 {
        value.drop_last()
    } else {
        value
    }
}

/// The capabilities that a `vfs_cap_data` value grants: the two permitted
/// words, the second above the first. A value shorter than the structure,
/// or one that grants nothing, has none.
pub open spec fn capabilities_in(value: Seq<u8>) -> Option<u64> {
    if value.len() < 20 {
        None
    } else {
        let caps = join32(le32(value, 12), le32(value, 4));
        if caps == 0 {
            None
        } else {
            Some(caps as u64)
        }
    }
}

/// How a set of capabilities is written in an `fs_config` line.
pub open spec fn capability_text(caps: u64) -> Seq<char> {
    " capabilities=0x"@ + digits(caps as nat, 16)
}

impl XAttrEntryView {
    /// The name with the prefix of its namespace.
    pub open spec fn full_name(&self) -> Seq<char> {
        if self.header.name_index.spec_is_acl() {
            self.header.name_index.prefix()
        } else {
            self.header.name_index.prefix() + self.name
        }
    }

    pub open spec fn is_selinux(&self) -> bool {
        self.full_name() == "security.selinux"@
    }

    pub open spec fn is_capability(&self) -> bool {
        self.full_name() == "security.capability"@
    }

    /// The SELinux label that the attribute carries, if it is the label.
    pub open spec fn selinux_context(&self) -> Option<Seq<char>> {
        if self.is_selinux() {
            Some(utf8_lossy(without_nul(self.value)))
        } else {
            None
        }
    }

    /// The capabilities that the attribute grants, if it grants any.
    pub open spec fn capabilities(&self) -> Option<u64> {
        if self.is_capability() {
            capabilities_in(self.value)
        } else {
            None
        }
    }
}

impl XAttrEntry {
    /// The size of a record without its name.
    pub const HEADER_SIZE: usize = 16;

    /// Decodes the attributes stored in `data`.
    ///
    /// The first record is at `entries_start`. `value_base` is the offset
    /// that the records count their values from: 0 in an attribute block,
    /// the position of the first record in an inode.
    pub fn parse(data: &[u8], entries_start: usize, value_base: usize) -> (r: Result<
        Vec<XAttrEntry>,
        Error,
    >)
        ensures
            match r {
                Ok(found) => entries_from(data@, entries_start as int, value_base as int) == Ok::<
                    Seq<XAttrEntryView>,
                    Failure,
                >(views(found@)),
                Err(e) => entries_from(data@, entries_start as int, value_base as int) == Err::<
                    Seq<XAttrEntryView>,
                    Failure,
                >(e@),
            },
    {
        let mut xattrs: Vec<XAttrEntry> = Vec::new();
        let mut pos = entries_start;
        let length = data.len();
        let ghost whole = entries_from(data@, entries_start as int, value_base as int);
        assert(views(xattrs@) + Seq::<XAttrEntryView>::empty() =~= views(xattrs@));
        assert(views(xattrs@) =~= Seq::<XAttrEntryView>::empty());
        proof {
            let first = entries_from(data@, pos as int, value_base as int);
            match first {
                Ok(more) => {
                    assert(Seq::<XAttrEntryView>::empty() + more =~= more);
                },
                Err(_) => {},
            }
        }
        while pos <= length && length - pos >= 16
            invariant
                length == data@.len(),
                whole == entries_from(data@, entries_start as int, value_base as int),
                whole == followed_by(
                    views(xattrs@),
                    entries_from(data@, pos as int, value_base as int),
                ),
            decreases data@.len() - pos,
        {
            let entry_data = slice_subrange(data, pos, data.len());
            assert(entry_data@ == data@.skip(pos as int));
            let header = match XAttrEntryHeader::parse(entry_data) {
                Ok(header) => header,
                Err(e) => {
                    return Err(e);
                },
            };
            if header.is_end_of_entries() {
                assert(views(xattrs@) + Seq::<XAttrEntryView>::empty() =~= views(xattrs@));
                return Ok(xattrs);
            }
            let name_len = header.name_len as usize;
            if name_len > data.len() - pos - 16 {
                return Err(Error::invalid_data(ParseContext::XAttrEntry, "name out of bounds"));
            }
            let name = lossy_text(slice_subrange(data, pos + 16, pos + 16 + name_len));
            let value = Self::read_value(data, &header, value_base);
            let entry = XAttrEntry { header, name, value };
            let step = entry.size();
            let ghost before = xattrs@;
            xattrs.push(entry);
            proof {
                let this = entry_at(data@, pos as int, header, value_base as int);
                assert(entry@ == this);
                assert(views(xattrs@) =~= views(before).push(this));
                let next = entries_from(data@, pos + step, value_base as int);
                match next {
                    Ok(more) => {
                        assert(views(before) + (seq![this] + more) =~= views(xattrs@) + more);
                    },
                    Err(_) => {},
                }
            }
            if step > data.len() - pos {
                assert(views(xattrs@) + Seq::<XAttrEntryView>::empty() =~= views(xattrs@));
                return Ok(xattrs);
            }
            pos += step;
        }
        assert(views(xattrs@) + Seq::<XAttrEntryView>::empty() =~= views(xattrs@));
        Ok(xattrs)
    }

    /// Copies the value of the record `header` out of `data`.
    fn read_value(data: &[u8], header: &XAttrEntryHeader, value_base: usize) -> (value: Vec<u8>)
        ensures
            value@ == value_at(data@, *header, value_base as int),
    {
        let mut value: Vec<u8> = Vec::new();
        if header.value_inum == 0 && header.value_size > 0 {
            let start = value_base as u128 + header.value_offs as u128;
            let end = start + header.value_size as u128;
            if end <= data.len() as u128 {
                let first = start as usize;
                let last = end as usize;
                let mut i: usize = first;
                while i < last
                    invariant
                        first <= i <= last <= data@.len(),
                        value@ == data@.subrange(first as int, i as int),
                    decreases last - i,
                {
                    value.push(data[i]);
                    i += 1;
                }
            }
        }
        value
    }

    /// The distance from this record to the next: the fixed part and the
    /// name, rounded up to a multiple of four.
    pub fn size(&self) -> (r: usize)
        ensures
            r as int == self.header.spec_size(),
            16 <= r <= 272,
    {
        let size = Self::HEADER_SIZE + self.header.name_len as usize;
        ((size + 3) / 4) * 4
    }

    /// The name with the prefix of its namespace. The namespaces of access
    /// control lists have no names under them: their prefix is the name.
    pub fn full_name(&self) -> (r: String)
        ensures
            r@ == self@.full_name(),
    {
        let mut full = self.header.name_index.to_string();
        if !self.header.name_index.is_acl() {
            push_text(&mut full, self.name.as_str());
        }
        full
    }

    /// Whether this attribute is the SELinux label.
    pub fn is_selinux(&self) -> (r: bool)
        ensures
            r == self@.is_selinux(),
    {
        self.full_name() == String::from_str("security.selinux")
    }

    /// Whether this attribute holds the file's capabilities.
    pub fn is_capability(&self) -> (r: bool)
        ensures
            r == self@.is_capability(),
    {
        self.full_name() == String::from_str("security.capability")
    }

    /// The SELinux label: the value without the zero byte that ends it.
    pub fn selinux_context(&self) -> (r: Option<String>)
        ensures
            match r {
                Some(label) => self@.selinux_context() == Some(label@),
                None => self@.selinux_context() is None,
            },
    {
        if !self.is_selinux() {
            return None;
        }
        let value = self.value.as_slice();
        let end = if value.len() > 0 && value[value.len() - 1] == 0 {
            value.len() - 1
        } else {
            value.len()
        };
        let label = slice_subrange(value, 0, end);
        assert(label@ == without_nul(self.value@));
        Some(lossy_text(label))
    }

    /// The capabilities that the attribute grants, as one 64-bit set.
    pub fn capabilities(&self) -> (r: Option<u64>)
        ensures
            r == self@.capabilities(),
    {
        if !self.is_capability() {
            return None;
        }
        let value = self.value.as_slice();
        if value.len() < 20 {
            return None;
        }
        let permitted_lo = match u32_at(value, 4, ParseContext::Capability) {
            Ok(word) => word,
            Err(_) => {
                return None;
            },
        };
        let permitted_hi = match u32_at(value, 12, ParseContext::Capability) {
            Ok(word) => word,
            Err(_) => {
                return None;
            },
        };
        let caps = combine_u32(permitted_hi, permitted_lo);
        if caps == 0 {
            None
        } else {
            Some(caps)
        }
    }

    /// The capabilities as they are written at the end of an `fs_config`
    /// line: a space, `capabilities=0x` and the set in hexadecimal.
    pub fn capability_string(&self) -> (r: Option<String>)
        ensures
            match r {
                Some(text) => self@.capabilities() matches Some(caps) && text@ == capability_text(
                    caps,
                ),
                None => self@.capabilities() is None,
            },
    {
        match self.capabilities() {
            Some(caps) => Some(render_capabilities(caps)),
            None => None,
        }
    }
}

/// Writes a set of capabilities as it stands at the end of an `fs_config` line.
pub fn render_capabilities(caps: u64) -> (r: String)
    ensures
        r@ == capability_text(caps),
{
    let mut text = String::from_str(" capabilities=0x");
    push_number(&mut text, caps, 16);
    text
}

/// What decoding an attribute block gives: the records after the header,
/// their values counted from the start of the block.
pub open spec fn block_entries(block: Seq<u8>) -> Result<Seq<XAttrEntryView>, Failure> {
    match XAttrHeader::parsed(block) {
        Err(f) => Err(f),
        Ok(_) => entries_from(block, 32, 0),
    }
}

/// Decodes the attributes stored in a block of their own.
pub fn parse_xattrs_from_block(block_data: &[u8]) -> (r: Result<Vec<XAttrEntry>, Error>)
    ensures
        match r {
            Ok(found) => block_entries(block_data@) == Ok::<Seq<XAttrEntryView>, Failure>(
                views(found@),
            ),
            Err(e) => block_entries(block_data@) == Err::<Seq<XAttrEntryView>, Failure>(e@),
        },
{
    match XAttrHeader::parse(block_data) {
        Ok(_) => {},
        Err(e) => {
            return Err(e);
        },
    }
    XAttrEntry::parse(block_data, XAttrHeader::SIZE, 0)
}

} // verus!

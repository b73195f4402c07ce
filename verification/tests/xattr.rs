//! Extended attributes: the records, their values and the two attributes
//! that Android reads.

use android_ext4::ext4::inode::Inode;
use android_ext4::ext4::xattr::{
    parse_xattrs_from_block, render_capabilities, XAttrEntry, XAttrEntryHeader, XAttrHeader,
    XAttrIbodyHeader, XAttrNameIndex,
};
use android_ext4::utils::{Error, ParseContext};

fn put16(buf: &mut [u8], at: usize, value: u16) {
    buf[at..at + 2].copy_from_slice(&value.to_le_bytes());
}

fn put32(buf: &mut [u8], at: usize, value: u32) {
    buf[at..at + 4].copy_from_slice(&value.to_le_bytes());
}

fn record(data: &mut [u8], at: usize, index: u8, name: &[u8], value_offs: u16, value_size: u32) {
    data[at] = name.len() as u8;
    data[at + 1] = index;
    put16(data, at + 2, value_offs);
    put32(data, at + 8, value_size);
    put32(data, at + 12, 0xABCD);
    data[at + 16..at + 16 + name.len()].copy_from_slice(name);
}

fn entry(index: XAttrNameIndex, name: &str, value: &[u8]) -> XAttrEntry {
    XAttrEntry {
        header: XAttrEntryHeader {
            name_len: name.len() as u8,
            name_index: index,
            value_offs: 0,
            value_inum: 0,
            value_size: value.len() as u32,
            hash: 0,
        },
        name: name.to_string(),
        value: value.to_vec(),
    }
}

fn is_invalid(result: Result<Vec<XAttrEntry>, Error>, text: &str) -> bool {
    match result {
        Err(Error::InvalidData { context, message }) => {
            context == ParseContext::XAttrEntry && message == text
        }
        _ => false,
    }
}

#[test]
fn attribute_headers_start_with_the_magic_number() {
    let mut block = vec![0u8; 32];
    put32(&mut block, 0, 0xEA02_0000);
    put32(&mut block, 4, 1);
    put32(&mut block, 8, 1);
    put32(&mut block, 12, 0x1111);
    put32(&mut block, 16, 0x2222);
    let header = XAttrHeader::parse(&block).unwrap();
    assert_eq!(
        header,
        XAttrHeader { magic: 0xEA02_0000, refcount: 1, blocks: 1, hash: 0x1111, checksum: 0x2222 }
    );
    assert!(matches!(
        XAttrHeader::parse(&block[..31]),
        Err(Error::InvalidData { context: ParseContext::XAttrHeader, .. })
    ));
    assert!(matches!(
        XAttrHeader::parse(&block[..3]),
        Err(Error::InvalidData { context: ParseContext::XAttrHeader, .. })
    ));
    assert_eq!(XAttrIbodyHeader::parse(&block).unwrap().magic, 0xEA02_0000);
    assert!(matches!(
        XAttrIbodyHeader::parse(&block[..3]),
        Err(Error::InvalidData { context: ParseContext::XAttrIbodyHeader, .. })
    ));
    put32(&mut block, 0, 0xEA02_0001);
    assert!(matches!(
        XAttrHeader::parse(&block[..4]),
        Err(Error::InvalidMagic(ParseContext::XAttrHeader))
    ));
    assert!(matches!(
        XAttrIbodyHeader::parse(&block),
        Err(Error::InvalidMagic(ParseContext::XAttrIbodyHeader))
    ));
    assert_eq!(XAttrHeader::SIZE, 32);
    assert_eq!(XAttrIbodyHeader::SIZE, 4);
}

#[test]
fn namespaces_have_prefixes() {
    let all = [
        (0u8, XAttrNameIndex::NoPrefix, "", false),
        (1, XAttrNameIndex::User, "user.", false),
        (2, XAttrNameIndex::SystemPosixAclAccess, "system.posix_acl_access", true),
        (3, XAttrNameIndex::SystemPosixAclDefault, "system.posix_acl_default", true),
        (4, XAttrNameIndex::Trusted, "trusted.", false),
        (6, XAttrNameIndex::Security, "security.", false),
        (7, XAttrNameIndex::System, "system.", false),
        (8, XAttrNameIndex::SystemRichAcl, "system.richacl", true),
    ];
    for (raw, index, prefix, acl) in all {
        assert_eq!(XAttrNameIndex::from_raw(raw), Some(index));
        assert_eq!(index.as_str(), prefix);
        assert_eq!(index.to_string(), prefix);
        assert_eq!(index.is_acl(), acl);
    }
    assert_eq!(XAttrNameIndex::from_raw(5), None);
    assert_eq!(XAttrNameIndex::from_raw(9), None);
}

#[test]
fn record_headers_are_sixteen_bytes() {
    let mut data = vec![0u8; 16];
    data[0] = 7;
    data[1] = 6;
    put16(&mut data, 2, 0x40);
    put32(&mut data, 4, 0);
    put32(&mut data, 8, 26);
    put32(&mut data, 12, 0xFEED);
    let header = XAttrEntryHeader::parse(&data).unwrap();
    assert_eq!(
        header,
        XAttrEntryHeader {
            name_len: 7,
            name_index: XAttrNameIndex::Security,
            value_offs: 0x40,
            value_inum: 0,
            value_size: 26,
            hash: 0xFEED
        }
    );
    assert!(!header.is_end_of_entries());
    assert!(XAttrEntryHeader::parse(&[0u8; 16]).unwrap().is_end_of_entries());
    let mut sized = [0u8; 16];
    put32(&mut sized, 8, 5);
    put32(&mut sized, 12, 5);
    assert!(XAttrEntryHeader::parse(&sized).unwrap().is_end_of_entries());
    let mut stored_elsewhere = [0u8; 16];
    put32(&mut stored_elsewhere, 4, 1);
    assert!(!XAttrEntryHeader::parse(&stored_elsewhere).unwrap().is_end_of_entries());
    assert!(matches!(
        XAttrEntryHeader::parse(&data[..15]),
        Err(Error::InvalidData { context: ParseContext::XAttrEntry, .. })
    ));
    data[1] = 5;
    match XAttrEntryHeader::parse(&data[..2]) {
        Err(Error::InvalidData { context, message }) => {
            assert_eq!(context, ParseContext::XAttrEntry);
            assert_eq!(message, "unknown name index");
        }
        other => panic!("unexpected {:?}", other),
    }
    assert_eq!(XAttrEntryHeader::SIZE, 16);
    assert_eq!(XAttrEntry::HEADER_SIZE, 16);
}

#[test]
fn values_in_an_inode_are_counted_from_the_first_record() {
    let mut tail = vec![0u8; 96];
    put32(&mut tail, 0, 0xEA02_0000);
    record(&mut tail, 4, 6, b"selinux", 60, 5);
    record(&mut tail, 28, 1, b"k", 68, 3);
    tail[64..69].copy_from_slice(b"label");
    tail[72..75].copy_from_slice(b"abc");
    let entries = Inode::parse_inline_xattr(&tail).unwrap();
    assert_eq!(entries.len(), 2);
    assert_eq!(entries[0].full_name(), "security.selinux");
    assert_eq!(entries[0].value, b"label".to_vec());
    assert_eq!(entries[0].value, tail[4 + 60..4 + 60 + 5].to_vec());
    assert_eq!(entries[1].full_name(), "user.k");
    assert_eq!(entries[1].value, b"abc".to_vec());
    assert_eq!(entries[0].size(), 24);
    assert_eq!(entries[1].size(), 20);
    assert_eq!(entries[0].header.hash, 0xABCD);
    assert!(Inode::parse_inline_xattr(&tail[..3]).unwrap().is_empty());
    assert!(Inode::parse_inline_xattr(&[]).unwrap().is_empty());
    tail[0] = 1;
    assert!(matches!(
        Inode::parse_inline_xattr(&tail),
        Err(Error::InvalidMagic(ParseContext::XAttrIbodyHeader))
    ));
}

#[test]
fn values_in_a_block_are_counted_from_the_start_of_the_block() {
    let mut block = vec![0u8; 128];
    put32(&mut block, 0, 0xEA02_0000);
    record(&mut block, 32, 6, b"selinux", 100, 5);
    block[100..105].copy_from_slice(b"label");
    let entries = parse_xattrs_from_block(&block).unwrap();
    assert_eq!(entries.len(), 1);
    assert_eq!(entries[0].value, b"label".to_vec());
    assert_eq!(entries[0].value, block[100..105].to_vec());
    let same = XAttrEntry::parse(&block, 32, 0).unwrap();
    assert_eq!(same[0].value, b"label".to_vec());
    let shifted = XAttrEntry::parse(&block, 32, 1).unwrap();
    assert_eq!(shifted[0].value, block[101..106].to_vec());
    block[3] = 0;
    assert!(matches!(
        parse_xattrs_from_block(&block),
        Err(Error::InvalidMagic(ParseContext::XAttrHeader))
    ));
    assert!(matches!(
        parse_xattrs_from_block(&block[..2]),
        Err(Error::InvalidData { context: ParseContext::XAttrHeader, .. })
    ));
}

#[test]
fn records_without_a_value_in_reach_have_an_empty_value() {
    let mut data = vec![0u8; 96];
    record(&mut data, 0, 1, b"elsewhere", 64, 4);
    put32(&mut data, 4, 12);
    record(&mut data, 28, 1, b"empty", 64, 0);
    record(&mut data, 52, 1, b"beyond", 93, 4);
    data[64..68].copy_from_slice(b"data");
    let entries = XAttrEntry::parse(&data, 0, 0).unwrap();
    assert_eq!(entries.len(), 3);
    assert!(entries.iter().all(|e| e.value.is_empty()));
    put16(&mut data, 52 + 2, 92);
    let entries = XAttrEntry::parse(&data, 0, 0).unwrap();
    assert_eq!(entries[2].value.len(), 4);
    assert!(XAttrEntry::parse(&data, 0, usize::MAX).unwrap()[2].value.is_empty());
}

#[test]
fn the_list_ends_at_the_record_of_zeros_or_where_no_header_fits() {
    let mut data = vec![0u8; 80];
    record(&mut data, 0, 1, b"a", 0, 0);
    record(&mut data, 20, 1, b"b", 0, 0);
    record(&mut data, 60, 1, b"c", 0, 0);
    assert_eq!(XAttrEntry::parse(&data, 0, 0).unwrap().len(), 2);
    assert_eq!(XAttrEntry::parse(&data, 20, 0).unwrap().len(), 1);
    assert_eq!(XAttrEntry::parse(&data, 60, 0).unwrap().len(), 1);
    assert_eq!(XAttrEntry::parse(&data, 65, 0).unwrap().len(), 0);
    assert_eq!(XAttrEntry::parse(&data, 80, 0).unwrap().len(), 0);
    assert_eq!(XAttrEntry::parse(&data, 1000, 0).unwrap().len(), 0);
    assert_eq!(XAttrEntry::parse(&data[..35], 0, 0).unwrap().len(), 1);
    assert!(is_invalid(XAttrEntry::parse(&data[..36], 0, 0), "name out of bounds"));
    assert_eq!(XAttrEntry::parse(&data[..37], 0, 0).unwrap().len(), 2);
}

#[test]
fn records_that_cannot_be_decoded_fail_the_list() {
    let mut data = vec![0u8; 64];
    record(&mut data, 0, 1, b"a", 0, 0);
    record(&mut data, 20, 1, b"abcdefghijkl", 0, 0);
    assert_eq!(XAttrEntry::parse(&data[..48], 0, 0).unwrap().len(), 2);
    data[20] = 13;
    assert!(is_invalid(XAttrEntry::parse(&data[..48], 0, 0), "name out of bounds"));
    assert_eq!(XAttrEntry::parse(&data[..49], 0, 0).unwrap().len(), 2);
    data[21] = 9;
    assert!(is_invalid(XAttrEntry::parse(&data, 0, 0), "unknown name index"));
}

#[test]
fn names_that_are_not_utf8_are_read_with_replacements() {
    let mut data = vec![0u8; 32];
    record(&mut data, 0, 1, &[b'a', 0xFF, b'b'], 0, 0);
    let entries = XAttrEntry::parse(&data, 0, 0).unwrap();
    assert_eq!(entries[0].name, "a\u{FFFD}b");
    assert_eq!(entries[0].full_name(), "user.a\u{FFFD}b");
    assert_eq!(entries[0].size(), 20);
}

#[test]
fn full_names_carry_the_prefix_of_the_namespace() {
    assert_eq!(entry(XAttrNameIndex::User, "note", b"").full_name(), "user.note");
    assert_eq!(entry(XAttrNameIndex::NoPrefix, "plain", b"").full_name(), "plain");
    assert_eq!(entry(XAttrNameIndex::Trusted, "x", b"").full_name(), "trusted.x");
    assert_eq!(entry(XAttrNameIndex::System, "x", b"").full_name(), "system.x");
    assert_eq!(
        entry(XAttrNameIndex::SystemPosixAclAccess, "ignored", b"").full_name(),
        "system.posix_acl_access"
    );
    assert_eq!(
        entry(XAttrNameIndex::SystemPosixAclDefault, "", b"").full_name(),
        "system.posix_acl_default"
    );
    assert_eq!(entry(XAttrNameIndex::SystemRichAcl, "x", b"").full_name(), "system.richacl");
    let copy = entry(XAttrNameIndex::User, "note", b"v").clone();
    assert_eq!((copy.full_name(), copy.value), ("user.note".to_string(), b"v".to_vec()));
}

#[test]
fn the_label_is_the_value_without_its_terminator() {
    let label = entry(XAttrNameIndex::Security, "selinux", b"u:object_r:system_file:s0\0");
    assert!(label.is_selinux());
    assert!(!label.is_capability());
    assert_eq!(label.selinux_context(), Some("u:object_r:system_file:s0".to_string()));
    assert_eq!(label.capabilities(), None);
    let bare = entry(XAttrNameIndex::Security, "selinux", b"abc");
    assert_eq!(bare.selinux_context(), Some("abc".to_string()));
    let twice = entry(XAttrNameIndex::Security, "selinux", b"abc\0\0");
    assert_eq!(twice.selinux_context(), Some("abc\0".to_string()));
    let empty = entry(XAttrNameIndex::Security, "selinux", b"");
    assert_eq!(empty.selinux_context(), Some(String::new()));
    let broken = entry(XAttrNameIndex::Security, "selinux", &[b'a', 0x80, 0]);
    assert_eq!(broken.selinux_context(), Some("a\u{FFFD}".to_string()));
    let spelled_out = entry(XAttrNameIndex::NoPrefix, "security.selinux", b"x\0");
    assert!(spelled_out.is_selinux());
    assert_eq!(spelled_out.selinux_context(), Some("x".to_string()));
    let other = entry(XAttrNameIndex::User, "selinux", b"x\0");
    assert!(!other.is_selinux());
    assert_eq!(other.selinux_context(), None);
    assert!(!entry(XAttrNameIndex::Security, "selinux2", b"").is_selinux());
}

#[test]
fn capabilities_are_the_two_permitted_words() {
    let mut value = [0u8; 20];
    put32(&mut value, 0, 0x0200_0000);
    put32(&mut value, 4, 0x2000);
    put32(&mut value, 8, 0xFFFF_FFFF);
    put32(&mut value, 12, 0x1);
    put32(&mut value, 16, 0xFFFF_FFFF);
    let caps = entry(XAttrNameIndex::Security, "capability", &value);
    assert!(caps.is_capability());
    assert!(!caps.is_selinux());
    assert_eq!(caps.capabilities(), Some(0x1_0000_2000));
    assert_eq!(caps.capability_string(), Some(" capabilities=0x100002000".to_string()));
    put32(&mut value, 12, 0);
    let caps = entry(XAttrNameIndex::Security, "capability", &value);
    assert_eq!(caps.capability_string(), Some(" capabilities=0x2000".to_string()));
    put32(&mut value, 4, 0);
    let none = entry(XAttrNameIndex::Security, "capability", &value);
    assert_eq!(none.capabilities(), None);
    assert_eq!(none.capability_string(), None);
    let short = entry(XAttrNameIndex::Security, "capability", &[0xFF; 19]);
    assert_eq!(short.capabilities(), None);
    let other = entry(XAttrNameIndex::Security, "selinux", &[0xFF; 20]);
    assert_eq!(other.capabilities(), None);
    assert_eq!(other.capability_string(), None);
    assert_eq!(render_capabilities(0), " capabilities=0x0");
    assert_eq!(render_capabilities(u64::MAX), " capabilities=0xffffffffffffffff");
    assert_eq!(render_capabilities(0xABCDEF), " capabilities=0xabcdef");
}

//! The decoders of the fixed records, each on bytes written out by hand.

use android_ext4::ext4::block::BlockGroupDescriptor;
use android_ext4::ext4::directory::decode_entries;
use android_ext4::ext4::extent::{Extent, ExtentHeader, ExtentIndex};
use android_ext4::ext4::inode::{FileType, Flags, Inode, Linux2, Mode};
use android_ext4::ext4::superblock::{
    CompatibleFeatures, CreatorOS, DefaultHashVersion, DefaultMountOptions, EncryptionAlgorithm,
    ErrorPolicy, IncompatibleFeatures, ReadOnlyCompatibleFeatures, Revision, State, Superblock,
};
use android_ext4::ext4::wire::{
    bytes_at, combine_u16, combine_u32, table_offset, u16_at, u32_at, u32s_at, u64_at, u8_at,
};
use android_ext4::ext4::{DirEntryType, DirectoryEntry};
use android_ext4::utils::{Error, ParseContext};

fn put16(buf: &mut [u8], at: usize, value: u16) {
    buf[at..at + 2].copy_from_slice(&value.to_le_bytes());
}

fn put32(buf: &mut [u8], at: usize, value: u32) {
    buf[at..at + 4].copy_from_slice(&value.to_le_bytes());
}

fn name_bytes(name: &[u8]) -> [u8; 255] {
    let mut bytes = [0u8; 255];
    bytes[..name.len()].copy_from_slice(name);
    bytes
}

fn is_short(result: Result<(), Error>, expected: ParseContext) -> bool {
    match result {
        Err(Error::InvalidData { context, message }) => {
            context == expected && message == "buffer too small"
        }
        _ => false,
    }
}

fn message_of<T>(result: Result<T, Error>) -> (ParseContext, String) {
    match result {
        Err(Error::InvalidData { context, message }) => (context, message),
        Err(other) => panic!("another error: {:?}", other),
        Ok(_) => panic!("no error"),
    }
}

fn superblock_bytes() -> Vec<u8> {
    let mut sb = vec![0u8; 1024];
    put32(&mut sb, 0, 8192);
    put32(&mut sb, 4, 100_000);
    put32(&mut sb, 12, 77);
    put32(&mut sb, 24, 2);
    put32(&mut sb, 32, 32768);
    put32(&mut sb, 40, 2048);
    put16(&mut sb, 56, 0xEF53);
    put16(&mut sb, 58, 1);
    put16(&mut sb, 60, 2);
    put32(&mut sb, 72, 0);
    put32(&mut sb, 76, 1);
    put16(&mut sb, 88, 256);
    sb[120..126].copy_from_slice(b"vendor");
    sb[252] = 1;
    put16(&mut sb, 254, 64);
    put32(&mut sb, 336, 1);
    put32(&mut sb, 344, 2);
    put32(&mut sb, 360, 0x89AB_CDEF);
    put32(&mut sb, 364, 0x0123_4567);
    put32(&mut sb, 1020, 0xDEAD_BEEF);
    sb
}

#[test]
fn integers_are_read_least_significant_byte_first() {
    let data = [0x01u8, 0x02, 0x03, 0x04, 0x05, 0x06, 0x07, 0x08, 0x09];
    assert_eq!(u8_at(&data, 8, ParseContext::Inode).unwrap(), 9);
    assert_eq!(u16_at(&data, 0, ParseContext::Inode).unwrap(), 0x0201);
    assert_eq!(u16_at(&data, 7, ParseContext::Inode).unwrap(), 0x0908);
    assert_eq!(u32_at(&data, 1, ParseContext::Inode).unwrap(), 0x0504_0302);
    assert_eq!(u64_at(&data, 1, ParseContext::Inode).unwrap(), 0x0908_0706_0504_0302);
    assert_eq!(u32_at(&[0xFF, 0xFF, 0xFF, 0xFF], 0, ParseContext::Inode).unwrap(), u32::MAX);
    assert_eq!(u16_at(&[0x00, 0x80], 0, ParseContext::Inode).unwrap(), 0x8000);
    assert_eq!(bytes_at(&data, 2, 3, ParseContext::Inode).unwrap(), vec![3, 4, 5]);
    assert_eq!(bytes_at(&data, 9, 0, ParseContext::Inode).unwrap(), Vec::<u8>::new());
    assert_eq!(
        u32s_at(&data, 0, 2, ParseContext::Inode).unwrap(),
        vec![0x0403_0201, 0x0807_0605]
    );
}

#[test]
fn reads_beyond_the_buffer_are_short_buffers() {
    let data = [1u8, 2, 3, 4];
    assert!(is_short(u8_at(&data, 4, ParseContext::Extent).map(|_| ()), ParseContext::Extent));
    assert!(is_short(u16_at(&data, 3, ParseContext::Extent).map(|_| ()), ParseContext::Extent));
    assert!(is_short(u32_at(&data, 1, ParseContext::Inode).map(|_| ()), ParseContext::Inode));
    assert!(is_short(u32_at(&data, 9, ParseContext::Inode).map(|_| ()), ParseContext::Inode));
    assert!(is_short(u64_at(&data, 0, ParseContext::Inode).map(|_| ()), ParseContext::Inode));
    assert!(is_short(
        u64_at(&data, usize::MAX, ParseContext::Inode).map(|_| ()),
        ParseContext::Inode
    ));
    assert!(is_short(
        bytes_at(&data, 2, 3, ParseContext::Superblock).map(|_| ()),
        ParseContext::Superblock
    ));
    assert!(is_short(
        u32s_at(&data, 0, 2, ParseContext::Inode).map(|_| ()),
        ParseContext::Inode
    ));
}

#[test]
fn halves_are_joined_high_above_low() {
    assert_eq!(combine_u32(1, 2), 0x1_0000_0002);
    assert_eq!(combine_u32(u32::MAX, u32::MAX), u64::MAX);
    assert_eq!(combine_u16(1, 2), 0x1_0002);
    assert_eq!(combine_u16(0xFFFF, 0xFFFF), u32::MAX);
    assert_eq!(table_offset(3, 256), 768);
    assert_eq!(table_offset(u32::MAX, u16::MAX), 0xFFFF_FFFF * 0xFFFF);
}

#[test]
fn nom_failures_are_short_buffers() {
    let error = Error::nom_parse(ParseContext::Extent, nom::error::ErrorKind::Eof);
    assert!(is_short(Err(error), ParseContext::Extent));
    assert!(is_short(
        Err(Error::invalid_data(ParseContext::Inode, "buffer too small")),
        ParseContext::Inode
    ));
    assert!(matches!(Error::inode_zero(), Error::InvalidInode { inode: 0, .. }));
    assert!(matches!(Error::unexpected_eof(), Error::Io(_)));
}

#[test]
fn parse_contexts_have_names() {
    let names = [
        (ParseContext::Superblock, "superblock"),
        (ParseContext::BlockGroupDescriptor, "block group descriptor"),
        (ParseContext::Inode, "inode"),
        (ParseContext::ExtentHeader, "extent header"),
        (ParseContext::ExtentIndex, "extent index"),
        (ParseContext::Extent, "extent"),
        (ParseContext::XAttrHeader, "xattr header"),
        (ParseContext::XAttrIbodyHeader, "xattr ibody header"),
        (ParseContext::XAttrEntry, "xattr entry"),
        (ParseContext::Capability, "capability"),
    ];
    for (context, name) in names {
        assert_eq!(context.as_str(), name);
        assert_eq!(context.to_string(), name);
    }
}

#[test]
fn a_short_descriptor_has_no_high_halves() {
    let mut data = vec![0u8; 32];
    put32(&mut data, 0, 5);
    put32(&mut data, 4, 6);
    put32(&mut data, 8, 7);
    put16(&mut data, 12, 100);
    put16(&mut data, 14, 200);
    put16(&mut data, 16, 3);
    put16(&mut data, 28, 9);
    put32(&mut data, 20, 11);
    let d = BlockGroupDescriptor::parse(&data).unwrap();
    assert_eq!(d.block_bitmap(), 5);
    assert_eq!(d.inode_bitmap(), 6);
    assert_eq!(d.inode_table_first_block(), 7);
    assert_eq!(d.free_blocks_count(), 100);
    assert_eq!(d.free_inodes_count(), 200);
    assert_eq!(d.used_dirs_count(), 3);
    assert_eq!(d.itable_unused(), 9);
    assert_eq!(d.exclude_bitmap(), 11);
    data.resize(63, 0xFF);
    let d = BlockGroupDescriptor::parse(&data).unwrap();
    assert_eq!(d.inode_table_first_block(), 7);
    assert_eq!(d.reserved, 0);
}

#[test]
fn a_long_descriptor_joins_both_halves() {
    let mut data = vec![0u8; 72];
    put32(&mut data, 0, 5);
    put32(&mut data, 4, 6);
    put32(&mut data, 8, 7);
    put16(&mut data, 12, 100);
    put16(&mut data, 14, 200);
    put16(&mut data, 16, 3);
    put32(&mut data, 20, 11);
    put16(&mut data, 28, 9);
    put32(&mut data, 32, 1);
    put32(&mut data, 36, 2);
    put32(&mut data, 40, 3);
    put16(&mut data, 44, 1);
    put16(&mut data, 46, 2);
    put16(&mut data, 48, 1);
    put16(&mut data, 50, 4);
    put32(&mut data, 52, 5);
    put32(&mut data, 60, 0xABCD);
    let d = BlockGroupDescriptor::parse(&data).unwrap();
    assert_eq!(d.block_bitmap(), 0x1_0000_0005);
    assert_eq!(d.inode_bitmap(), 0x2_0000_0006);
    assert_eq!(d.inode_table_first_block(), 0x3_0000_0007);
    assert_eq!(d.free_blocks_count(), 0x1_0064);
    assert_eq!(d.free_inodes_count(), 0x2_00C8);
    assert_eq!(d.used_dirs_count(), 0x1_0003);
    assert_eq!(d.itable_unused(), 0x4_0009);
    assert_eq!(d.exclude_bitmap(), 0x5_0000_000B);
    assert_eq!(d.reserved, 0xABCD);
    assert!(is_short(
        BlockGroupDescriptor::parse(&data[..31]).map(|_| ()),
        ParseContext::BlockGroupDescriptor
    ));
    assert_eq!(BlockGroupDescriptor::MIN_SIZE, 32);
    assert_eq!(BlockGroupDescriptor::MAX_SIZE, 64);
}

#[test]
fn the_superblock_is_decoded_field_by_field() {
    let sb = Superblock::parse(&superblock_bytes()).unwrap();
    assert_eq!(sb.inodes_count, 8192);
    assert_eq!(sb.blocks_count(), 0x1_0001_86A0);
    assert_eq!(sb.free_blocks_count(), 0x2_0000_004D);
    assert_eq!(sb.block_size(), 4096);
    assert_eq!(sb.inodes_per_group(), 2048);
    assert_eq!(sb.inode_size(), 256);
    assert_eq!(sb.descriptor_size(), 64);
    assert_eq!(sb.volume_name(), "vendor");
    assert_eq!(sb.revision(), Some(Revision::Dynamic));
    assert_eq!(sb.state, 1);
    assert_eq!(sb.errors, 2);
    assert_eq!(sb.default_hash_version, 1);
    assert_eq!(sb.mmp_block, 0x0123_4567_89AB_CDEF);
    assert_eq!(sb.checksum, 0xDEAD_BEEF);
    assert_eq!(sb.uuid, vec![0u8; 16]);
    assert_eq!(sb.padding.len(), 100);
    assert_eq!(sb.journal_blocks.len(), 17);
    assert_eq!(sb.block_group_count(), 131076);
    assert_eq!(Superblock::SIZE, 1024);
    assert_eq!(Superblock::SUPERBLOCK_OFFSET, 1024);
}

#[test]
fn the_superblock_is_refused_for_the_first_field_that_is_wrong() {
    let good = superblock_bytes();
    assert!(is_short(Superblock::parse(&good[..57]).map(|_| ()), ParseContext::Superblock));
    let mut wrong_magic = good.clone();
    put16(&mut wrong_magic, 56, 0x53EF);
    assert!(matches!(
        Superblock::parse(&wrong_magic[..58]),
        Err(Error::InvalidMagic(ParseContext::Superblock))
    ));
    assert!(matches!(
        Superblock::parse(&wrong_magic),
        Err(Error::InvalidMagic(ParseContext::Superblock))
    ));
    assert!(is_short(Superblock::parse(&good[..1023]).map(|_| ()), ParseContext::Superblock));
    let mut big_blocks = good.clone();
    put32(&mut big_blocks, 24, 7);
    put32(&mut big_blocks, 32, 0);
    assert_eq!(
        message_of(Superblock::parse(&big_blocks)),
        (ParseContext::Superblock, "block size out of range".to_string())
    );
    let mut no_blocks = good.clone();
    put32(&mut no_blocks, 32, 0);
    put32(&mut no_blocks, 40, 0);
    assert_eq!(
        message_of(Superblock::parse(&no_blocks)),
        (ParseContext::Superblock, "blocks per group is zero".to_string())
    );
    let mut no_inodes = good.clone();
    put32(&mut no_inodes, 40, 0);
    assert_eq!(
        message_of(Superblock::parse(&no_inodes)),
        (ParseContext::Superblock, "inodes per group is zero".to_string())
    );
    let mut largest = good;
    put32(&mut largest, 24, 6);
    assert_eq!(Superblock::parse(&largest).unwrap().block_size(), 65536);
}

#[test]
fn the_geometry_follows_from_the_superblock() {
    let mut bytes = superblock_bytes();
    put32(&mut bytes, 24, 0);
    put32(&mut bytes, 336, 0);
    put32(&mut bytes, 4, 8193);
    put32(&mut bytes, 32, 8192);
    put32(&mut bytes, 0, 5000);
    put16(&mut bytes, 254, 0);
    put32(&mut bytes, 76, 0);
    bytes[120..136].copy_from_slice(b"sixteen-letters!");
    let sb = Superblock::parse(&bytes).unwrap();
    assert_eq!(sb.block_size(), 1024);
    assert_eq!(sb.block_group_count(), 2);
    assert_eq!(sb.descriptor_size(), 32);
    assert_eq!(sb.inodes_in_group_cnt(0), 2048);
    assert_eq!(sb.inodes_in_group_cnt(1), 2952);
    assert_eq!(sb.revision(), Some(Revision::Original));
    assert_eq!(sb.volume_name(), "sixteen-letters!");
    put16(&mut bytes, 254, 31);
    bytes[120] = 0xFF;
    put32(&mut bytes, 76, 2);
    let sb = Superblock::parse(&bytes).unwrap();
    assert_eq!(sb.descriptor_size(), 32);
    assert_eq!(sb.volume_name(), "");
    assert_eq!(sb.revision(), None);
    bytes[120] = 0;
    assert_eq!(Superblock::parse(&bytes).unwrap().volume_name(), "");
}

#[test]
fn enumerated_fields_are_decoded_where_they_name_something() {
    assert_eq!(State::from_raw(1), Some(State::Clean));
    assert_eq!(State::from_raw(2), Some(State::Errors));
    assert_eq!(State::from_raw(4), Some(State::Orphan));
    assert_eq!(State::from_raw(3), None);
    assert_eq!(ErrorPolicy::from_raw(1), Some(ErrorPolicy::Continue));
    assert_eq!(ErrorPolicy::from_raw(2), Some(ErrorPolicy::ReadOnly));
    assert_eq!(ErrorPolicy::from_raw(3), Some(ErrorPolicy::Panic));
    assert_eq!(ErrorPolicy::from_raw(0), None);
    assert_eq!(Revision::from_raw(0), Some(Revision::Original));
    assert_eq!(Revision::from_raw(1), Some(Revision::Dynamic));
    assert_eq!(Revision::from_raw(2), None);
    assert_eq!(CreatorOS::from_raw(0), Some(CreatorOS::Linux));
    assert_eq!(CreatorOS::from_raw(1), Some(CreatorOS::Hurd));
    assert_eq!(CreatorOS::from_raw(2), Some(CreatorOS::Masix));
    assert_eq!(CreatorOS::from_raw(3), Some(CreatorOS::FreeBSD));
    assert_eq!(CreatorOS::from_raw(4), Some(CreatorOS::Lites));
    assert_eq!(CreatorOS::from_raw(5), None);
    assert_eq!(DefaultHashVersion::from_raw(0), Some(DefaultHashVersion::Legacy));
    assert_eq!(DefaultHashVersion::from_raw(1), Some(DefaultHashVersion::HalfMD4));
    assert_eq!(DefaultHashVersion::from_raw(2), Some(DefaultHashVersion::Tea));
    assert_eq!(DefaultHashVersion::from_raw(3), Some(DefaultHashVersion::LegacyUnsigned));
    assert_eq!(DefaultHashVersion::from_raw(4), Some(DefaultHashVersion::HalfMD4Unsigned));
    assert_eq!(DefaultHashVersion::from_raw(5), Some(DefaultHashVersion::TeaUnsigned));
    assert_eq!(DefaultHashVersion::from_raw(6), None);
    assert_eq!(EncryptionAlgorithm::from_raw(0), Some(EncryptionAlgorithm::Invalid));
    assert_eq!(EncryptionAlgorithm::from_raw(1), Some(EncryptionAlgorithm::Aes256Xts));
    assert_eq!(EncryptionAlgorithm::from_raw(2), Some(EncryptionAlgorithm::Aes256Gcm));
    assert_eq!(EncryptionAlgorithm::from_raw(3), Some(EncryptionAlgorithm::Aes256Cbc));
    assert_eq!(EncryptionAlgorithm::from_raw(4), None);
}

#[test]
fn feature_sets_keep_the_bits_that_have_a_meaning() {
    let all = 0xFFFF_FFFFu32.to_le_bytes();
    assert_eq!(CompatibleFeatures::parse(&all).unwrap().bits(), 0x17FF);
    assert_eq!(IncompatibleFeatures::parse(&all).unwrap().bits(), 0x1_F7DF);
    assert_eq!(ReadOnlyCompatibleFeatures::parse(&all).unwrap().bits(), 0x1_BFFF);
    assert_eq!(DefaultMountOptions::parse(&all).unwrap().bits(), 0x0F7F);
    assert_eq!(android_ext4::ext4::superblock::Flags::parse(&all).unwrap().bits(), 0x7);
    let features = IncompatibleFeatures::from_bits_truncate(0x2C2);
    assert!(features.contains(IncompatibleFeatures::EXTENTS | IncompatibleFeatures::BIT64));
    assert!(features.contains(IncompatibleFeatures::FILE_TYPE));
    assert!(!features.contains(IncompatibleFeatures::INLINE_DATA));
    assert!(is_short(
        CompatibleFeatures::parse(&all[..3]).map(|_| ()),
        ParseContext::Superblock
    ));
    let mut bytes = superblock_bytes();
    put32(&mut bytes, 92, 0x803C);
    put32(&mut bytes, 96, 0x2C2);
    put32(&mut bytes, 100, 0x4_0003);
    put32(&mut bytes, 256, 0x100C);
    put32(&mut bytes, 352, 0x9);
    let sb = Superblock::parse(&bytes).unwrap();
    assert_eq!(sb.features_compatible.bits(), 0x3C);
    assert_eq!(sb.features_incompatible.bits(), 0x2C2);
    assert_eq!(sb.features_read_only.bits(), 0x3);
    assert_eq!(sb.default_mount_opts.bits(), 0xC);
    assert_eq!(sb.flags.bits(), 0x1);
    assert!(sb.features_compatible.contains(CompatibleFeatures::HAS_JOURNAL));
    assert!(sb.features_read_only.contains(ReadOnlyCompatibleFeatures::LARGE_FILE));
    assert!(sb.default_mount_opts.contains(DefaultMountOptions::ACL));
}

#[test]
fn extent_headers_are_checked_in_stored_order() {
    let mut data = vec![0u8; 12];
    put16(&mut data, 0, 0xF30A);
    put16(&mut data, 2, 3);
    put16(&mut data, 4, 4);
    put16(&mut data, 6, 1);
    put32(&mut data, 8, 99);
    let header = ExtentHeader::parse(&data).unwrap();
    assert_eq!(header.entries_count(), 3);
    assert_eq!(header.depth(), 1);
    assert_eq!(header.max_entries_count, 4);
    assert_eq!(header.generation, 99);
    assert!(is_short(ExtentHeader::parse(&data[..1]).map(|_| ()), ParseContext::ExtentHeader));
    assert!(is_short(ExtentHeader::parse(&data[..11]).map(|_| ()), ParseContext::ExtentHeader));
    put16(&mut data, 2, 5);
    assert_eq!(
        message_of(ExtentHeader::parse(&data)),
        (ParseContext::ExtentHeader, "entry count exceeds the node's capacity".to_string())
    );
    put16(&mut data, 0, 0xF30B);
    assert!(matches!(
        ExtentHeader::parse(&data[..2]),
        Err(Error::InvalidMagic(ParseContext::ExtentHeader))
    ));
    assert_eq!(ExtentHeader::SIZE, 12);
}

#[test]
fn extents_know_their_length_and_place() {
    let mut data = vec![0u8; 13];
    put32(&mut data, 0, 7);
    put16(&mut data, 4, 32768);
    put16(&mut data, 6, 0x12);
    put32(&mut data, 8, 0x3456_789A);
    let extent = Extent::parse(&data).unwrap();
    assert_eq!(extent.first_block(), 7);
    assert_eq!(extent.start_block(), 0x12_3456_789A);
    assert!(!extent.is_unwritten());
    assert_eq!(extent.get_actual_len(), 32768);
    put16(&mut data, 4, 32769);
    let extent = Extent::parse(&data).unwrap();
    assert!(extent.is_unwritten());
    assert_eq!(extent.get_actual_len(), 1);
    put16(&mut data, 4, 65535);
    assert_eq!(Extent::parse(&data).unwrap().get_actual_len(), 32767);
    assert!(is_short(Extent::parse(&data[..11]).map(|_| ()), ParseContext::Extent));
    assert_eq!(Extent::INIT_MAX_LEN, 32768);
    assert_eq!(Extent::UNWRITTEN_MAX_LEN, 65535);
    assert_eq!(Extent::EXT_MAX_BLOCKS, u32::MAX);
    assert_eq!(Extent::SIZE, 12);
}

#[test]
fn index_entries_name_their_child() {
    let mut data = vec![0u8; 12];
    put32(&mut data, 0, 64);
    put32(&mut data, 4, 0xAABB_CCDD);
    put16(&mut data, 8, 0x0102);
    put16(&mut data, 10, 7);
    let index = ExtentIndex::parse(&data).unwrap();
    assert_eq!(index.first_block, 64);
    assert_eq!(index.leaf_block(), 0x0102_AABB_CCDD);
    assert_eq!(index.padding, 7);
    assert!(is_short(ExtentIndex::parse(&data[..11]).map(|_| ()), ParseContext::ExtentIndex));
    assert_eq!(ExtentIndex::SIZE, 12);
    assert_eq!(ExtentIndex::MAX_INDEX_COUNT, 340);
}

#[test]
fn the_kind_of_object_is_in_the_top_four_bits() {
    assert_eq!(FileType::from_mode(0x1000), Some(FileType::Fifo));
    assert_eq!(FileType::from_mode(0x21FF), Some(FileType::CharacterDevice));
    assert_eq!(FileType::from_mode(0x41ED), Some(FileType::Directory));
    assert_eq!(FileType::from_mode(0x6000), Some(FileType::BlockDevice));
    assert_eq!(FileType::from_mode(0x81A4), Some(FileType::RegularFile));
    assert_eq!(FileType::from_mode(0xA1FF), Some(FileType::SymbolicLink));
    assert_eq!(FileType::from_mode(0xC000), Some(FileType::Socket));
    for unknown in [0x0000u16, 0x3000, 0x5000, 0x7000, 0x9000, 0xB000, 0xD000, 0xE000, 0xF000] {
        assert_eq!(FileType::from_mode(unknown | 0o644), None);
    }
}

#[test]
fn modes_are_written_in_four_octal_digits() {
    assert_eq!(Mode::from_bits_truncate(0x8000 | 0o644).permissions_string(), "0644");
    assert_eq!(Mode::from_bits_truncate(0x4000 | 0o755).permissions_string(), "0755");
    assert_eq!(Mode::from_bits_truncate(0o7777).permissions_string(), "7777");
    assert_eq!(Mode::from_bits_truncate(0).permissions_string(), "0000");
    assert_eq!(Mode::from_bits_truncate(0xF000 | 0o4001).permissions_string(), "4001");
    let mode = Mode::parse(&[0xED, 0x41]).unwrap();
    assert_eq!(mode.bits(), 0x41ED);
    assert_eq!(mode.file_type(), Some(FileType::Directory));
    assert!(mode.contains(Mode::TYPE_DIRECTORY | Mode::OWNER_READ));
    assert!(!mode.contains(Mode::SET_UID));
    assert!(is_short(Mode::parse(&[1]).map(|_| ()), ParseContext::Inode));
}

#[test]
fn flags_without_a_meaning_are_dropped() {
    let flags = Flags::parse(&0xFFFF_FFFFu32.to_le_bytes()).unwrap();
    assert_eq!(flags.bits(), 0xBD7F_FFFF);
    assert!(flags.contains(Flags::EXTENTS));
    assert_eq!(flags.user_visible().bits(), 0x305B_DFFF);
    assert_eq!(flags.user_modifiable().bits(), 0x204B_C0FF);
    let flags = Flags::from_bits_truncate(0x0080_0000 | Flags::INLINE_DATA);
    assert_eq!(flags.bits(), Flags::INLINE_DATA);
    assert!(!flags.contains(Flags::EXTENTS));
    assert!(is_short(Flags::parse(&[1, 2, 3]).map(|_| ()), ParseContext::Inode));
}

#[test]
fn the_linux_fields_are_six_halves() {
    let mut data = vec![0u8; 12];
    for i in 0..6 {
        put16(&mut data, 2 * i, 10 + i as u16);
    }
    let osd2 = Linux2::parse(&data).unwrap();
    assert_eq!(
        osd2,
        Linux2 {
            blocks_high: 10,
            file_acl_high: 11,
            uid_high: 12,
            gid_high: 13,
            checksum_lo: 14,
            reserved: 15
        }
    );
    assert!(is_short(Linux2::parse(&data[..11]).map(|_| ()), ParseContext::Inode));
}

fn inode_bytes(length: usize) -> Vec<u8> {
    let mut data = vec![0u8; length];
    put16(&mut data, 0, 0x81A4);
    put16(&mut data, 2, 1000);
    put32(&mut data, 4, 0x1234);
    put16(&mut data, 24, 2000);
    put16(&mut data, 26, 3);
    put32(&mut data, 32, 0x0008_0000);
    for i in 0..15 {
        put32(&mut data, 40 + 4 * i, 100 + i as u32);
    }
    put32(&mut data, 104, 0x55);
    put32(&mut data, 108, 2);
    put16(&mut data, 118, 1);
    put16(&mut data, 120, 1);
    put16(&mut data, 122, 2);
    data
}

#[test]
fn an_inode_of_the_old_size_has_no_extra_fields() {
    let inode = Inode::parse(&inode_bytes(128)).unwrap();
    assert_eq!(inode.mode().bits(), 0x81A4);
    assert_eq!(inode.file_type(), Some(FileType::RegularFile));
    assert!(inode.is_regular_file());
    assert!(!inode.is_directory());
    assert!(!inode.is_symlink());
    assert!(!inode.is_fast_symlink());
    assert!(inode.uses_extents());
    assert_eq!(inode.uid(), 0x1_03E8);
    assert_eq!(inode.gid(), 0x2_07D0);
    assert_eq!(inode.size(), 0x2_0000_1234);
    assert_eq!(inode.links_count, 3);
    assert_eq!(inode.block[0], 100);
    assert_eq!(inode.block[14], 114);
    assert_eq!(inode.xattr_block_number(), Some(0x1_0000_0055));
    assert_eq!(inode.permissions().bits(), 0o644);
    assert_eq!(inode.extra_isize, 0);
    assert!(inode.xattrs().is_empty());
    let mut longer = inode_bytes(159);
    put16(&mut longer, 128, 28);
    assert_eq!(Inode::parse(&longer).unwrap().extra_isize, 0);
    assert!(is_short(Inode::parse(&inode_bytes(127)).map(|_| ()), ParseContext::Inode));
    assert_eq!(Inode::ROOT_INODE, 2);
    assert_eq!(Inode::GOOD_OLD_SIZE, 128);
    assert_eq!(Inode::DIRECT_BLOCKS, 12);
    assert_eq!(Inode::FAST_SYMLINK_MAX_SIZE, 60);
}

#[test]
fn the_extra_fields_say_where_the_attributes_start() {
    let mut data = inode_bytes(256);
    put16(&mut data, 128, 32);
    put16(&mut data, 130, 7);
    put32(&mut data, 144, 0x6000_0000);
    put32(&mut data, 156, 42);
    put32(&mut data, 160, 0xEA02_0000);
    let inode = Inode::parse(&data).unwrap();
    assert_eq!(inode.extra_isize, 32);
    assert_eq!(inode.checksum_hi, 7);
    assert_eq!(inode.crtime, 0x6000_0000);
    assert_eq!(inode.project_id, 42);
    assert_eq!(
        message_of(Inode::parse(&{
            let mut d = data.clone();
            put16(&mut d, 128, 129);
            d
        })),
        (ParseContext::Inode, "extra size exceeds available data".to_string())
    );
    let mut at_the_end = data.clone();
    put16(&mut at_the_end, 128, 125);
    assert!(Inode::parse(&at_the_end).unwrap().xattrs().is_empty());
    put32(&mut data, 160, 0);
    assert!(matches!(
        Inode::parse(&data),
        Err(Error::InvalidMagic(ParseContext::XAttrIbodyHeader))
    ));
}

#[test]
fn directory_entries_record_a_kind() {
    let kinds = [
        DirEntryType::Unknown,
        DirEntryType::RegFile,
        DirEntryType::Dir,
        DirEntryType::ChrDev,
        DirEntryType::BlkDev,
        DirEntryType::Fifo,
        DirEntryType::Sock,
        DirEntryType::Symlink,
    ];
    for (raw, kind) in kinds.iter().enumerate() {
        assert_eq!(DirEntryType::from(raw as u8), *kind);
    }
    assert_eq!(DirEntryType::from(8), DirEntryType::Unknown);
    assert_eq!(DirEntryType::from(255), DirEntryType::Unknown);
    let entry = DirectoryEntry {
        inode: 5,
        entry_len: 12,
        name_len: 2,
        inode_type: 7,
        name: name_bytes(&[0xC3, 0xA9]),
    };
    assert_eq!(entry.name_str(), "é");
    assert_eq!(entry.entry_type(), DirEntryType::Symlink);
    let broken = DirectoryEntry { name: name_bytes(&[0xC3]), name_len: 1, ..entry };
    assert_eq!(broken.name_str(), "");
    let cut = DirectoryEntry { name_len: 1, ..entry };
    assert_eq!(cut.name_str(), "");
    let copy = entry;
    assert_eq!(copy.name_str(), entry.name_str());
    assert_eq!(DirectoryEntry::HEADER_SIZE, 8);
    assert_eq!(DirectoryEntry::MAX_NAME_LEN, 255);
}

#[test]
fn a_name_is_its_first_bytes_and_no_more() {
    let entry = DirectoryEntry {
        inode: 12,
        entry_len: 16,
        name_len: 5,
        inode_type: 1,
        name: name_bytes(b"a.txtXYZ"),
    };
    assert_eq!(entry.name_str(), "a.txt");
    assert_eq!(DirectoryEntry { name_len: 8, ..entry }.name_str(), "a.txtXYZ");
    assert_eq!(DirectoryEntry { name_len: 9, ..entry }.name_str(), "a.txtXYZ\0");
    assert_eq!(DirectoryEntry { name_len: 0, ..entry }.name_str(), "");
    assert_eq!(DirectoryEntry { name_len: 1, ..entry }.name_str(), "a");
    let full = DirectoryEntry { name_len: 255, name: [b'x'; 255], ..entry };
    assert_eq!(full.name_str().len(), 255);
    let mut data = vec![0u8; 32];
    record(&mut data, 0, 7, 32, b"a.txt");
    data[13..16].copy_from_slice(b"XYZ");
    let entries = decode_entries(&data);
    assert_eq!(entries[0].name_str(), "a.txt");
    assert_eq!(entries[0].name, name_bytes(b"a.txt"));
}

fn record(data: &mut [u8], at: usize, inode: u32, rec_len: u16, name: &[u8]) {
    put32(data, at, inode);
    put16(data, at + 4, rec_len);
    data[at + 6] = name.len() as u8;
    data[at + 7] = 1;
    data[at + 8..at + 8 + name.len()].copy_from_slice(name);
}

#[test]
fn erased_records_are_passed_over() {
    let mut data = vec![0u8; 64];
    record(&mut data, 0, 2, 12, b".");
    record(&mut data, 12, 0, 16, b"erased");
    record(&mut data, 28, 9, 36, b"kept");
    let entries = decode_entries(&data);
    assert_eq!(entries.len(), 2);
    assert_eq!(entries[0].name_str(), ".");
    assert_eq!(entries[0].inode, 2);
    assert_eq!(entries[1].name_str(), "kept");
    assert_eq!(entries[1].inode, 9);
    assert_eq!(entries[1].entry_len, 36);
    assert_eq!(entries[1].name_len, 4);
    assert_eq!(entries[1].inode_type, 1);
}

#[test]
fn a_directory_ends_at_a_record_without_a_length() {
    let mut data = vec![0u8; 64];
    record(&mut data, 0, 2, 12, b"a");
    record(&mut data, 12, 3, 0, b"b");
    assert_eq!(decode_entries(&data).len(), 1);
    record(&mut data, 12, 3, 53, b"b");
    assert_eq!(decode_entries(&data).len(), 1);
    record(&mut data, 12, 3, 52, b"b");
    assert_eq!(decode_entries(&data).len(), 2);
    record(&mut data, 12, 3, 45, b"b");
    assert_eq!(decode_entries(&data).len(), 2);
    assert_eq!(decode_entries(&data[..19]).len(), 1);
    assert_eq!(decode_entries(&[]).len(), 0);
}

#[test]
fn a_name_beyond_the_data_is_not_read() {
    let mut data = vec![0u8; 32];
    record(&mut data, 0, 2, 12, b"a");
    record(&mut data, 12, 3, 20, b"bcdefghijklm");
    let entries = decode_entries(&data);
    assert_eq!(entries.len(), 2);
    assert_eq!(entries[1].name_str(), "bcdefghijklm");
    data[12 + 6] = 13;
    let entries = decode_entries(&data);
    assert_eq!(entries.len(), 2);
    assert_eq!(entries[1].inode, 3);
    assert_eq!(entries[1].name_len, 13);
    assert_eq!(entries[1].name, [0u8; 255]);
    assert_eq!(entries[1].name_str(), "\0".repeat(13));
    record(&mut data, 0, 2, 8, b"");
    record(&mut data, 8, 4, 24, b"over");
    data[8 + 6] = 12;
    let entries = decode_entries(&data);
    assert_eq!(entries.len(), 2);
    assert_eq!(entries[0].name_str(), "");
    assert_eq!(entries[1].name_len, 12);
    assert_eq!(&entries[1].name[..4], b"over");
}

#[test]
fn decoding_a_directory_twice_gives_the_same_entries() {
    let mut data = vec![0u8; 64];
    record(&mut data, 0, 2, 12, b".");
    record(&mut data, 12, 2, 12, b"..");
    record(&mut data, 24, 9, 40, b"file");
    let first = decode_entries(&data);
    let second = decode_entries(&data);
    assert_eq!(first.len(), second.len());
    for (a, b) in first.iter().zip(second.iter()) {
        assert_eq!(
            (a.inode, a.entry_len, a.name_len, a.inode_type, &a.name),
            (b.inode, b.entry_len, b.name_len, b.inode_type, &b.name)
        );
    }
}

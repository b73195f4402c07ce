//! The lines of `fs_config` and `file_contexts`, and the texts they are
//! made of.

use android_ext4::ext4::inode::{FileType, Mode};
use android_ext4::extract::{list_names, mount_name, payload_for, Payload};
use android_ext4::ext4::text::{
    digit, from_chars, lossy_text, push_chars, push_number, push_text, same_bytes, same_text,
    text_or_empty, to_chars,
};
use android_ext4::utils::push_joined;
use android_ext4::ext4::walker::EntryAttributes;
use android_ext4::sidecar::{
    contains, default_output_path, escape_regex, file_contexts_lines, fs_config_header,
    fs_config_line, num_cpus, special, symlink_sentinel,
};

fn attributes(mode: u16, selinux: Option<&str>, capabilities: Option<u64>) -> EntryAttributes {
    EntryAttributes {
        mode: Mode::from_bits_truncate(mode),
        uid: 1000,
        gid: 2000,
        selinux: selinux.map(|s| s.to_string()),
        capabilities,
    }
}

fn number(n: u64, base: u64) -> String {
    let mut out = String::from("<");
    push_number(&mut out, n, base);
    out
}

#[test]
fn numbers_are_written_without_leading_zeros() {
    assert_eq!(number(0, 10), "<0");
    assert_eq!(number(7, 10), "<7");
    assert_eq!(number(10, 10), "<10");
    assert_eq!(number(65537, 10), "<65537");
    assert_eq!(number(u64::MAX, 10), "<18446744073709551615");
    assert_eq!(number(0x2000, 16), "<2000");
    assert_eq!(number(0xDEAD_BEEF, 16), "<deadbeef");
    assert_eq!(number(u64::MAX, 16), "<ffffffffffffffff");
    assert_eq!(number(0o755, 8), "<755");
    assert_eq!(number(5, 2), "<101");
    let digits: String = (0..16).map(digit).collect();
    assert_eq!(digits, "0123456789abcdef");
}

#[test]
fn texts_are_built_from_characters() {
    assert_eq!(to_chars("aé𝄞"), vec!['a', 'é', '𝄞']);
    assert_eq!(from_chars(&['a', 'é', '𝄞']), "aé𝄞");
    assert_eq!(from_chars(&[]), "");
    let mut out = String::from("x");
    push_text(&mut out, "yz");
    push_chars(&mut out, &['!']);
    push_text(&mut out, "");
    assert_eq!(out, "xyz!");
    assert!(same_text("abc", "abc"));
    assert!(!same_text("abc", "abd"));
    assert!(!same_text("abc", "ab"));
    assert!(same_text("", ""));
    assert!(same_bytes(&[1, 2], &[1, 2]));
    assert!(!same_bytes(&[1, 2], &[2, 1]));
    assert_eq!(text_or_empty(b"caf\xC3\xA9"), "café");
    assert_eq!(text_or_empty(b"caf\xC3"), "");
    assert_eq!(text_or_empty(b""), "");
    assert_eq!(lossy_text(b"caf\xC3\xA9"), "café");
    assert_eq!(lossy_text(b"caf\xC3"), "caf\u{FFFD}");
    assert_eq!(lossy_text(b""), "");
    let mut path = String::from("/");
    push_joined(&mut path, &vec![vec!['a'], vec!['b', 'c'], vec!['d']]);
    assert_eq!(path, "/a/bc/d");
    push_joined(&mut path, &vec![]);
    push_joined(&mut path, &vec![vec!['!']]);
    assert_eq!(path, "/a/bc/d!");
}

#[test]
fn special_characters_are_escaped() {
    assert_eq!(escape_regex("build.prop"), "build\\.prop");
    assert_eq!(escape_regex("plain/path_1-2"), "plain/path_1-2");
    assert_eq!(escape_regex(""), "");
    assert_eq!(
        escape_regex("\\^$.|?*+(){}[]"),
        "\\\\\\^\\$\\.\\|\\?\\*\\+\\(\\)\\{\\}\\[\\]"
    );
    assert_eq!(escape_regex("a+b é"), "a\\+b é");
    for c in "\\^$.|?*+(){}[]".chars() {
        assert!(special(c));
    }
    for c in "/-_ a0é#@!".chars() {
        assert!(!special(c));
    }
}

#[test]
fn texts_are_searched_for_texts() {
    assert!(contains("/system/build.prop", "/system/build.prop"));
    assert!(contains("/x/system/build.prop.bak", "/system/build.prop"));
    assert!(!contains("/system/build.pro", "/system/build.prop"));
    assert!(!contains("", "a"));
    assert!(contains("", ""));
    assert!(contains("abc", ""));
    assert!(contains("aab", "ab"));
    assert!(!contains("aba", "bb"));
}

#[test]
fn every_fs_config_starts_with_the_same_two_lines() {
    assert_eq!(
        fs_config_header("system"),
        vec!["/ 0 0 0755".to_string(), "system 0 0 0755".to_string()]
    );
}

#[test]
fn an_fs_config_line_names_owner_group_and_mode() {
    let plain = attributes(0x8000 | 0o644, None, None);
    assert_eq!(fs_config_line("system", "/a.txt", &plain), "system/a.txt 1000 2000 0644");
    let capable = attributes(0x8000 | 0o755, None, Some(0x2000));
    assert_eq!(
        fs_config_line("system", "/bin/run", &capable),
        "system/bin/run 1000 2000 0755 capabilities=0x2000"
    );
    assert_eq!(plain.mode_string(), "0644");
    assert_eq!(plain.mode_with_caps(), "0644");
    assert_eq!(capable.mode_with_caps(), "0755 capabilities=0x2000");
    assert_eq!(capable.capabilities(), Some(0x2000));
    assert_eq!(plain.selinux(), None);
    assert_eq!(plain.uid(), 1000);
    assert_eq!(plain.gid(), 2000);
}

#[test]
fn file_contexts_has_a_rule_for_every_label() {
    let label = "u:object_r:system_file:s0";
    let file = attributes(0x8000 | 0o644, Some(label), None);
    assert_eq!(
        file_contexts_lines("vol", "/lib/a+b.so", &file),
        vec!["/vol/lib/a\\+b\\.so u:object_r:system_file:s0".to_string()]
    );
    let directory = attributes(0x4000 | 0o755, Some(label), None);
    assert_eq!(
        file_contexts_lines("vol", "/lib", &directory),
        vec![
            "/vol/lib u:object_r:system_file:s0".to_string(),
            "/vol/lib(/.*)? u:object_r:system_file:s0".to_string()
        ]
    );
    let unlabelled = attributes(0x8000 | 0o644, None, None);
    assert!(file_contexts_lines("vol", "/lib", &unlabelled).is_empty());
}

#[test]
fn the_build_properties_bring_the_rules_for_the_root() {
    let unlabelled = attributes(0x8000 | 0o644, None, None);
    assert_eq!(
        file_contexts_lines("v.1", "/system/build.prop", &unlabelled),
        vec![
            "/v\\.1 u:object_r:rootfs:s0".to_string(),
            "/v\\.1(/.*)? u:object_r:rootfs:s0".to_string()
        ]
    );
    let directory = attributes(0x4000 | 0o755, None, None);
    assert!(file_contexts_lines("vol", "/system/build.prop", &directory).is_empty());
    assert!(file_contexts_lines("vol", "/system/build.pro", &unlabelled).is_empty());
}

#[test]
fn defaults_for_the_command_line() {
    assert_eq!(default_output_path(1_700_000_000), "output-1700000000");
    assert_eq!(default_output_path(0), "output-0");
    assert_eq!(num_cpus(None), 1);
    assert_eq!(num_cpus(Some(0)), 1);
    assert_eq!(num_cpus(Some(1)), 1);
    assert_eq!(num_cpus(Some(4)), 1);
    assert_eq!(num_cpus(Some(5)), 2);
    assert_eq!(num_cpus(Some(16)), 4);
    assert_eq!(num_cpus(Some(usize::MAX)), usize::MAX / 4 + 1);
}

#[test]
fn a_link_is_written_as_a_marked_file_where_links_are_missing() {
    assert_eq!(
        symlink_sentinel("a"),
        vec![b'!', b'<', b's', b'y', b'm', b'l', b'i', b'n', b'k', b'>', 0xFF, 0xFE, b'a', 0, 0, 0]
    );
    let mut expected = b"!<symlink>\xFF\xFE".to_vec();
    for unit in "/é/𝄞".encode_utf16() {
        expected.extend_from_slice(&unit.to_le_bytes());
    }
    expected.extend_from_slice(&[0, 0]);
    assert_eq!(symlink_sentinel("/é/𝄞"), expected);
    assert_eq!(symlink_sentinel("").len(), 14);
}

#[test]
fn each_kind_of_entry_has_its_payload() {
    assert_eq!(payload_for(FileType::RegularFile), Payload::Data);
    assert_eq!(payload_for(FileType::SymbolicLink), Payload::Link);
    assert_eq!(payload_for(FileType::Directory), Payload::Directory);
    for kind in
        [FileType::Fifo, FileType::CharacterDevice, FileType::BlockDevice, FileType::Socket]
    {
        assert_eq!(payload_for(kind), Payload::Nothing);
    }
}

#[test]
fn a_volume_is_extracted_under_its_label() {
    assert_eq!(mount_name(Some("system".to_string()), Some("image")), "system");
    assert_eq!(mount_name(None, Some("image")), "image");
    assert_eq!(mount_name(None, None), "unknown");
    assert_eq!(
        list_names("system"),
        ("system_fs_config".to_string(), "system_file_contexts".to_string())
    );
}

#[test]
fn the_rules_for_the_build_properties_of_a_labelled_image() {
    let file = attributes(0x8000 | 0o644, Some("u:object_r:system_file:s0"), None);
    assert_eq!(
        file_contexts_lines("V", "/system/build.prop", &file),
        vec![
            "/V/system/build\\.prop u:object_r:system_file:s0".to_string(),
            "/V u:object_r:rootfs:s0".to_string(),
            "/V(/.*)? u:object_r:rootfs:s0".to_string(),
        ]
    );
}

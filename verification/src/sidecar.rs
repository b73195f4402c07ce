//! The two lists that an Android build keeps beside an extracted image:
//! `fs_config`, with the owner and mode of every entry, and
//! `file_contexts`, with the SELinux label of every entry.

use crate::ext4::inode::FileType;
use crate::ext4::text::{digits, push_number, push_text, to_chars};
use crate::ext4::walker::{AttributesView, EntryAttributes, WalkItem, WalkItemView};
use vstd::prelude::*;

verus! {

/// The label that the rules for the root directory give.
pub open spec fn root_label() -> Seq<char> {
    "u:object_r:rootfs:s0"@
}

/// Whether `c` has a meaning of its own in a regular expression.
pub open spec fn is_special(c: char) -> bool {
    c == '\\' || c == '^' || c == '$' || c == '.' || c == '|' || c == '?' || c == '*' || c == '+'
        || c == '(' || c == ')' || c == '{' || c == '}' || c == '[' || c == ']'
}

/// `text` with a backslash before every character that has a meaning of
/// its own in a regular expression.
pub open spec fn escaped(text: Seq<char>) -> Seq<char>
    decreases text.len(),
{
    if text.len() == 0 {
        Seq::empty()
    } else if is_special(text.last()) {
        escaped(text.drop_last()).push('\\').push(text.last())
    } else {
        escaped(text.drop_last()).push(text.last())
    }
}

/// Whether `c` has a meaning of its own in a regular expression.
pub fn special(c: char) -> (r: bool)
    ensures
        r == is_special(c),
{
    c == '\\' || c == '^' || c == '$' || c == '.' || c == '|' || c == '?' || c == '*' || c == '+'
        || c == '(' || c == ')' || c == '{' || c == '}' || c == '[' || c == ']'
}

/// Escapes `s` for use as a literal in a rule of `file_contexts`.
pub fn escape_regex(s: &str) -> (r: String)
    ensures
        r@ == escaped(s@),
{
    let mut result = String::new();
    for c in it: s.chars()
        invariant
            it.seq() == s@,
            result@ == escaped(s@.take(it.index())),
    {
        assert(s@.take(it.index() + 1).drop_last() == s@.take(it.index()));
        if special(c) {
            result.push('\\');
        }
        result.push(c);
    }
    assert(s@.take(s@.len() as int) == s@);
    result
}

/// Whether `needle` occurs in `text` at index `at`.
pub open spec fn occurs_at(text: Seq<char>, needle: Seq<char>, at: int) -> bool {
    0 <= at && at + needle.len() <= text.len() && text.subrange(at, at + needle.len()) == needle
}

/// Whether `needle` occurs somewhere in `text`.
pub open spec fn contains_text(text: Seq<char>, needle: Seq<char>) -> bool {
    exists|at: int| occurs_at(text, needle, at)
}

/// Whether `needle` occurs in `text` at index `at`.
fn matches_at(text: &[char], needle: &[char], at: usize) -> (r: bool)
    requires
        at + needle@.len() <= text@.len(),
    ensures
        r == occurs_at(text@, needle@, at as int),
{
    let mut k: usize = 0;
    let length = text.len();
    while k < needle.len()
        invariant
            k <= needle@.len(),
            at + needle@.len() <= text@.len() == length,
            text@.subrange(at as int, at + k) == needle@.take(k as int),
        decreases needle@.len() - k,
    {
        if text[at + k] != needle[k] {
            assert(text@.subrange(at as int, at + needle@.len())[k as int] != needle@[k as int]);
            return false;
        }
        assert(text@.subrange(at as int, at + k + 1) =~= text@.subrange(at as int, at + k).push(
            text@[at + k],
        ));
        assert(needle@.take(k + 1) =~= needle@.take(k as int).push(needle@[k as int]));
        k += 1;
    }
    assert(needle@.take(needle@.len() as int) == needle@);
    true
}

/// Whether `needle` occurs somewhere in `text`.
pub fn contains(text: &str, needle: &str) -> (r: bool)
    ensures
        r == contains_text(text@, needle@),
{
    let haystack = to_chars(text);
    let wanted = to_chars(needle);
    if wanted.len() > haystack.len() {
        assert(forall|at: int| !occurs_at(text@, needle@, at));
        return false;
    }
    if wanted.len() == 0 {
        assert(text@.subrange(0, 0) =~= needle@);
        assert(occurs_at(text@, needle@, 0));
        return true;
    }
    let last = haystack.len() - wanted.len();
    let mut at: usize = 0;
    while at <= last
        invariant
            at <= last + 1,
            wanted@.len() > 0,
            haystack@.len() <= usize::MAX,
            last == haystack@.len() - wanted@.len(),
            haystack@ == text@,
            wanted@ == needle@,
            forall|k: int| 0 <= k < at ==> !occurs_at(text@, needle@, k),
        decreases last + 1 - at,
    {
        if matches_at(haystack.as_slice(), wanted.as_slice(), at) {
            return true;
        }
        at += 1;
    }
    assert(forall|k: int| !occurs_at(text@, needle@, k));
    false
}

/// The line of `fs_config` for the root of the output.
pub open spec fn root_config_line() -> Seq<char> {
    "/ 0 0 0755"@
}

/// The line of `fs_config` for the directory of the volume.
pub open spec fn volume_config_line(mount_name: Seq<char>) -> Seq<char> {
    mount_name + " 0 0 0755"@
}

/// The line of `fs_config` for one entry: its path below the output, its
/// owner and group in decimal, and its permissions with its capabilities.
pub open spec fn config_line(mount_name: Seq<char>, path: Seq<char>, attributes: AttributesView)
    -> Seq<char> {
    mount_name + path + " "@ + digits(attributes.uid as nat, 10) + " "@ + digits(
        attributes.gid as nat,
        10,
    ) + " "@ + attributes.mode_with_caps()
}

/// The rule of `file_contexts` that gives `label` to the path `escaped`.
pub open spec fn context_rule(escaped_path: Seq<char>, label: Seq<char>) -> Seq<char> {
    "/"@ + escaped_path + " "@ + label
}

/// The rule of `file_contexts` that gives `label` to everything below the
/// path `escaped`.
pub open spec fn subtree_rule(escaped_path: Seq<char>, label: Seq<char>) -> Seq<char> {
    "/"@ + escaped_path + "(/.*)? "@ + label
}

/// Whether the entry shows that the image is mounted as the root file
/// system: a regular file whose path has `/system/build.prop` in it.
pub open spec fn marks_system_as_root(path: Seq<char>, attributes: AttributesView) -> bool {
    FileType::of_mode(attributes.mode.bits) == Some(FileType::RegularFile) && contains_text(
        path,
        "/system/build.prop"@,
    )
}

/// The rules of `file_contexts` that give an entry its label: one rule
/// for the entry, and a second for what is below it if it is a directory.
/// An entry without a label has no rule.
pub open spec fn label_rules(mount_name: Seq<char>, path: Seq<char>, attributes: AttributesView)
    -> Seq<Seq<char>> {
    let target = escaped(mount_name + path);
    match attributes.selinux {
        None => Seq::<Seq<char>>::empty(),
        Some(label) => if FileType::of_mode(attributes.mode.bits) == Some(FileType::Directory) {
            seq![context_rule(target, label), subtree_rule(target, label)]
        } else {
            seq![context_rule(target, label)]
        },
    }
}

/// The two rules of `file_contexts` that label the root of the volume and
/// everything below it.
pub open spec fn root_rules(mount_name: Seq<char>) -> Seq<Seq<char>> {
    seq![
        context_rule(escaped(mount_name), root_label()),
        subtree_rule(escaped(mount_name), root_label()),
    ]
}

/// The rules of `file_contexts` for one entry: the rules for its label,
/// and the two rules for the root if the entry shows that the image is
/// mounted there.
pub open spec fn context_lines(mount_name: Seq<char>, path: Seq<char>, attributes: AttributesView)
    -> Seq<Seq<char>> {
    if marks_system_as_root(path, attributes) {
        label_rules(mount_name, path, attributes) + root_rules(mount_name)
    } else {
        label_rules(mount_name, path, attributes)
    }
}

/// Escaping goes character by character: the last character is escaped
/// after all that comes before it.
pub proof fn lemma_escaped_push(text: Seq<char>, c: char)
    ensures
        escaped(text.push(c)) == (if is_special(c) {
            escaped(text).push('\\').push(c)
        } else {
            escaped(text).push(c)
        }),
{
    assert(text.push(c).drop_last() =~= text);
}

/// Escaping two texts joined is joining the two texts escaped.
pub proof fn lemma_escaped_concat(first: Seq<char>, second: Seq<char>)
    ensures
        escaped(first + second) == escaped(first) + escaped(second),
    decreases second.len(),
{
    if second.len() == 0 {
        assert(first + second =~= first);
        assert(escaped(first) + escaped(second) =~= escaped(first));
    } else {
        let head = second.drop_last();
        let c = second.last();
        lemma_escaped_concat(first, head);
        assert(first + second =~= (first + head).push(c));
        assert(second =~= head.push(c));
        lemma_escaped_push(first + head, c);
        lemma_escaped_push(head, c);
        if is_special(c) {
            assert((escaped(first) + escaped(head)).push('\\').push(c) =~= escaped(first)
                + escaped(head).push('\\').push(c));
        } else {
            assert((escaped(first) + escaped(head)).push(c) =~= escaped(first) + escaped(
                head,
            ).push(c));
        }
    }
}

/// Whether `text` holds no character that has a meaning of its own in a
/// regular expression.
#[verifier::opaque]
pub open spec fn is_plain(text: Seq<char>) -> bool {
    forall|i: int| 0 <= i < text.len() ==> !is_special(#[trigger] text[i])
}

/// A text without special characters is not changed by escaping.
pub proof fn lemma_escaped_plain(text: Seq<char>)
    requires
        is_plain(text),
    ensures
        escaped(text) == text,
    decreases text.len(),
{
    reveal(is_plain);
    if text.len() > 0 {
        let head = text.drop_last();
        assert forall|i: int| 0 <= i < head.len() implies !is_special(#[trigger] head[i]) by {
            assert(head[i] == text[i]);
        }
        lemma_escaped_plain(head);
        assert(!is_special(text[text.len() - 1]));
        assert(head.push(text.last()) =~= text);
    }
}

/// The path of the build properties, escaped, has a backslash before its
/// one dot.
pub proof fn lemma_build_prop_escaped()
    ensures
        escaped("/system/build.prop"@) == "/system/build\\.prop"@,
{
    reveal_strlit("/system/build.prop");
    reveal_strlit("/system/build\\.prop");
    let path = "/system/build.prop"@;
    let before = path.take(13);
    let after = path.skip(14);
    assert(path =~= before + seq!['.'] + after);
    assert(is_plain(before) && is_plain(after)) by {
        reveal(is_plain);
    }
    lemma_escaped_plain(before);
    lemma_escaped_plain(after);
    lemma_escaped_push(Seq::empty(), '.');
    assert(Seq::<char>::empty().push('.') =~= seq!['.']);
    assert(escaped(Seq::<char>::empty()) =~= Seq::<char>::empty());
    lemma_escaped_concat(before, seq!['.']);
    lemma_escaped_concat(before + seq!['.'], after);
    assert(escaped(path) =~= "/system/build\\.prop"@);
}

/// The path of the build properties holds itself.
pub proof fn lemma_build_prop_is_found()
    ensures
        contains_text("/system/build.prop"@, "/system/build.prop"@),
{
    let path = "/system/build.prop"@;
    assert(path.subrange(0, path.len() as int) =~= path);
    assert(occurs_at(path, path, 0));
}

/// The name of a volume that holds no special character, followed by the
/// path of the build properties, is escaped by escaping the one dot.
pub proof fn lemma_build_prop_target(mount_name: Seq<char>)
    requires
        is_plain(mount_name),
    ensures
        escaped(mount_name + "/system/build.prop"@) == mount_name + "/system/build\\.prop"@,
        escaped(mount_name) == mount_name,
{
    lemma_build_prop_escaped();
    lemma_escaped_plain(mount_name);
    lemma_escaped_concat(mount_name, "/system/build.prop"@);
}

/// For the build properties of a labelled image, `file_contexts` has the
/// rule for the file, with the dot of its name escaped, and the two rules
/// that label the root. The name of the volume is taken to hold no special
/// character.
pub proof fn lemma_rules_for_build_prop(
    mount_name: Seq<char>,
    label: Seq<char>,
    attributes: AttributesView,
)
    requires
        is_plain(mount_name),
        attributes.selinux == Some(label),
        FileType::of_mode(attributes.mode.bits) == Some(FileType::RegularFile),
    ensures
        context_lines(mount_name, "/system/build.prop"@, attributes) == seq![
            context_rule(mount_name + "/system/build\\.prop"@, label),
            context_rule(mount_name, root_label()),
            subtree_rule(mount_name, root_label()),
        ],
{
    let path = "/system/build.prop"@;
    assert(label_rules(mount_name, path, attributes) == seq![
        context_rule(mount_name + "/system/build\\.prop"@, label),
    ]) by {
        lemma_build_prop_target(mount_name);
    }
    assert(root_rules(mount_name) == seq![
        context_rule(mount_name, root_label()),
        subtree_rule(mount_name, root_label()),
    ]) by {
        lemma_build_prop_target(mount_name);
    }
    assert(marks_system_as_root(path, attributes)) by {
        lemma_build_prop_is_found();
    }
    assert(seq![context_rule(mount_name + "/system/build\\.prop"@, label)] + seq![
        context_rule(mount_name, root_label()),
        subtree_rule(mount_name, root_label()),
    ] =~= seq![
        context_rule(mount_name + "/system/build\\.prop"@, label),
        context_rule(mount_name, root_label()),
        subtree_rule(mount_name, root_label()),
    ]);
}

/// The texts of `lines`.
pub open spec fn line_texts(lines: Seq<String>) -> Seq<Seq<char>> {
    lines.map_values(|l: String| l@)
}

/// Writes the line of `fs_config` for one entry.
pub fn fs_config_line(mount_name: &str, path: &str, attributes: &EntryAttributes) -> (r: String)
    ensures
        r@ == config_line(mount_name@, path@, attributes@),
{
    let mut line = String::new();
    push_text(&mut line, mount_name);
    push_text(&mut line, path);
    push_text(&mut line, " ");
    push_number(&mut line, attributes.uid() as u64, 10);
    push_text(&mut line, " ");
    push_number(&mut line, attributes.gid() as u64, 10);
    push_text(&mut line, " ");
    let mode = attributes.mode_with_caps();
    push_text(&mut line, mode.as_str());
    assert(line@ =~= config_line(mount_name@, path@, attributes@));
    line
}

/// Writes one rule of `file_contexts`: `middle` stands between the path
/// and the label.
fn rule(escaped_path: &str, middle: &str, label: &str) -> (r: String)
    ensures
        r@ == "/"@ + escaped_path@ + middle@ + label@,
{
    let mut line = String::new();
    push_text(&mut line, "/");
    push_text(&mut line, escaped_path);
    push_text(&mut line, middle);
    push_text(&mut line, label);
    assert(line@ =~= "/"@ + escaped_path@ + middle@ + label@);
    line
}

/// Writes the rules of `file_contexts` for one entry.
pub fn file_contexts_lines(mount_name: &str, path: &str, attributes: &EntryAttributes) -> (r: Vec<
    String,
>)
    ensures
        line_texts(r@) == context_lines(mount_name@, path@, attributes@),
{
    let mut lines: Vec<String> = Vec::new();
    let mut full = String::new();
    push_text(&mut full, mount_name);
    push_text(&mut full, path);
    assert(full@ =~= mount_name@ + path@);
    let target = escape_regex(full.as_str());
    let kind = attributes.mode().file_type();
    match attributes.selinux() {
        Some(label) => {
            lines.push(rule(target.as_str(), " ", label));
            match kind {
                Some(FileType::Directory) => {
                    lines.push(rule(target.as_str(), "(/.*)? ", label));
                },
                _ => {},
            }
        },
        None => {},
    }
    let regular = match kind {
        Some(FileType::RegularFile) => true,
        _ => false,
    };
    if regular && contains(path, "/system/build.prop") {
        let root = escape_regex(mount_name);
        lines.push(rule(root.as_str(), " ", "u:object_r:rootfs:s0"));
        lines.push(rule(root.as_str(), "(/.*)? ", "u:object_r:rootfs:s0"));
    }
    assert(line_texts(lines@) =~= context_lines(mount_name@, path@, attributes@));
    lines
}

/// The two lines with which every `fs_config` starts: one for the root of
/// the output and one for the directory of the volume.
pub fn fs_config_header(mount_name: &str) -> (r: Vec<String>)
    ensures
        line_texts(r@) == seq![root_config_line(), volume_config_line(mount_name@)],
{
    let mut lines: Vec<String> = Vec::new();
    let mut first = String::new();
    push_text(&mut first, "/ 0 0 0755");
    assert(first@ =~= root_config_line());
    lines.push(first);
    let mut second = String::new();
    push_text(&mut second, mount_name);
    push_text(&mut second, " 0 0 0755");
    assert(second@ =~= volume_config_line(mount_name@));
    lines.push(second);
    assert(line_texts(lines@) =~= seq![root_config_line(), volume_config_line(mount_name@)]);
    lines
}

/// The views of `items`.
pub open spec fn item_views(items: Seq<WalkItem>) -> Seq<WalkItemView> {
    items.map_values(|i: WalkItem| i@)
}

/// The lines of `fs_config` for `items`: the two lines that open the list,
/// then one line for each item, in order.
pub open spec fn all_config_lines(mount_name: Seq<char>, items: Seq<WalkItemView>) -> Seq<
    Seq<char>,
>
    decreases items.len(),
{
    if items.len() == 0 {
        seq![root_config_line(), volume_config_line(mount_name)]
    } else {
        all_config_lines(mount_name, items.drop_last()).push(
            config_line(mount_name, items.last().path, items.last().attributes),
        )
    }
}

/// The rules of `file_contexts` for `items`: the rules of each item, in
/// order.
pub open spec fn all_context_lines(mount_name: Seq<char>, items: Seq<WalkItemView>) -> Seq<
    Seq<char>,
>
    decreases items.len(),
{
    if items.len() == 0 {
        Seq::empty()
    } else {
        all_context_lines(mount_name, items.drop_last()) + context_lines(
            mount_name,
            items.last().path,
            items.last().attributes,
        )
    }
}

/// The two lists that go with an extracted image.
#[derive(Debug)]
pub struct Sidecars {
    pub fs_config: Vec<String>,
    pub file_contexts: Vec<String>,
}

/// Writes the two lists for the entries `items` of the volume named
/// `mount_name`.
pub fn sidecars(mount_name: &str, items: &[WalkItem]) -> (r: Sidecars)
    ensures
        line_texts(r.fs_config@) == all_config_lines(mount_name@, item_views(items@)),
        line_texts(r.file_contexts@) == all_context_lines(mount_name@, item_views(items@)),
{
    let mut fs_config = fs_config_header(mount_name);
    let mut file_contexts: Vec<String> = Vec::new();
    let ghost all = item_views(items@);
    let mut i: usize = 0;
    assert(all.take(0) =~= Seq::<WalkItemView>::empty());
    assert(line_texts(file_contexts@) =~= Seq::<Seq<char>>::empty());
    while i < items.len()
        invariant
            i <= items@.len(),
            all == item_views(items@),
            line_texts(fs_config@) == all_config_lines(mount_name@, all.take(i as int)),
            line_texts(file_contexts@) == all_context_lines(mount_name@, all.take(i as int)),
        decreases items@.len() - i,
    {
        let item = &items[i];
        proof {
            assert(all.take(i + 1).drop_last() =~= all.take(i as int));
            assert(all.take(i + 1).last() == item@);
        }
        let line = fs_config_line(mount_name, item.path(), item.attributes());
        let ghost before = fs_config@;
        fs_config.push(line);
        assert(line_texts(fs_config@) =~= line_texts(before).push(line@));
        let mut rules = file_contexts_lines(mount_name, item.path(), item.attributes());
        let ghost first = file_contexts@;
        let ghost second = rules@;
        file_contexts.append(&mut rules);
        assert(line_texts(file_contexts@) =~= line_texts(first) + line_texts(second));
        i += 1;
    }
    assert(all.take(items@.len() as int) =~= all);
    Sidecars { fs_config, file_contexts }
}

/// The name of the directory that output goes to when none is given:
/// `output-` and the time in seconds since 1970.
pub open spec fn output_name(timestamp: u64) -> Seq<char> {
    "output-"@ + digits(timestamp as nat, 10)
}

/// The name of the directory that output goes to when none is given.
pub fn default_output_path(timestamp: u64) -> (r: String)
    ensures
        r@ == output_name(timestamp),
{
    let mut name = String::new();
    push_text(&mut name, "output-");
    push_number(&mut name, timestamp, 10);
    assert(name@ =~= output_name(timestamp));
    name
}

/// The number of worker threads to use when none is given: a quarter of
/// what the host can run at once, rounded up, and one at least.
pub fn num_cpus(parallelism: Option<usize>) -> (r: usize)
    ensures
        r == (match parallelism {
            Some(n) => if n == 0 {
                1
            } else {
                (n + 3) / 4
            },
            None => 1,
        }),
{
    match parallelism {
        Some(n) => if n == 0 {
            1
        } else {
            (n - 1) / 4 + 1
        },
        None => 1,
    }
}

/// The two code units that UTF-16 has for `c`, or the one.
pub open spec fn utf16_units(c: char) -> Seq<u16> {
    let scalar = c as u32;
    if scalar < 0x10000 {
        seq![scalar as u16]
    } else {
        seq![(0xD800 + (scalar - 0x10000) / 0x400) as u16, (0xDC00 + (scalar - 0x10000) % 0x400) as u16]
    }
}

/// `text` in UTF-16, each code unit with its low byte first.
pub open spec fn utf16_le(text: Seq<char>) -> Seq<u8>
    decreases text.len(),
{
    if text.len() == 0 {
        Seq::empty()
    } else {
        let units = utf16_units(text.last());
        if units.len() == 1 {
            utf16_le(text.drop_last()).push((units[0] % 256) as u8).push((units[0] / 256) as u8)
        } else {
            utf16_le(text.drop_last()).push((units[0] % 256) as u8).push(
                (units[0] / 256) as u8,
            ).push((units[1] % 256) as u8).push((units[1] / 256) as u8)
        }
    }
}

/// The bytes that open a file which stands for a symbolic link.
pub open spec fn symlink_marker() -> Seq<u8> {
    seq![0x21u8, 0x3C, 0x73, 0x79, 0x6D, 0x6C, 0x69, 0x6E, 0x6B, 0x3E, 0xFF, 0xFE]
}

/// The content of the file that stands for a symbolic link to `target`
/// where the host has no symbolic links: `!<symlink>`, a byte order mark,
/// the target in UTF-16 and a terminating zero.
pub open spec fn sentinel(target: Seq<char>) -> Seq<u8> {
    symlink_marker() + utf16_le(target) + seq![0u8, 0u8]
}

/// The content of the file that stands for a symbolic link to `target`.
pub fn symlink_sentinel(target: &str) -> (r: Vec<u8>)
    ensures
        r@ == sentinel(target@),
{
    let mut out: Vec<u8> = vec![0x21u8, 0x3C, 0x73, 0x79, 0x6D, 0x6C, 0x69, 0x6E, 0x6B, 0x3E, 0xFF, 0xFE];
    assert(out@ =~= symlink_marker() + utf16_le(target@.take(0)));
    for c in it: target.chars()
        invariant
            it.seq() == target@,
            out@ == symlink_marker() + utf16_le(target@.take(it.index())),
    {
        assert(target@.take(it.index() + 1).drop_last() == target@.take(it.index()));
        let scalar = c as u32;
        let ghost before = out@;
        if scalar < 0x10000 {
            let unit = scalar as u16;
            out.push((unit % 256) as u8);
            out.push((unit / 256) as u8);
        } else {
            let high = (0xD800 + (scalar - 0x10000) / 0x400) as u16;
            let low = (0xDC00 + (scalar - 0x10000) % 0x400) as u16;
            out.push((high % 256) as u8);
            out.push((high / 256) as u8);
            out.push((low % 256) as u8);
            out.push((low / 256) as u8);
        }
        assert(out@ =~= symlink_marker() + utf16_le(target@.take(it.index() + 1)));
    }
    assert(target@.take(target@.len() as int) == target@);
    out.push(0);
    out.push(0);
    assert(out@ =~= sentinel(target@));
    out
}

} // verus!

//! Walking a directory tree: every entry below a directory, with the
//! metadata that Android keeps for it.

use crate::ext4::directory::{directory_entries, Directory};
use crate::ext4::inode::{permissions_text, FileType, Inode, InodeView, Mode};
use crate::ext4::text::{push_text, same_text};
use crate::ext4::volume::Volume;
use crate::ext4::xattr::{capability_text, render_capabilities, views, XAttrEntry, XAttrEntryView};
use crate::ext4::{entry_views, DirectoryEntry, DirectoryEntryView};
use crate::utils::{child_path, join_path, outcome_view, Error, Failure};
use vstd::multiset::Multiset;
use vstd::prelude::*;

verus! {

/// The most directories that the walker is inside of at one time.
pub const MAX_WALK_DEPTH: usize = 2048;

/// The failure of a directory that lies deeper than the walker descends.
pub open spec fn nested_too_deep(path: Seq<char>) -> Failure {
    Failure::InvalidPath { path, reason: "directory nesting exceeds the depth limit"@ }
}

/// A directory on the walker's stack: its path and the entries of it that
/// have not been visited yet.
#[derive(Debug)]
pub struct WalkEntry {
    pub path: String,
    pub entries: Vec<DirectoryEntry>,
}

/// A directory on the walker's stack, by its views.
pub struct FrameView {
    pub path: Seq<char>,
    pub entries: Seq<DirectoryEntryView>,
}

impl View for WalkEntry {
    type V = FrameView;

    open spec fn view(&self) -> FrameView {
        FrameView { path: self.path@, entries: entry_views(self.entries@) }
    }
}

/// The metadata of one entry: what `fs_config` and `file_contexts` record.
#[derive(Debug, Clone)]
pub struct EntryAttributes {
    pub mode: Mode,
    pub uid: u32,
    pub gid: u32,
    pub selinux: Option<String>,
    pub capabilities: Option<u64>,
}

/// The metadata of one entry, with its label as characters.
pub struct AttributesView {
    pub mode: Mode,
    pub uid: u32,
    pub gid: u32,
    pub selinux: Option<Seq<char>>,
    pub capabilities: Option<u64>,
}

impl View for EntryAttributes {
    type V = AttributesView;

    open spec fn view(&self) -> AttributesView {
        AttributesView {
            mode: self.mode,
            uid: self.uid,
            gid: self.gid,
            selinux: match self.selinux {
                Some(label) => Some(label@),
                None => None,
            },
            capabilities: self.capabilities,
        }
    }
}

impl AttributesView {
    /// The permissions followed by the capabilities, as `fs_config` writes
    /// them.
    pub open spec fn mode_with_caps(&self) -> Seq<char> {
        match self.capabilities {
            Some(caps) => permissions_text(self.mode.bits) + capability_text(caps),
            None => permissions_text(self.mode.bits),
        }
    }
}

/// The label of the first of `xattrs` that carries one.
pub open spec fn first_label(xattrs: Seq<XAttrEntryView>) -> Option<Seq<char>>
    decreases xattrs.len(),
{
    if xattrs.len() == 0 {
        None
    } else {
        match xattrs[0].selinux_context() {
            Some(label) => Some(label),
            None => first_label(xattrs.drop_first()),
        }
    }
}

/// The capabilities of the first of `xattrs` that grants any.
pub open spec fn first_capabilities(xattrs: Seq<XAttrEntryView>) -> Option<u64>
    decreases xattrs.len(),
{
    if xattrs.len() == 0 {
        None
    } else {
        match xattrs[0].capabilities() {
            Some(caps) => Some(caps),
            None => first_capabilities(xattrs.drop_first()),
        }
    }
}

/// The metadata of `inode`: its mode and owner, and the label and the
/// capabilities found among its attributes.
pub open spec fn attributes_of(volume: &Volume, inode: InodeView) -> AttributesView {
    let xattrs = volume.spec_xattrs(inode);
    AttributesView {
        mode: inode.mode,
        uid: inode.uid() as u32,
        gid: inode.gid() as u32,
        selinux: first_label(xattrs),
        capabilities: first_capabilities(xattrs),
    }
}

impl EntryAttributes {
    /// Reads the metadata of `inode`.
    pub fn read(volume: &Volume, inode: &Inode) -> (r: Self)
        requires
            volume.wf(),
        ensures
            r@ == attributes_of(volume, inode@),
    {
        let xattrs = match volume.read_xattrs(inode) {
            Ok(found) => found,
            Err(_) => {
                let none: Vec<XAttrEntry> = Vec::new();
                assert(views(none@) =~= Seq::<XAttrEntryView>::empty());
                none
            },
        };
        let ghost all = views(xattrs@);
        let mut selinux: Option<String> = None;
        let mut i: usize = 0;
        assert(all.skip(0) =~= all);
        while i < xattrs.len() && selinux.is_none()
            invariant
                i <= xattrs@.len(),
                all == views(xattrs@),
                match selinux {
                    Some(label) => first_label(all) == Some(label@),
                    None => first_label(all) == first_label(all.skip(i as int)),
                },
            decreases xattrs@.len() - i,
        {
            assert(all.skip(i as int)[0] == xattrs@[i as int]@);
            assert(all.skip(i as int).drop_first() =~= all.skip(i + 1));
            selinux = xattrs[i].selinux_context();
            i += 1;
        }
        let mut capabilities: Option<u64> = None;
        let mut k: usize = 0;
        while k < xattrs.len() && capabilities.is_none()
            invariant
                k <= xattrs@.len(),
                all == views(xattrs@),
                match capabilities {
                    Some(caps) => first_capabilities(all) == Some(caps),
                    None => first_capabilities(all) == first_capabilities(all.skip(k as int)),
                },
            decreases xattrs@.len() - k,
        {
            assert(all.skip(k as int)[0] == xattrs@[k as int]@);
            assert(all.skip(k as int).drop_first() =~= all.skip(k + 1));
            capabilities = xattrs[k].capabilities();
            k += 1;
        }
        EntryAttributes {
            mode: inode.mode(),
            uid: inode.uid(),
            gid: inode.gid(),
            selinux,
            capabilities,
        }
    }

    /// The mode of the entry.
    pub fn mode(&self) -> (r: Mode)
        ensures
            r == self.mode,
    {
        self.mode
    }

    /// The user that owns the entry.
    pub fn uid(&self) -> (r: u32)
        ensures
            r == self.uid,
    {
        self.uid
    }

    /// The group that owns the entry.
    pub fn gid(&self) -> (r: u32)
        ensures
            r == self.gid,
    {
        self.gid
    }

    /// The SELinux label of the entry, if it has one.
    pub fn selinux(&self) -> (r: Option<&str>)
        ensures
            match r {
                Some(label) => self@.selinux == Some(label@),
                None => self@.selinux is None,
            },
    {
        match &self.selinux {
            Some(label) => Some(label.as_str()),
            None => None,
        }
    }

    /// The capabilities of the entry, if it has any.
    pub fn capabilities(&self) -> (r: Option<u64>)
        ensures
            r == self.capabilities,
    {
        self.capabilities
    }

    /// The permissions in four octal digits.
    pub fn mode_string(&self) -> (r: String)
        ensures
            r@ == permissions_text(self.mode.bits),
    {
        self.mode.permissions_string()
    }

    /// The permissions, followed by the capabilities where there are any.
    pub fn mode_with_caps(&self) -> (r: String)
        ensures
            r@ == self@.mode_with_caps(),
    {
        let mut text = self.mode_string();
        match self.capabilities {
            Some(caps) => {
                let suffix = render_capabilities(caps);
                push_text(&mut text, suffix.as_str());
            },
            None => {},
        }
        text
    }
}

/// One entry found by the walker.
#[derive(Debug, Clone)]
pub struct WalkItem {
    pub path: String,
    pub entry: DirectoryEntry,
    pub inode: Inode,
    pub attributes: EntryAttributes,
}

/// One entry found by the walker, by its views.
pub struct WalkItemView {
    pub path: Seq<char>,
    pub entry: DirectoryEntryView,
    pub inode: InodeView,
    pub attributes: AttributesView,
}

impl View for WalkItem {
    type V = WalkItemView;

    open spec fn view(&self) -> WalkItemView {
        WalkItemView {
            path: self.path@,
            entry: self.entry@,
            inode: self.inode@,
            attributes: self.attributes@,
        }
    }
}

impl WalkItem {
    /// The inode of the entry.
    pub fn inode(&self) -> (r: &Inode)
        ensures
            *r == self.inode,
    {
        &self.inode
    }

    /// The path of the entry from the root of the volume.
    pub fn path(&self) -> (r: &str)
        ensures
            r@ == self.path@,
    {
        self.path.as_str()
    }

    /// The metadata of the entry.
    pub fn attributes(&self) -> (r: &EntryAttributes)
        ensures
            *r == self.attributes,
    {
        &self.attributes
    }

    /// The kind of object that the entry is. The walker yields no entry of
    /// an unknown kind.
    pub fn file_type(&self) -> (r: FileType)
        requires
            self.inode@.file_type() is Some,
        ensures
            Some(r) == self.inode@.file_type(),
    {
        match self.inode.mode().file_type() {
            Some(kind) => kind,
            None => FileType::RegularFile,
        }
    }

    /// The name of the entry.
    pub fn name(&self) -> (r: &str)
        ensures
            r@ == self.entry@.name_text(),
    {
        self.entry.name_str()
    }
}

/// The views of the directories on a walker's stack.
pub open spec fn frame_views(stack: Seq<WalkEntry>) -> Seq<FrameView> {
    stack.map_values(|f: WalkEntry| f@)
}

/// The work that `frames` stand for: one for each directory and one for
/// each entry still to visit.
pub open spec fn weight(frames: Seq<FrameView>) -> nat
    decreases frames.len(),
{
    if frames.len() == 0 {
        0
    } else {
        weight(frames.drop_last()) + frames.last().entries.len() + 1
    }
}

/// What one step of a walk gives.
pub struct Step {
    /// The item or failure that is yielded, if the walk is not over.
    pub yielded: Option<Result<WalkItemView, Failure>>,
    /// The stack that is left.
    pub frames: Seq<FrameView>,
    /// The path of the entry that was yielded, or that failed, if the walk
    /// is not over.
    pub visited: Option<Seq<char>>,
    /// The entries of the directory that was entered, if one was.
    pub entered: Seq<DirectoryEntryView>,
    /// The paths of the entries other than `.` and `..` that were passed
    /// over.
    pub passed_over: Multiset<Seq<char>>,
}

/// The step that ends on the entry at `path`.
pub open spec fn ended_on(
    path: Seq<char>,
    yielded: Result<WalkItemView, Failure>,
    frames: Seq<FrameView>,
    entered: Seq<DirectoryEntryView>,
) -> Step {
    Step {
        yielded: Some(yielded),
        frames,
        visited: Some(path),
        entered,
        passed_over: Multiset::empty(),
    }
}

/// `frames` with the last entry of the last directory taken away.
pub open spec fn without_last_entry(frames: Seq<FrameView>) -> Seq<FrameView>
    recommends
        frames.len() > 0,
        frames.last().entries.len() > 0,
{
    frames.drop_last().push(
        FrameView { path: frames.last().path, entries: frames.last().entries.drop_last() },
    )
}

/// Taking an entry away lowers the weight by one.
pub proof fn lemma_weight_without_last_entry(frames: Seq<FrameView>)
    requires
        frames.len() > 0,
        frames.last().entries.len() > 0,
    ensures
        weight(without_last_entry(frames)) + 1 == weight(frames),
{
    let rest = without_last_entry(frames);
    assert(rest.drop_last() =~= frames.drop_last());
}

/// What visiting `entry` of the directory `directory` gives, with `rest`
/// as the stack: nothing if the entry is passed over, as `.` and `..` are
/// and every entry whose inode is of no known kind; else the failure of an
/// inode that cannot be read, or the entry with its metadata. A directory
/// is entered: its entries are put on the stack before it is yielded.
pub open spec fn visited(
    volume: &Volume,
    rest: Seq<FrameView>,
    directory: Seq<char>,
    entry: DirectoryEntryView,
) -> Option<Step> {
    let path = child_path(directory, entry.name_text());
    if entry.is_dot() {
        None
    } else {
        match volume.spec_inode(entry.inode) {
            Err(f) => Some(ended_on(path, Err(f), rest, Seq::empty())),
            Ok(inode) => if inode.file_type() is None {
                None
            } else {
                let item = WalkItemView {
                    path,
                    entry,
                    inode,
                    attributes: attributes_of(volume, inode),
                };
                if !inode.is_directory() {
                    Some(ended_on(path, Ok(item), rest, Seq::empty()))
                } else if rest.len() >= 2048 {
                    Some(ended_on(path, Err(nested_too_deep(path)), rest, Seq::empty()))
                } else {
                    match directory_entries(volume, inode) {
                        Err(f) => Some(ended_on(path, Err(f), rest, Seq::empty())),
                        Ok(entries) => Some(
                            ended_on(
                                path,
                                Ok(item),
                                rest.push(FrameView { path, entries }),
                                entries,
                            ),
                        ),
                    }
                }
            },
        }
    }
}

/// The paths of `entries` of the directory `directory`, but for `.` and
/// `..`.
pub open spec fn entry_paths(directory: Seq<char>, entries: Seq<DirectoryEntryView>) -> Multiset<
    Seq<char>,
>
    decreases entries.len(),
{
    if entries.len() == 0 {
        Multiset::empty()
    } else if entries.last().is_dot() {
        entry_paths(directory, entries.drop_last())
    } else {
        entry_paths(directory, entries.drop_last()).insert(
            child_path(directory, entries.last().name_text()),
        )
    }
}

/// One step of a walk over `frames`.
///
/// The entries of the last directory are visited from the last one back,
/// until one is not passed over; a directory without entries left is
/// dropped. The walk is over when no directory is left.
pub open spec fn stepped(volume: &Volume, frames: Seq<FrameView>) -> Step
    decreases weight(frames),
{
    if frames.len() == 0 {
        Step {
            yielded: None,
            frames,
            visited: None,
            entered: Seq::empty(),
            passed_over: Multiset::empty(),
        }
    } else if frames.last().entries.len() == 0 {
        stepped(volume, frames.drop_last())
    } else {
        proof {
            lemma_weight_without_last_entry(frames);
        }
        let rest = without_last_entry(frames);
        let entry = frames.last().entries.last();
        match visited(volume, rest, frames.last().path, entry) {
            Some(step) => step,
            None => {
                let later = stepped(volume, rest);
                if entry.is_dot() {
                    later
                } else {
                    Step {
                        passed_over: later.passed_over.insert(
                            child_path(frames.last().path, entry.name_text()),
                        ),
                        ..later
                    }
                }
            },
        }
    }
}

/// The paths of the entries other than `.` and `..` that `frames` still
/// hold.
pub open spec fn pending_paths(frames: Seq<FrameView>) -> Multiset<Seq<char>>
    decreases frames.len(),
{
    if frames.len() == 0 {
        Multiset::empty()
    } else {
        pending_paths(frames.drop_last()).add(
            entry_paths(frames.last().path, frames.last().entries),
        )
    }
}

/// The paths of the entries of the directory that a step entered.
pub open spec fn entered_paths(step: Step) -> Multiset<Seq<char>> {
    match step.visited {
        Some(path) => entry_paths(path, step.entered),
        None => Multiset::empty(),
    }
}

/// The path of the entry on which a step ended, if it ended on one.
pub open spec fn visited_paths(step: Step) -> Multiset<Seq<char>> {
    match step.visited {
        Some(path) => Multiset::singleton(path),
        None => Multiset::empty(),
    }
}

/// The path of the last entry of the last directory of `frames`, if it
/// is an entry other than `.` and `..`.
pub open spec fn last_path(frames: Seq<FrameView>) -> Multiset<Seq<char>>
    recommends
        frames.len() > 0,
        frames.last().entries.len() > 0,
{
    if frames.last().entries.last().is_dot() {
        Multiset::empty()
    } else {
        Multiset::singleton(
            child_path(frames.last().path, frames.last().entries.last().name_text()),
        )
    }
}

/// A directory put on the stack adds the paths of its entries.
proof fn lemma_pending_paths_push(rest: Seq<FrameView>, frame: FrameView)
    ensures
        pending_paths(rest.push(frame)) == pending_paths(rest).add(
            entry_paths(frame.path, frame.entries),
        ),
{
    assert(rest.push(frame).drop_last() =~= rest);
}

/// An entry taken off the stack takes its path away.
proof fn lemma_pending_paths_without_last_entry(frames: Seq<FrameView>)
    requires
        frames.len() > 0,
        frames.last().entries.len() > 0,
    ensures
        pending_paths(frames) == pending_paths(without_last_entry(frames)).add(last_path(frames)),
{
    let top = frames.last();
    let below = pending_paths(frames.drop_last());
    let fewer = entry_paths(top.path, top.entries.drop_last());
    let rest = without_last_entry(frames);
    assert(rest.drop_last() =~= frames.drop_last());
    assert(rest.last().entries == top.entries.drop_last());
    assert(pending_paths(rest) == below.add(fewer));
    assert(entry_paths(top.path, top.entries) =~= fewer.add(last_path(frames)));
    assert(below.add(fewer.add(last_path(frames))) =~= below.add(fewer).add(last_path(frames)));
}

/// An entry that is not passed over ends the step: it is yielded, or its
/// failure is, under its path, and if it is a directory that is entered,
/// the paths of its entries are added to the stack.
proof fn lemma_visited_entry(
    volume: &Volume,
    rest: Seq<FrameView>,
    directory: Seq<char>,
    entry: DirectoryEntryView,
)
    requires
        visited(volume, rest, directory, entry) is Some,
    ensures
        !entry.is_dot(),
        visited(volume, rest, directory, entry)->0.visited == Some(
            child_path(directory, entry.name_text()),
        ),
        visited(volume, rest, directory, entry)->0.yielded is Some,
        visited(volume, rest, directory, entry)->0.passed_over == Multiset::<Seq<char>>::empty(),
        visited(volume, rest, directory, entry)->0.yielded matches Some(Ok(item)) ==> item.path
            == child_path(directory, entry.name_text()),
        pending_paths(visited(volume, rest, directory, entry)->0.frames) == pending_paths(
            rest,
        ).add(entered_paths(visited(volume, rest, directory, entry)->0)),
{
    let ended = visited(volume, rest, directory, entry)->0;
    let path = child_path(directory, entry.name_text());
    if ended.frames != rest {
        lemma_pending_paths_push(rest, FrameView { path, entries: ended.entered });
    } else {
        assert(pending_paths(rest).add(Multiset::empty()) =~= pending_paths(rest));
    }
}

/// A step takes each entry off the stack once, by its path: the entries
/// that were on the stack, with those of the directory entered, are the
/// entries left on the stack, those passed over, and the one on which the
/// step ended. A step ends on an entry exactly when it yields, and an item
/// that is yielded has the path of that entry.
pub proof fn lemma_step_takes_each_path_once(volume: &Volume, frames: Seq<FrameView>)
    ensures
        pending_paths(frames).add(entered_paths(stepped(volume, frames))) == pending_paths(
            stepped(volume, frames).frames,
        ).add(stepped(volume, frames).passed_over).add(visited_paths(stepped(volume, frames))),
        stepped(volume, frames).visited is Some <==> stepped(volume, frames).yielded is Some,
        stepped(volume, frames).yielded matches Some(Ok(item)) ==> stepped(
            volume,
            frames,
        ).visited == Some(item.path),
        stepped(volume, frames).yielded is None ==> stepped(volume, frames).frames.len() == 0,
    decreases weight(frames),
{
    let step = stepped(volume, frames);
    let before = pending_paths(frames);
    let after = pending_paths(step.frames);
    let entered = entered_paths(step);
    let passed = step.passed_over;
    let ended = visited_paths(step);
    if frames.len() == 0 {
        assert(before.add(entered) =~= after.add(passed).add(ended));
    } else if frames.last().entries.len() == 0 {
        lemma_step_takes_each_path_once(volume, frames.drop_last());
        assert(before =~= pending_paths(frames.drop_last()));
    } else {
        lemma_weight_without_last_entry(frames);
        lemma_pending_paths_without_last_entry(frames);
        let rest = without_last_entry(frames);
        let left = pending_paths(rest);
        let taken = last_path(frames);
        assert(before == left.add(taken));
        let top = frames.last();
        let entry = top.entries.last();
        if visited(volume, rest, top.path, entry) is Some {
            lemma_visited_entry(volume, rest, top.path, entry);
            assert(step == visited(volume, rest, top.path, entry)->0);
            assert(after == left.add(entered));
            assert(taken == ended);
            assert(left.add(taken).add(entered) =~= left.add(entered).add(
                Multiset::empty(),
            ).add(taken));
        } else {
            lemma_step_takes_each_path_once(volume, rest);
            let later = stepped(volume, rest);
            assert(left.add(entered) == after.add(later.passed_over).add(ended));
            assert(passed =~= later.passed_over.add(taken));
            assert(left.add(taken).add(entered) =~= after.add(later.passed_over.add(taken)).add(
                ended,
            )) by {
                assert(left.add(taken).add(entered) =~= left.add(entered).add(taken));
                assert(after.add(later.passed_over).add(ended).add(taken) =~= after.add(
                    later.passed_over.add(taken),
                ).add(ended));
            }
        }
    }
}

/// The number of `entries` other than `.` and `..`.
pub open spec fn regular_count(entries: Seq<DirectoryEntryView>) -> nat
    decreases entries.len(),
{
    if entries.len() == 0 {
        0
    } else {
        regular_count(entries.drop_last()) + (if entries.last().is_dot() {
            0nat
        } else {
            1nat
        })
    }
}

/// The number of entries other than `.` and `..` that `frames` still hold.
pub open spec fn live(frames: Seq<FrameView>) -> nat
    decreases frames.len(),
{
    if frames.len() == 0 {
        0
    } else {
        live(frames.drop_last()) + regular_count(frames.last().entries)
    }
}

/// Every entry is visited once. A step takes entries off the stack and
/// visits each of them: it passes over some and yields one, unless the
/// walk is over, and the walk is over only when no entry is left. What is
/// left on the stack afterwards is what was there before, less the entries
/// visited, and the entries of the directory entered, if one was.
pub proof fn lemma_step_visits_each_entry_once(volume: &Volume, frames: Seq<FrameView>)
    ensures
        live(frames) + regular_count(stepped(volume, frames).entered) == live(
            stepped(volume, frames).frames,
        ) + stepped(volume, frames).passed_over.len() + (if stepped(
            volume,
            frames,
        ).yielded is Some {
            1nat
        } else {
            0nat
        }),
        stepped(volume, frames).yielded is None ==> stepped(volume, frames).frames.len() == 0,
    decreases weight(frames),
{
    if frames.len() == 0 {
    } else if frames.last().entries.len() == 0 {
        lemma_step_visits_each_entry_once(volume, frames.drop_last());
    } else {
        lemma_weight_without_last_entry(frames);
        let rest = without_last_entry(frames);
        let entry = frames.last().entries.last();
        assert(rest.drop_last() =~= frames.drop_last());
        assert(live(rest) + (if entry.is_dot() {
            0nat
        } else {
            1nat
        }) == live(frames));
        match visited(volume, rest, frames.last().path, entry) {
            Some(step) => {
                if step.frames != rest {
                    assert(step.frames.drop_last() =~= rest);
                }
            },
            None => {
                lemma_step_visits_each_entry_once(volume, rest);
            },
        }
    }
}

/// Whether `item` stands for one of the entries that `frames` hold: its
/// entry is an entry of one of the directories, and its path is the path
/// of that directory joined with the name of the entry.
pub open spec fn is_entry_of(frames: Seq<FrameView>, item: WalkItemView) -> bool {
    exists|k: int, j: int|
        0 <= k < frames.len() && 0 <= j < frames[k].entries.len()
            && #[trigger] frames[k].entries[j] == item.entry && item.path == child_path(
            frames[k].path,
            item.entry.name_text(),
        )
}

/// Whether `item` is what a walk yields for its entry: the inode is the
/// one that the entry names, it is of a known kind, the entry is neither
/// `.` nor `..`, and the metadata is that of the inode.
pub open spec fn is_item_of(volume: &Volume, item: WalkItemView) -> bool {
    &&& !item.entry.is_dot()
    &&& item.inode.file_type() is Some
    &&& volume.spec_inode(item.entry.inode) == Ok::<InodeView, Failure>(item.inode)
    &&& item.attributes == attributes_of(volume, item.inode)
}

/// An item that a step yields stands for one of the entries on the stack,
/// under the path of its directory joined with its name; its entry is
/// neither `.` nor `..` and its inode is of a known kind.
pub proof fn lemma_yielded_item(volume: &Volume, frames: Seq<FrameView>)
    ensures
        stepped(volume, frames).yielded matches Some(Ok(item)) ==> is_item_of(volume, item)
            && is_entry_of(frames, item),
    decreases weight(frames),
{
    if frames.len() == 0 {
    } else if frames.last().entries.len() == 0 {
        let below = frames.drop_last();
        lemma_yielded_item(volume, below);
        if let Some(Ok(item)) = stepped(volume, frames).yielded {
            let (k, j) = choose|k: int, j: int|
                0 <= k < below.len() && 0 <= j < below[k].entries.len()
                    && #[trigger] below[k].entries[j] == item.entry && item.path == child_path(
                    below[k].path,
                    item.entry.name_text(),
                );
            assert(frames[k] == below[k]);
            assert(frames[k].entries[j] == item.entry);
        }
    } else {
        lemma_weight_without_last_entry(frames);
        let rest = without_last_entry(frames);
        let top = frames.last();
        let last = frames.len() - 1;
        let entry = top.entries.last();
        if visited(volume, rest, top.path, entry) is Some {
            if let Some(Ok(item)) = stepped(volume, frames).yielded {
                assert(frames[last].entries[top.entries.len() - 1] == item.entry);
            }
        } else {
            lemma_yielded_item(volume, rest);
            if let Some(Ok(item)) = stepped(volume, frames).yielded {
                let (k, j) = choose|k: int, j: int|
                    0 <= k < rest.len() && 0 <= j < rest[k].entries.len()
                        && #[trigger] rest[k].entries[j] == item.entry && item.path == child_path(
                        rest[k].path,
                        item.entry.name_text(),
                    );
                if k == last {
                    assert(rest[k].entries == top.entries.drop_last());
                    assert(frames[k].entries[j] == item.entry);
                } else {
                    assert(rest[k] == frames[k]);
                    assert(frames[k].entries[j] == item.entry);
                }
            }
        }
    }
}

/// Every item that a walk yields is what a walk yields for its entry: the
/// entry is neither `.` nor `..` and the inode is of a known kind.
pub proof fn lemma_walked_items(volume: &Volume, frames: Seq<FrameView>, steps: nat, i: int)
    requires
        0 <= i < walked(volume, frames, steps).items.len(),
    ensures
        walked(volume, frames, steps).items[i] matches Ok(item) ==> is_item_of(volume, item),
    decreases steps,
{
    let step = stepped(volume, frames);
    lemma_yielded_item(volume, frames);
    if steps > 0 && step.yielded is Some {
        if i > 0 {
            let rest = walked(volume, step.frames, (steps - 1) as nat);
            lemma_walked_items(volume, step.frames, (steps - 1) as nat, i - 1);
            assert(walked(volume, frames, steps).items[i] == rest.items[i - 1]);
        }
    }
}

/// There are as many paths of entries as there are entries other than `.`
/// and `..`.
pub proof fn lemma_entry_paths_are_counted(directory: Seq<char>, entries: Seq<DirectoryEntryView>)
    ensures
        entry_paths(directory, entries).len() == regular_count(entries),
    decreases entries.len(),
{
    if entries.len() > 0 {
        lemma_entry_paths_are_counted(directory, entries.drop_last());
    }
}

/// The stack holds as many paths as it holds entries other than `.` and
/// `..`.
pub proof fn lemma_pending_paths_are_counted(frames: Seq<FrameView>)
    ensures
        pending_paths(frames).len() == live(frames),
    decreases frames.len(),
{
    if frames.len() > 0 {
        lemma_pending_paths_are_counted(frames.drop_last());
        lemma_entry_paths_are_counted(frames.last().path, frames.last().entries);
    }
}

/// What a walk gives after some steps.
pub struct Walked {
    /// What was yielded, in order.
    pub items: Seq<Result<WalkItemView, Failure>>,
    /// The stack that is left.
    pub frames: Seq<FrameView>,
    /// The paths of the items that were yielded.
    pub yielded: Multiset<Seq<char>>,
    /// The paths of the entries whose failure was yielded.
    pub failed: Multiset<Seq<char>>,
    /// The paths of the entries of every directory that was entered.
    pub entered: Multiset<Seq<char>>,
    /// The paths of the entries other than `.` and `..` that were passed
    /// over.
    pub passed_over: Multiset<Seq<char>>,
}

/// The walk over `frames`, taken for `steps` steps or until it is over:
/// what calling `next` that many times gives, one call after the other.
pub open spec fn walked(volume: &Volume, frames: Seq<FrameView>, steps: nat) -> Walked
    decreases steps,
{
    let step = stepped(volume, frames);
    if steps == 0 {
        Walked {
            items: Seq::empty(),
            frames,
            yielded: Multiset::empty(),
            failed: Multiset::empty(),
            entered: Multiset::empty(),
            passed_over: Multiset::empty(),
        }
    } else {
        match step.yielded {
            None => Walked {
                items: Seq::empty(),
                frames: step.frames,
                yielded: Multiset::empty(),
                failed: Multiset::empty(),
                entered: Multiset::empty(),
                passed_over: step.passed_over,
            },
            Some(result) => {
                let rest = walked(volume, step.frames, (steps - 1) as nat);
                Walked {
                    items: seq![result] + rest.items,
                    frames: rest.frames,
                    yielded: match result {
                        Ok(item) => rest.yielded.insert(item.path),
                        Err(_) => rest.yielded,
                    },
                    failed: match result {
                        Ok(_) => rest.failed,
                        Err(_) => rest.failed.add(visited_paths(step)),
                    },
                    entered: rest.entered.add(entered_paths(step)),
                    passed_over: rest.passed_over.add(step.passed_over),
                }
            },
        }
    }
}

/// A walk takes each entry off the stack once, by its path.
///
/// The entries that were on the stack at the start, with those of every
/// directory entered on the way, are the entries still on the stack, those
/// passed over, those that failed, and those that were yielded: each entry
/// is in exactly one of the four. Each item that is yielded, failures
/// counted, stands for one entry.
pub proof fn lemma_walk_takes_each_path_once(volume: &Volume, frames: Seq<FrameView>, steps: nat)
    ensures
        pending_paths(frames).add(walked(volume, frames, steps).entered) == pending_paths(
            walked(volume, frames, steps).frames,
        ).add(walked(volume, frames, steps).passed_over).add(
            walked(volume, frames, steps).failed,
        ).add(walked(volume, frames, steps).yielded),
        walked(volume, frames, steps).items.len() == walked(volume, frames, steps).yielded.len()
            + walked(volume, frames, steps).failed.len(),
    decreases steps,
{
    let walk = walked(volume, frames, steps);
    let step = stepped(volume, frames);
    let before = pending_paths(frames);
    lemma_step_takes_each_path_once(volume, frames);
    if steps == 0 {
        assert(before.add(walk.entered) =~= pending_paths(walk.frames).add(walk.passed_over).add(
            walk.failed,
        ).add(walk.yielded));
    } else if step.yielded is None {
        assert(before.add(walk.entered) =~= pending_paths(walk.frames).add(walk.passed_over).add(
            walk.failed,
        ).add(walk.yielded)) by {
            assert(entered_paths(step) =~= Multiset::<Seq<char>>::empty());
            assert(visited_paths(step) =~= Multiset::<Seq<char>>::empty());
        }
    } else {
        let rest = walked(volume, step.frames, (steps - 1) as nat);
        lemma_walk_takes_each_path_once(volume, step.frames, (steps - 1) as nat);
        let middle = pending_paths(step.frames);
        let after = pending_paths(rest.frames);
        let one = visited_paths(step);
        assert(before.add(entered_paths(step)) == middle.add(step.passed_over).add(one));
        assert(middle.add(rest.entered) == after.add(rest.passed_over).add(rest.failed).add(
            rest.yielded,
        ));
        assert(walk.failed.add(walk.yielded) =~= rest.failed.add(rest.yielded).add(one));
        assert(one.len() == 1);
        assert(before.add(walk.entered) =~= after.add(walk.passed_over).add(walk.failed).add(
            walk.yielded,
        )) by {
            assert(before.add(rest.entered.add(entered_paths(step))) =~= before.add(
                entered_paths(step),
            ).add(rest.entered));
            assert(middle.add(step.passed_over).add(one).add(rest.entered) =~= middle.add(
                rest.entered,
            ).add(step.passed_over).add(one));
            assert(after.add(rest.passed_over).add(rest.failed).add(rest.yielded).add(
                step.passed_over,
            ).add(one) =~= after.add(rest.passed_over.add(step.passed_over)).add(
                rest.failed.add(rest.yielded).add(one),
            ));
            assert(after.add(walk.passed_over).add(walk.failed.add(walk.yielded)) =~= after.add(
                walk.passed_over,
            ).add(walk.failed).add(walk.yielded));
        }
    }
}

/// A walk that is over, in which nothing failed and nothing was passed
/// over, yielded one item for each entry other than `.` and `..` of the
/// directories it started with and of every directory it entered, under
/// the path of that entry, and nothing else.
pub proof fn lemma_finished_walk_yields_every_entry_once(
    volume: &Volume,
    frames: Seq<FrameView>,
    steps: nat,
)
    requires
        walked(volume, frames, steps).frames.len() == 0,
        walked(volume, frames, steps).failed.len() == 0,
        walked(volume, frames, steps).passed_over.len() == 0,
    ensures
        walked(volume, frames, steps).yielded == pending_paths(frames).add(
            walked(volume, frames, steps).entered,
        ),
        walked(volume, frames, steps).items.len() == live(frames) + walked(
            volume,
            frames,
            steps,
        ).entered.len(),
{
    let walk = walked(volume, frames, steps);
    lemma_walk_takes_each_path_once(volume, frames, steps);
    lemma_pending_paths_are_counted(frames);
    assert(walk.failed =~= Multiset::<Seq<char>>::empty());
    assert(walk.passed_over =~= Multiset::<Seq<char>>::empty());
    assert(pending_paths(walk.frames) =~= Multiset::<Seq<char>>::empty());
    assert(pending_paths(frames).add(walk.entered) =~= walk.yielded);
}

/// What a walker's `next` returned, by its views.
pub open spec fn yielded_view(r: Option<Result<WalkItem, Error>>) -> Option<
    Result<WalkItemView, Failure>,
> {
    match r {
        None => None,
        Some(Ok(item)) => Some(Ok(item@)),
        Some(Err(e)) => Some(Err(e@)),
    }
}

/// A walk in progress: the directories that the walk is inside of, each
/// with the entries of it that are still to visit.
#[derive(Debug)]
pub struct DirectoryWalker {
    pub volume: Volume,
    pub stack: Vec<WalkEntry>,
}

impl DirectoryWalker {
    /// The directories that the walk is inside of.
    pub open spec fn frames(&self) -> Seq<FrameView> {
        frame_views(self.stack@)
    }

    /// Starts a walk below `directory`.
    pub fn new(directory: Directory) -> (r: Self)
        ensures
            r.volume == directory.volume,
            r.frames() == seq![
                FrameView { path: directory.path@, entries: entry_views(directory.entries@) },
            ],
    {
        let Directory { volume, path, inode: _, entries } = directory;
        let mut stack: Vec<WalkEntry> = Vec::new();
        let frame = WalkEntry { path, entries };
        stack.push(frame);
        assert(frame_views(stack@) =~= seq![frame@]);
        DirectoryWalker { volume, stack }
    }

    /// Starts a walk below the directory that `path` names.
    pub fn from_path(volume: &Volume, path: &str) -> (r: Result<Self, Error>)
        requires
            volume.wf(),
        ensures
            match r {
                Ok(walker) => volume.spec_lookup(path@) matches Ok((inode, normal))
                    && Directory::opened(volume, inode, normal) matches Ok(entries)
                    && walker.volume == *volume && walker.frames() == seq![
                    FrameView { path: normal, entries },
                ],
                Err(e) => match volume.spec_lookup(path@) {
                    Err(f) => e@ == f,
                    Ok((inode, normal)) => Directory::opened(volume, inode, normal) == Err::<
                        Seq<DirectoryEntryView>,
                        Failure,
                    >(e@),
                },
            },
    {
        let directory = volume.open_dir(path)?;
        Ok(Self::new(directory))
    }

    /// The path of the directory whose entries are visited next.
    pub fn current_path(&self) -> (r: Option<&str>)
        ensures
            match r {
                Some(path) => self.stack@.len() > 0 && path@ == self.stack@.last().path@,
                None => self.stack@.len() == 0,
            },
    {
        if self.stack.len() == 0 {
            None
        } else {
            Some(self.stack[self.stack.len() - 1].path.as_str())
        }
    }

    /// Visits `entry` of the directory `directory`.
    fn visit(&mut self, directory: &str, entry: DirectoryEntry) -> (r: Option<
        Result<WalkItem, Error>,
    >)
        requires
            old(self).volume.wf(),
        ensures
            final(self).volume == old(self).volume,
            match visited(&old(self).volume, old(self).frames(), directory@, entry@) {
                None => r is None && final(self).frames() == old(self).frames(),
                Some(step) => r is Some && yielded_view(r) == step.yielded
                    && final(self).frames() == step.frames,
            },
    {
        let name = entry.name_str();
        proof {
            reveal_strlit(".");
            reveal_strlit("..");
            assert("."@ =~= seq!['.']);
            assert(".."@ =~= seq!['.', '.']);
        }
        if same_text(name, ".") || same_text(name, "..") {
            return None;
        }
        let inode = match self.volume.read_inode(entry.inode) {
            Ok(inode) => inode,
            Err(e) => {
                return Some(Err(e));
            },
        };
        if inode.file_type().is_none() {
            return None;
        }
        let item_path = join_path(directory, name);
        let attributes = EntryAttributes::read(&self.volume, &inode);
        if inode.is_directory() {
            if self.stack.len() >= MAX_WALK_DEPTH {
                return Some(
                    Err(
                        Error::InvalidPath {
                            path: item_path,
                            reason: "directory nesting exceeds the depth limit",
                        },
                    ),
                );
            }
            let entries = match Directory::parse_entries(&self.volume, &inode) {
                Ok(entries) => entries,
                Err(e) => {
                    return Some(Err(e));
                },
            };
            let entered = WalkEntry { path: item_path.clone(), entries };
            let ghost before = self.stack@;
            self.stack.push(entered);
            assert(frame_views(self.stack@) =~= frame_views(before).push(entered@));
        }
        Some(Ok(WalkItem { path: item_path, entry, inode, attributes }))
    }

    /// Takes one step of the walk: yields the next entry, or the failure of
    /// an entry that could not be read, or nothing when the walk is over.
    ///
    /// An item that is yielded stands for one of the entries that were on
    /// the stack: its path is the path of its directory joined with its
    /// name, its entry is neither `.` nor `..`, and its inode is of a known
    /// kind.
    pub fn next(&mut self) -> (r: Option<Result<WalkItem, Error>>)
        requires
            old(self).volume.wf(),
        ensures
            final(self).volume == old(self).volume,
            yielded_view(r) == stepped(&old(self).volume, old(self).frames()).yielded,
            final(self).frames() == stepped(&old(self).volume, old(self).frames()).frames,
            r matches Some(Ok(item)) ==> item.inode@.file_type() is Some && !item.entry@.is_dot()
                && is_item_of(&old(self).volume, item@) && is_entry_of(
                old(self).frames(),
                item@,
            ),
    {
        proof {
            lemma_yielded_item(&self.volume, self.frames());
        }
        self.step()
    }

    /// Visits entries until one is not passed over.
    fn step(&mut self) -> (r: Option<Result<WalkItem, Error>>)
        requires
            old(self).volume.wf(),
        ensures
            final(self).volume == old(self).volume,
            yielded_view(r) == stepped(&old(self).volume, old(self).frames()).yielded,
            final(self).frames() == stepped(&old(self).volume, old(self).frames()).frames,
    {
        loop
            invariant
                self.volume == old(self).volume,
                self.volume.wf(),
                stepped(&self.volume, self.frames()).yielded == stepped(
                    &old(self).volume,
                    old(self).frames(),
                ).yielded,
                stepped(&self.volume, self.frames()).frames == stepped(
                    &old(self).volume,
                    old(self).frames(),
                ).frames,
            decreases weight(self.frames()),
        {
            let ghost frames = self.frames();
            let mut frame = match self.stack.pop() {
                Some(frame) => frame,
                None => {
                    return None;
                },
            };
            assert(frames.last() == frame@);
            assert(frame_views(self.stack@) =~= frames.drop_last());
            let ghost top_entries = frame.entries@;
            match frame.entries.pop() {
                None => {
                    assert(frame@.entries.len() == 0);
                },
                Some(entry) => {
                    proof {
                        lemma_weight_without_last_entry(frames);
                        assert(entry_views(top_entries).last() == entry@);
                        assert(entry_views(frame.entries@) =~= entry_views(
                            top_entries,
                        ).drop_last());
                    }
                    let directory = frame.path.clone();
                    self.stack.push(frame);
                    assert(frame_views(self.stack@) =~= without_last_entry(frames));
                    match self.visit(directory.as_str(), entry) {
                        Some(result) => {
                            return Some(result);
                        },
                        None => {},
                    }
                },
            }
        }
    }
}

/// What a walker yielded over several steps, by its views.
pub open spec fn results_view(results: Seq<Result<WalkItem, Error>>) -> Seq<
    Result<WalkItemView, Failure>,
> {
    results.map_values(|r: Result<WalkItem, Error>| outcome_view(r))
}

impl DirectoryWalker {
    /// Takes up to `limit` steps of the walk and returns what they yielded,
    /// in order. Fewer are taken if the walk is over before.
    pub fn take(&mut self, limit: usize) -> (r: Vec<Result<WalkItem, Error>>)
        requires
            old(self).volume.wf(),
        ensures
            final(self).volume == old(self).volume,
            results_view(r@) == walked(&old(self).volume, old(self).frames(), limit as nat).items,
            final(self).frames() == walked(
                &old(self).volume,
                old(self).frames(),
                limit as nat,
            ).frames,
            forall|i: int|
                0 <= i < r@.len() ==> (#[trigger] r@[i] matches Ok(item) ==> is_item_of(
                    &old(self).volume,
                    item@,
                )),
    {
        let r = self.take_steps(limit);
        proof {
            let whole = walked(&old(self).volume, old(self).frames(), limit as nat);
            assert(results_view(r@).len() == r@.len());
            assert forall|i: int| 0 <= i < r@.len() implies (#[trigger] r@[i] matches Ok(item)
                ==> is_item_of(&old(self).volume, item@)) by {
                lemma_walked_items(&old(self).volume, old(self).frames(), limit as nat, i);
                assert(results_view(r@)[i] == outcome_view(r@[i]));
            }
        }
        r
    }

    /// Takes up to `limit` steps, one after the other.
    fn take_steps(&mut self, limit: usize) -> (r: Vec<Result<WalkItem, Error>>)
        requires
            old(self).volume.wf(),
        ensures
            final(self).volume == old(self).volume,
            results_view(r@) == walked(&old(self).volume, old(self).frames(), limit as nat).items,
            final(self).frames() == walked(
                &old(self).volume,
                old(self).frames(),
                limit as nat,
            ).frames,
    {
        let mut results: Vec<Result<WalkItem, Error>> = Vec::new();
        let mut taken: usize = 0;
        let ghost whole = walked(&old(self).volume, old(self).frames(), limit as nat);
        assert(results_view(results@) + whole.items =~= whole.items);
        while taken < limit
            invariant
                taken <= limit,
                self.volume == old(self).volume,
                self.volume.wf(),
                whole == walked(&old(self).volume, old(self).frames(), limit as nat),
                whole.items == results_view(results@) + walked(
                    &self.volume,
                    self.frames(),
                    (limit - taken) as nat,
                ).items,
                whole.frames == walked(
                    &self.volume,
                    self.frames(),
                    (limit - taken) as nat,
                ).frames,
            decreases limit - taken,
        {
            let ghost before = results@;
            let ghost here = walked(&self.volume, self.frames(), (limit - taken) as nat);
            match self.next() {
                None => {
                    assert(results_view(results@) + Seq::empty() =~= results_view(results@));
                    return results;
                },
                Some(result) => {
                    let ghost seen = outcome_view(result);
                    results.push(result);
                    proof {
                        let rest = walked(
                            &self.volume,
                            self.frames(),
                            (limit - taken - 1) as nat,
                        );
                        assert(here.items == seq![seen] + rest.items);
                        assert(results_view(results@) =~= results_view(before).push(seen));
                        assert(results_view(before) + (seq![seen] + rest.items)
                            =~= results_view(results@) + rest.items);
                    }
                },
            }
            taken += 1;
        }
        assert(results_view(results@) + Seq::empty() =~= results_view(results@));
        results
    }
}

impl Directory {
    /// Starts a walk below this directory.
    pub fn walk(self) -> (r: DirectoryWalker)
        ensures
            r.volume == self.volume,
            r.frames() == seq![
                FrameView { path: self.path@, entries: entry_views(self.entries@) },
            ],
    {
        DirectoryWalker::new(self)
    }
}

} // verus!

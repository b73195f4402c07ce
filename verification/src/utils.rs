//! Errors, and paths: what every part of the library shares.

use crate::ext4::text::{push_chars, to_chars};
use nom::error::ErrorKind;
use vstd::prelude::*;
use vstd::slice::{slice_subrange, slice_to_vec};
use vstd::string::StringExecFns;

verus! {

/// The structure that was being decoded when a failure was detected.
#[derive(Debug, Clone, Copy, PartialEq, Eq, Structural)]
pub enum ParseContext {
    Superblock,
    BlockGroupDescriptor,
    Inode,
    ExtentHeader,
    ExtentIndex,
    Extent,
    XAttrHeader,
    XAttrIbodyHeader,
    XAttrEntry,
    Capability,
}

impl ParseContext {
    /// The words that name this structure in a message.
    pub open spec fn label(self) -> Seq<char> {
        match self {
            ParseContext::Superblock => "superblock"@,
            ParseContext::BlockGroupDescriptor => "block group descriptor"@,
            ParseContext::Inode => "inode"@,
            ParseContext::ExtentHeader => "extent header"@,
            ParseContext::ExtentIndex => "extent index"@,
            ParseContext::Extent => "extent"@,
            ParseContext::XAttrHeader => "xattr header"@,
            ParseContext::XAttrIbodyHeader => "xattr ibody header"@,
            ParseContext::XAttrEntry => "xattr entry"@,
            ParseContext::Capability => "capability"@,
        }
    }

    /// The words that name this structure in a message.
    pub fn as_str(&self) -> (s: &'static str)
        ensures
            s@ == self.label(),
    {
        match self {
            ParseContext::Superblock => "superblock",
            ParseContext::BlockGroupDescriptor => "block group descriptor",
            ParseContext::Inode => "inode",
            ParseContext::ExtentHeader => "extent header",
            ParseContext::ExtentIndex => "extent index",
            ParseContext::Extent => "extent",
            ParseContext::XAttrHeader => "xattr header",
            ParseContext::XAttrIbodyHeader => "xattr ibody header",
            ParseContext::XAttrEntry => "xattr entry",
            ParseContext::Capability => "capability",
        }
    }

    /// The words that name this structure, as an owned text.
    pub fn to_string(&self) -> (s: String)
        ensures
            s@ == self.label(),
    {
        String::from_str(self.as_str())
    }
}

/// The ways in which reading and seeking can fail.
#[derive(Debug, Clone, Copy, PartialEq, Eq, Structural)]
pub enum IoFailure {
    /// The image ends before the last byte that the read asked for.
    UnexpectedEof,
    /// A seek to a position before the start of the file, or beyond what a
    /// position can hold.
    InvalidSeek,
}

/// Everything that can go wrong while an image is read.
#[derive(Debug)]
pub enum Error {
    /// A read that the image cannot serve, or a seek to a position that no
    /// file has.
    Io(IoFailure),
    /// A structure does not start with the number that identifies it.
    InvalidMagic(ParseContext),
    /// A buffer is too short for the structure, or a field is out of range.
    InvalidData { context: ParseContext, message: String },
    /// An inode number that no inode can have.
    InvalidInode { inode: u32, reason: &'static str },
    /// A block group index at or beyond the number of groups.
    InvalidBlockGroup { index: u32, count: u32 },
    /// A component of the path names no entry of its directory.
    PathNotFound { path: String, component: String },
    /// A component of the path is not valid UTF-8. Paths given as text do
    /// not give this error.
    InvalidUtf8InPath,
    /// A directory was needed and the inode is something else.
    NotADirectory(String),
    /// A regular file or symbolic link was needed and the inode is something else.
    NotAFile(String),
    /// The path cannot be normalized.
    InvalidPath { path: String, reason: &'static str },
    /// A read that starts at or after the end of the file.
    ReadBeyondEof { file_size: u64, offset: u64 },
    /// A directory record, at the given offset, that cannot be what it
    /// says. Decoding a directory does not give this error: a record that
    /// cannot be decoded ends the list.
    CorruptedDirectoryEntry(usize),
}

/// What an [`Error`] says, with its texts as sequences of characters.
pub enum Failure {
    Io(IoFailure),
    InvalidMagic(ParseContext),
    InvalidData { context: ParseContext, message: Seq<char> },
    InvalidInode { inode: u32, reason: Seq<char> },
    InvalidBlockGroup { index: u32, count: u32 },
    PathNotFound { path: Seq<char>, component: Seq<char> },
    InvalidUtf8InPath,
    NotADirectory(Seq<char>),
    NotAFile(Seq<char>),
    InvalidPath { path: Seq<char>, reason: Seq<char> },
    ReadBeyondEof { file_size: u64, offset: u64 },
    CorruptedDirectoryEntry(usize),
}

impl View for Error {
    type V = Failure;

    open spec fn view(&self) -> Failure {
        match self {
            Error::Io(kind) => Failure::Io(*kind),
            Error::InvalidMagic(c) => Failure::InvalidMagic(*c),
            Error::InvalidData { context, message } => Failure::InvalidData {
                context: *context,
                message: message@,
            },
            Error::InvalidInode { inode, reason } => Failure::InvalidInode {
                inode: *inode,
                reason: reason@,
            },
            Error::InvalidBlockGroup { index, count } => Failure::InvalidBlockGroup {
                index: *index,
                count: *count,
            },
            Error::PathNotFound { path, component } => Failure::PathNotFound {
                path: path@,
                component: component@,
            },
            Error::InvalidUtf8InPath => Failure::InvalidUtf8InPath,
            Error::NotADirectory(p) => Failure::NotADirectory(p@),
            Error::NotAFile(p) => Failure::NotAFile(p@),
            Error::InvalidPath { path, reason } => Failure::InvalidPath {
                path: path@,
                reason: reason@,
            },
            Error::ReadBeyondEof { file_size, offset } => Failure::ReadBeyondEof {
                file_size: *file_size,
                offset: *offset,
            },
            Error::CorruptedDirectoryEntry(at) => Failure::CorruptedDirectoryEntry(*at),
        }
    }
}

/// A result with its error replaced by what the error says.
pub open spec fn outcome<T>(r: Result<T, Error>) -> Result<T, Failure> {
    match r {
        Ok(v) => Ok(v),
        Err(e) => Err(e@),
    }
}

/// A result with its value and its error replaced by their views.
pub open spec fn outcome_view<T: View>(r: Result<T, Error>) -> Result<T::V, Failure> {
    match r {
        Ok(v) => Ok(v@),
        Err(e) => Err(e@),
    }
}

/// The failure of a decoder that was given too few bytes.
pub open spec fn short_buffer(context: ParseContext) -> Failure {
    Failure::InvalidData { context, message: "buffer too small"@ }
}

/// The failure of a read that reaches beyond the end of the image.
pub open spec fn end_of_image() -> Failure {
    Failure::Io(IoFailure::UnexpectedEof)
}

/// The failure of a read that asked for inode 0.
pub open spec fn inode_zero_failure() -> Failure {
    Failure::InvalidInode { inode: 0, reason: "inode 0 is reserved and cannot be read"@ }
}

impl Error {
    /// The error for a number that nom could not read. nom's fixed-width
    /// number parsers refuse nothing but input that ends too early, so the
    /// failure is reported as a short buffer.
    pub fn nom_parse(context: ParseContext, kind: ErrorKind) -> (e: Error)
        ensures
            e@ == short_buffer(context),
    {
        let _ = kind;
        Error::invalid_data(context, "buffer too small")
    }

    /// The error for data that cannot be what `context` names, for the
    /// reason that `message` gives.
    pub fn invalid_data(context: ParseContext, message: &str) -> (e: Error)
        ensures
            e@ == (Failure::InvalidData { context, message: message@ }),
    {
        Error::InvalidData { context, message: String::from_str(message) }
    }

    /// The error for a read that asked for inode 0, which no file has.
    pub fn inode_zero() -> (e: Error)
        ensures
            e@ == inode_zero_failure(),
    {
        Error::InvalidInode { inode: 0, reason: "inode 0 is reserved and cannot be read" }
    }

    /// The error for a read that reaches beyond the end of the image.
    pub fn unexpected_eof() -> (e: Error)
        ensures
            e@ == end_of_image(),
    {
        Error::Io(IoFailure::UnexpectedEof)
    }
}

/// How a path starts: with nothing that sets it apart, with the root, or
/// with the current directory.
#[derive(Debug, Clone, Copy, PartialEq, Eq, Structural)]
pub enum Lead {
    Bare,
    Root,
    Current,
}

/// The name of the current directory.
pub open spec fn dot() -> Seq<char> {
    seq!['.']
}

/// The name of the parent directory.
pub open spec fn dot_dot() -> Seq<char> {
    seq!['.', '.']
}

/// The reason for refusing a path whose first component is the parent
/// directory.
pub open spec fn starts_with_parent() -> Seq<char> {
    "path cannot start with parent directory reference"@
}

/// The reason for refusing a path that climbs above where it starts.
pub open spec fn climbs_above_root() -> Seq<char> {
    "parent directory reference goes above root"@
}

/// The index at which the run of characters other than `/` that starts at
/// `i` ends.
pub open spec fn run_end(path: Seq<char>, i: int) -> int
    decreases path.len() - i,
{
    if i < 0 || i >= path.len() || path[i] == '/' {
        i
    } else {
        run_end(path, i + 1)
    }
}

/// A run that starts on a character other than `/` is not empty and ends
/// within the path.
pub proof fn lemma_run_end(path: Seq<char>, i: int)
    requires
        0 <= i <= path.len(),
    ensures
        i <= run_end(path, i) <= path.len(),
        i < path.len() && path[i] != '/' ==> i < run_end(path, i),
        run_end(path, i) < path.len() ==> path[run_end(path, i)] == '/',
        forall|k: int| i <= k < run_end(path, i) ==> path[k] != '/',
    decreases path.len() - i,
{
    if i < path.len() && path[i] != '/' {
        lemma_run_end(path, i + 1);
    }
}

/// The segments of `path` from index `i` on: the runs of characters other
/// than `/`, in order. Separators that follow one another part nothing.
pub open spec fn segments_from(path: Seq<char>, i: int) -> Seq<Seq<char>>
    decreases path.len() - i,
{
    if i < 0 || i >= path.len() {
        Seq::empty()
    } else if path[i] == '/' {
        segments_from(path, i + 1)
    } else {
        proof {
            lemma_run_end(path, i);
        }
        seq![path.subrange(i, run_end(path, i))] + segments_from(path, run_end(path, i))
    }
}

/// The segments of `path`.
pub open spec fn segments(path: Seq<char>) -> Seq<Seq<char>> {
    segments_from(path, 0)
}

/// How `path` starts.
pub open spec fn lead_of(path: Seq<char>) -> Lead {
    if path.len() > 0 && path[0] == '/' {
        Lead::Root
    } else if segments(path).len() > 0 && segments(path)[0] == dot() {
        Lead::Current
    } else {
        Lead::Bare
    }
}

/// The names that are left of `segments` from index `i` on, added to
/// `stack`: `.` adds nothing, `..` takes the last name away, anything else
/// is a name. `None` if `..` finds no name to take away.
pub open spec fn resolved_names(segments: Seq<Seq<char>>, i: int, stack: Seq<Seq<char>>) -> Option<
    Seq<Seq<char>>,
>
    decreases segments.len() - i,
{
    if i < 0 || i >= segments.len() {
        Some(stack)
    } else if segments[i] == dot() {
        resolved_names(segments, i + 1, stack)
    } else if segments[i] == dot_dot() {
        if stack.len() == 0 {
            None
        } else {
            resolved_names(segments, i + 1, stack.drop_last())
        }
    } else {
        resolved_names(segments, i + 1, stack.push(segments[i]))
    }
}

/// The names that `path` comes down to, or the reason for refusing it.
pub open spec fn normal_names(path: Seq<char>) -> Result<Seq<Seq<char>>, Seq<char>> {
    let parts = segments(path);
    if lead_of(path) == Lead::Bare && parts.len() > 0 && parts[0] == dot_dot() {
        Err(starts_with_parent())
    } else {
        match resolved_names(parts, 0, Seq::empty()) {
            None => Err(climbs_above_root()),
            Some(names) => Ok(names),
        }
    }
}

/// `names` with `/` between them.
pub open spec fn joined(names: Seq<Seq<char>>) -> Seq<char>
    decreases names.len(),
{
    if names.len() == 0 {
        Seq::empty()
    } else if names.len() == 1 {
        names[0]
    } else {
        names[0] + seq!['/'] + joined(names.drop_first())
    }
}

/// The path that starts as `lead` says and goes through `names`.
pub open spec fn rendered(lead: Lead, names: Seq<Seq<char>>) -> Seq<char> {
    match lead {
        Lead::Bare => joined(names),
        Lead::Root => seq!['/'] + joined(names),
        Lead::Current => if names.len() == 0 {
            dot()
        } else {
            seq!['.', '/'] + joined(names)
        },
    }
}

/// What normalizing `path` gives: the path without its `.` components and
/// with every `..` resolved against the name before it; or the failure of
/// a path that starts with `..` or climbs above where it starts.
///
/// A path is a path in an image: `/` is its only separator, and it has no
/// drive prefix. A component such as `C:` is a name like any other, at the
/// start of a path and in the middle of it, so no path is refused for
/// holding a prefix.
pub open spec fn normalized(path: Seq<char>) -> Result<Seq<char>, Failure> {
    match normal_names(path) {
        Err(reason) => Err(Failure::InvalidPath { path, reason }),
        Ok(names) => Ok(rendered(lead_of(path), names)),
    }
}

/// The path of the entry `name` of the directory `directory`.
pub open spec fn child_path(directory: Seq<char>, name: Seq<char>) -> Seq<char> {
    if directory.len() > 0 && directory.last() == '/' {
        directory + name
    } else {
        directory + seq!['/'] + name
    }
}

/// The path of the entry `name` of the directory `directory`.
pub fn join_path(directory: &str, name: &str) -> (r: String)
    ensures
        r@ == child_path(directory@, name@),
{
    let start = to_chars(directory);
    let mut out = String::new();
    push_chars(&mut out, start.as_slice());
    if !(start.len() > 0 && start[start.len() - 1] == '/') {
        out.push('/');
    }
    let end = to_chars(name);
    push_chars(&mut out, end.as_slice());
    assert(out@ =~= child_path(directory@, name@));
    out
}

/// The texts of `parts`.
pub open spec fn texts(parts: Seq<Vec<char>>) -> Seq<Seq<char>> {
    parts.map_values(|p: Vec<char>| p@)
}

/// Splits `path` at its separators.
pub fn split_segments(path: &[char]) -> (r: Vec<Vec<char>>)
    ensures
        texts(r@) == segments(path@),
{
    let mut parts: Vec<Vec<char>> = Vec::new();
    let mut i: usize = 0;
    let length = path.len();
    assert(texts(parts@) + segments_from(path@, 0) =~= segments(path@));
    while i < length
        invariant
            i <= length == path@.len(),
            segments(path@) == texts(parts@) + segments_from(path@, i as int),
        decreases length - i,
    {
        if path[i] == '/' {
            i += 1;
        } else {
            let mut end: usize = i;
            while end < length && path[end] != '/'
                invariant
                    i <= end <= length == path@.len(),
                    run_end(path@, i as int) == run_end(path@, end as int),
                decreases length - end,
            {
                end += 1;
            }
            proof {
                lemma_run_end(path@, i as int);
            }
            let part = slice_to_vec(slice_subrange(path, i, end));
            let ghost before = parts@;
            parts.push(part);
            proof {
                assert(texts(parts@) =~= texts(before).push(part@));
                assert(texts(before) + (seq![part@] + segments_from(path@, end as int)) =~= texts(
                    parts@,
                ) + segments_from(path@, end as int));
            }
            i = end;
        }
    }
    assert(texts(parts@) + Seq::<Seq<char>>::empty() =~= texts(parts@));
    parts
}

/// Whether `part` is the name of the current directory.
pub fn is_dot(part: &[char]) -> (r: bool)
    ensures
        r == (part@ == dot()),
{
    let r = part.len() == 1 && part[0] == '.';
    assert(r ==> part@ =~= dot());
    r
}

/// Whether `part` is the name of the parent directory.
pub fn is_dot_dot(part: &[char]) -> (r: bool)
    ensures
        r == (part@ == dot_dot()),
{
    let r = part.len() == 2 && part[0] == '.' && part[1] == '.';
    assert(r ==> part@ =~= dot_dot());
    r
}

/// How `path`, split into `parts`, starts.
fn lead_in(path: &[char], parts: &Vec<Vec<char>>) -> (r: Lead)
    requires
        texts(parts@) == segments(path@),
    ensures
        r == lead_of(path@),
{
    if path.len() > 0 && path[0] == '/' {
        Lead::Root
    } else if parts.len() > 0 && is_dot(parts[0].as_slice()) {
        assert(texts(parts@)[0] == parts@[0]@);
        Lead::Current
    } else {
        proof {
            if parts@.len() > 0 {
                assert(texts(parts@)[0] == parts@[0]@);
            }
        }
        Lead::Bare
    }
}

/// The names that `path` comes down to, with how it starts.
pub fn path_names(path: &str) -> (r: Result<(Lead, Vec<Vec<char>>), Error>)
    ensures
        match r {
            Ok((lead, names)) => normal_names(path@) == Ok::<Seq<Seq<char>>, Seq<char>>(
                texts(names@),
            ) && lead == lead_of(path@),
            Err(e) => normal_names(path@) matches Err(reason) && e@ == (Failure::InvalidPath {
                path: path@,
                reason,
            }),
        },
{
    let chars = to_chars(path);
    let parts = split_segments(chars.as_slice());
    let lead = lead_in(chars.as_slice(), &parts);
    let starts_bare = match lead {
        Lead::Bare => true,
        _ => false,
    };
    if starts_bare && parts.len() > 0 && is_dot_dot(parts[0].as_slice()) {
        assert(texts(parts@)[0] == parts@[0]@);
        return Err(
            Error::InvalidPath {
                path: path.to_owned(),
                reason: "path cannot start with parent directory reference",
            },
        );
    }
    proof {
        if parts@.len() > 0 {
            assert(texts(parts@)[0] == parts@[0]@);
        }
    }
    let mut stack: Vec<Vec<char>> = Vec::new();
    let mut i: usize = 0;
    assert(texts(stack@) =~= Seq::<Seq<char>>::empty());
    while i < parts.len()
        invariant
            i <= parts@.len(),
            texts(parts@) == segments(path@),
            !(lead_of(path@) == Lead::Bare && parts@.len() > 0 && texts(parts@)[0] == dot_dot()),
            resolved_names(texts(parts@), 0, Seq::empty()) == resolved_names(
                texts(parts@),
                i as int,
                texts(stack@),
            ),
        decreases parts@.len() - i,
    {
        let part = parts[i].as_slice();
        assert(texts(parts@)[i as int] == part@);
        if is_dot(part) {
        } else if is_dot_dot(part) {
            if stack.len() == 0 {
                return Err(
                    Error::InvalidPath {
                        path: path.to_owned(),
                        reason: "parent directory reference goes above root",
                    },
                );
            }
            let ghost before = stack@;
            stack.pop();
            assert(texts(stack@) =~= texts(before).drop_last());
        } else {
            let ghost before = stack@;
            let name = slice_to_vec(part);
            stack.push(name);
            assert(texts(stack@) =~= texts(before).push(part@));
        }
        i += 1;
    }
    Ok((lead, stack))
}

/// Writes `names` with `/` between them at the end of `out`.
pub fn push_joined(out: &mut String, names: &Vec<Vec<char>>)
    ensures
        final(out)@ == old(out)@ + joined(texts(names@)),
{
    let mut i: usize = 0;
    let ghost all = texts(names@);
    assert(all.skip(0) =~= all);
    if names.len() == 0 {
        assert(old(out)@ + Seq::<char>::empty() =~= old(out)@);
        return ;
    }
    while i < names.len()
        invariant
            i <= names@.len(),
            names@.len() > 0,
            all == texts(names@),
            i < names@.len() ==> old(out)@ + joined(all) == out@ + (if i == 0 {
                Seq::<char>::empty()
            } else {
                seq!['/']
            }) + joined(all.skip(i as int)),
            i == names@.len() ==> old(out)@ + joined(all) == out@,
        decreases names@.len() - i,
    {
        let ghost rest = all.skip(i as int);
        let ghost start = out@;
        assert(rest[0] == names@[i as int]@);
        assert(rest.drop_first() =~= all.skip(i + 1));
        if i > 0 {
            out.push('/');
        }
        push_chars(out, names[i].as_slice());
        proof {
            let sep = if i == 0 {
                Seq::<char>::empty()
            } else {
                seq!['/']
            };
            assert(out@ =~= start + sep + rest[0]);
            if rest.len() == 1 {
                assert(start + sep + joined(rest) =~= out@);
            } else {
                assert(start + sep + joined(rest) =~= out@ + seq!['/'] + joined(
                    all.skip(i + 1),
                ));
            }
        }
        i += 1;
    }
}

/// Paths that can be brought to their shortest form without looking at the
/// file system.
///
/// The paths are paths in an image: `/` is their only separator, and they
/// have no drive prefix.
pub trait NormalizePath {
    /// What normalizing the path gives.
    spec fn spec_normalize(&self) -> Result<Seq<char>, Failure>;

    /// The path without its `.` components, and with every `..` resolved
    /// against the component before it. A path that starts with `..`, or in
    /// which `..` climbs above the start, is refused. Nothing else is: a
    /// component such as `C:` is a name.
    fn normalize(&self) -> (r: Result<String, Error>)
        ensures
            outcome_view(r) == self.spec_normalize(),
    ;
}

impl NormalizePath for str {
    open spec fn spec_normalize(&self) -> Result<Seq<char>, Failure> {
        normalized(self@)
    }

    fn normalize(&self) -> (r: Result<String, Error>) {
        let (lead, names) = path_names(self)?;
        let mut out = String::new();
        match lead {
            Lead::Bare => {},
            Lead::Root => {
                out.push('/');
            },
            Lead::Current => {
                out.push('.');
                if names.len() > 0 {
                    out.push('/');
                }
            },
        }
        let ghost start = out@;
        push_joined(&mut out, &names);
        proof {
            assert(joined(Seq::<Seq<char>>::empty()) =~= Seq::<char>::empty());
            assert(out@ =~= rendered(lead, texts(names@)));
        }
        Ok(out)
    }
}

/// Whether `name` can stand between two separators: it is not empty and
/// holds no separator.
pub open spec fn is_run(name: Seq<char>) -> bool {
    name.len() > 0 && forall|k: int| 0 <= k < name.len() ==> name[k] != '/'
}

/// Whether `name` names an entry: it can stand between two separators and
/// is neither `.` nor `..`.
pub open spec fn is_name(name: Seq<char>) -> bool {
    is_run(name) && name != dot() && name != dot_dot()
}

/// Every segment of a path can stand between two separators.
pub proof fn lemma_segments_are_runs(path: Seq<char>, i: int)
    requires
        0 <= i,
    ensures
        forall|k: int|
            0 <= k < segments_from(path, i).len() ==> is_run(#[trigger] segments_from(path, i)[k]),
    decreases path.len() - i,
{
    if i < path.len() {
        if path[i] == '/' {
            lemma_segments_are_runs(path, i + 1);
            assert(segments_from(path, i) == segments_from(path, i + 1));
        } else {
            lemma_run_end(path, i);
            lemma_segments_are_runs(path, run_end(path, i));
            let end = run_end(path, i);
            let first = path.subrange(i, end);
            assert forall|k: int| 0 <= k < first.len() implies first[k] != '/' by {
                assert(first[k] == path[i + k]);
            }
            assert(is_run(first));
            let later = segments_from(path, end);
            assert(segments_from(path, i) == seq![first] + later);
            assert forall|k: int| 0 <= k < segments_from(path, i).len() implies is_run(
                #[trigger] segments_from(path, i)[k],
            ) by {
                if k > 0 {
                    assert(segments_from(path, i)[k] == later[k - 1]);
                    assert(is_run(later[k - 1]));
                } else {
                    assert(segments_from(path, i)[0] == first);
                }
            }
        }
    } else {
        assert(segments_from(path, i).len() == 0);
    }
}

/// The names that are left of a path name entries.
pub proof fn lemma_resolved_names_are_names(
    segments: Seq<Seq<char>>,
    i: int,
    stack: Seq<Seq<char>>,
)
    requires
        0 <= i,
        forall|k: int| 0 <= k < segments.len() ==> is_run(#[trigger] segments[k]),
        forall|k: int| 0 <= k < stack.len() ==> is_name(#[trigger] stack[k]),
        resolved_names(segments, i, stack) is Some,
    ensures
        forall|k: int|
            0 <= k < resolved_names(segments, i, stack)->0.len() ==> is_name(
                #[trigger] resolved_names(segments, i, stack)->0[k],
            ),
    decreases segments.len() - i,
{
    if i < segments.len() {
        if segments[i] == dot() {
            lemma_resolved_names_are_names(segments, i + 1, stack);
        } else if segments[i] == dot_dot() {
            lemma_resolved_names_are_names(segments, i + 1, stack.drop_last());
        } else {
            lemma_resolved_names_are_names(segments, i + 1, stack.push(segments[i]));
        }
    }
}

/// A run that is followed by a separator or by nothing ends where the
/// separator stands.
proof fn lemma_run_end_of_prefix(run: Seq<char>, rest: Seq<char>, k: int)
    requires
        is_run(run),
        rest.len() == 0 || rest[0] == '/',
        0 <= k <= run.len(),
    ensures
        run_end(run + rest, k) == run.len(),
    decreases run.len() - k,
{
    let path = run + rest;
    if k < run.len() {
        assert(path[k] == run[k]);
        lemma_run_end_of_prefix(run, rest, k + 1);
    } else if rest.len() > 0 {
        assert(path[k] == rest[0]);
    }
}

/// The runs of a path after a prefix are the runs of what follows the
/// prefix.
proof fn lemma_run_end_after_prefix(prefix: Seq<char>, rest: Seq<char>, i: int)
    requires
        0 <= i <= rest.len(),
    ensures
        run_end(prefix + rest, prefix.len() + i) == prefix.len() + run_end(rest, i),
    decreases rest.len() - i,
{
    let path = prefix + rest;
    if i < rest.len() {
        assert(path[prefix.len() + i] == rest[i]);
        if rest[i] != '/' {
            lemma_run_end_after_prefix(prefix, rest, i + 1);
        }
    }
}

/// The segments of a path after a prefix are the segments of what follows
/// the prefix.
proof fn lemma_segments_after_prefix(prefix: Seq<char>, rest: Seq<char>, i: int)
    requires
        0 <= i <= rest.len(),
    ensures
        segments_from(prefix + rest, prefix.len() + i) == segments_from(rest, i),
    decreases rest.len() - i,
{
    let path = prefix + rest;
    if i < rest.len() {
        assert(path[prefix.len() + i] == rest[i]);
        if rest[i] == '/' {
            lemma_segments_after_prefix(prefix, rest, i + 1);
        } else {
            lemma_run_end(rest, i);
            lemma_run_end_after_prefix(prefix, rest, i);
            let end = run_end(rest, i);
            lemma_segments_after_prefix(prefix, rest, end);
            assert(path.subrange(prefix.len() + i, prefix.len() + end) =~= rest.subrange(i, end));
        }
    }
}

/// The segments of a run that is followed by a separator and more are the
/// run and the segments of what follows.
proof fn lemma_segments_of_run_and_more(run: Seq<char>, more: Seq<char>)
    requires
        is_run(run),
    ensures
        segments(run + seq!['/'] + more) == seq![run] + segments(more),
        segments(run) == seq![run],
{
    let rest = seq!['/'] + more;
    let path = run + rest;
    assert(run + seq!['/'] + more =~= path);
    assert(path[0] == run[0]);
    lemma_run_end_of_prefix(run, rest, 0);
    assert(path.subrange(0, run.len() as int) =~= run);
    lemma_segments_after_prefix(run, rest, 0);
    assert(rest[0] == '/');
    lemma_segments_after_prefix(seq!['/'], more, 0);
    assert(segments_from(rest, 1) == segments_from(more, 0));
    assert(segments_from(rest, 0) == segments_from(rest, 1));
    let none = Seq::<char>::empty();
    assert(run + none =~= run);
    lemma_run_end_of_prefix(run, none, 0);
    assert(run.subrange(0, run.len() as int) =~= run);
    assert(segments_from(run, run.len() as int) =~= Seq::<Seq<char>>::empty());
    assert(seq![run] + Seq::<Seq<char>>::empty() =~= seq![run]);
}

/// The segments of names joined by separators are the names.
pub proof fn lemma_segments_of_joined(names: Seq<Seq<char>>)
    requires
        forall|k: int| 0 <= k < names.len() ==> is_run(#[trigger] names[k]),
    ensures
        segments(joined(names)) == names,
        names.len() > 0 ==> joined(names).len() > 0 && joined(names)[0] == names[0][0],
    decreases names.len(),
{
    if names.len() == 0 {
        assert(segments(joined(names)) =~= names);
    } else if names.len() == 1 {
        lemma_segments_of_run_and_more(names[0], Seq::empty());
        assert(seq![names[0]] =~= names);
    } else {
        let rest = names.drop_first();
        assert forall|k: int| 0 <= k < rest.len() implies is_run(#[trigger] rest[k]) by {
            assert(rest[k] == names[k + 1]);
        }
        lemma_segments_of_joined(rest);
        lemma_segments_of_run_and_more(names[0], joined(rest));
        assert(seq![names[0]] + rest =~= names);
    }
}

/// Names go through the resolution of `.` and `..` unchanged.
proof fn lemma_names_resolve_to_themselves(
    segments: Seq<Seq<char>>,
    i: int,
    stack: Seq<Seq<char>>,
)
    requires
        0 <= i <= segments.len(),
        forall|k: int| i <= k < segments.len() ==> is_name(#[trigger] segments[k]),
    ensures
        resolved_names(segments, i, stack) == Some(stack + segments.skip(i)),
    decreases segments.len() - i,
{
    if i < segments.len() {
        lemma_names_resolve_to_themselves(segments, i + 1, stack.push(segments[i]));
        assert(stack.push(segments[i]) + segments.skip(i + 1) =~= stack + segments.skip(i));
    } else {
        assert(stack + segments.skip(i) =~= stack);
    }
}

/// A path made of a lead and names is its own normal form.
pub proof fn lemma_rendered_is_normal(lead: Lead, names: Seq<Seq<char>>)
    requires
        forall|k: int| 0 <= k < names.len() ==> is_name(#[trigger] names[k]),
    ensures
        normalized(rendered(lead, names)) == Ok::<Seq<char>, Failure>(rendered(lead, names)),
{
    let out = rendered(lead, names);
    assert forall|k: int| 0 <= k < names.len() implies is_run(#[trigger] names[k]) by {
        assert(is_name(names[k]));
    }
    lemma_segments_of_joined(names);
    let none = Seq::<Seq<char>>::empty();
    match lead {
        Lead::Bare => {
            if names.len() > 0 {
                assert(is_name(names[0]));
            }
            lemma_names_resolve_to_themselves(names, 0, none);
            assert(none + names.skip(0) =~= names);
        },
        Lead::Root => {
            lemma_segments_after_prefix(seq!['/'], joined(names), 0);
            assert(out[0] == '/');
            assert(segments_from(out, 0) == segments_from(out, 1));
            lemma_names_resolve_to_themselves(names, 0, none);
            assert(none + names.skip(0) =~= names);
        },
        Lead::Current => {
            assert(is_run(dot()));
            if names.len() == 0 {
                lemma_segments_of_run_and_more(dot(), Seq::empty());
                let parts = seq![dot()];
                assert(resolved_names(parts, 1, none) == Some(none));
                assert(resolved_names(parts, 0, none) == Some(none));
                assert(names =~= none);
            } else {
                lemma_segments_of_run_and_more(dot(), joined(names));
                assert(dot() + seq!['/'] + joined(names) =~= out);
                let parts = seq![dot()] + names;
                assert(segments(out) == parts);
                assert forall|k: int| 1 <= k < parts.len() implies is_name(
                    #[trigger] parts[k],
                ) by {
                    assert(parts[k] == names[k - 1]);
                }
                lemma_names_resolve_to_themselves(parts, 1, none);
                assert(none + parts.skip(1) =~= names);
                assert(parts[0] == dot());
                assert(out[0] == '.');
            }
        },
    }
}

/// Normalizing a normal form changes nothing: a path that can be
/// normalized is normalized to a path that is normalized to itself.
pub proof fn lemma_normalize_is_idempotent(path: Seq<char>)
    requires
        normalized(path) is Ok,
    ensures
        normalized(normalized(path)->Ok_0) == normalized(path),
{
    let names = normal_names(path)->Ok_0;
    lemma_segments_are_runs(path, 0);
    lemma_resolved_names_are_names(segments(path), 0, Seq::empty());
    lemma_rendered_is_normal(lead_of(path), names);
}

} // verus!

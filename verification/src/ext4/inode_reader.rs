//! Reading the data of an inode: through its extent tree, through its block
//! pointers, or straight out of the inode for a short symbolic link.

use crate::ext4::extent::{Extent, ExtentHeader, ExtentIndex};
use crate::ext4::inode::{Inode, InodeView};
use crate::ext4::volume::{range_of, Volume};
use crate::ext4::wire::{le32, u32_at};
use crate::utils::{end_of_image, outcome_view, short_buffer, Error, Failure, ParseContext};
use vstd::prelude::*;
use vstd::slice::{slice_subrange, slice_to_vec};

verus! {

/// The size of a block pointer in bytes.
pub const ADDR_SIZE: u32 = 4;

/// `length` zero bytes.
pub open spec fn zeros(length: int) -> Seq<u8> {
    Seq::new(length as nat, |i: int| 0u8)
}

/// `buf` with the bytes from `at` on replaced by `patch`.
pub open spec fn splice(buf: Seq<u8>, at: int, patch: Seq<u8>) -> Seq<u8>
    recommends
        0 <= at,
        at + patch.len() <= buf.len(),
{
    buf.subrange(0, at) + patch + buf.subrange(at + patch.len(), buf.len() as int)
}

/// The four bytes of `word`, least significant first.
pub open spec fn word_bytes(word: u32) -> Seq<u8> {
    seq![
        (word % 256) as u8,
        ((word / 256) % 256) as u8,
        ((word / 65536) % 256) as u8,
        (word / 16777216) as u8,
    ]
}

/// The bytes that the words of an inode's block map occupy on disk.
pub open spec fn block_bytes(words: Seq<u32>) -> Seq<u8> {
    Seq::new(4 * words.len(), |i: int| word_bytes(words[i / 4])[i % 4])
}

/// The bytes of a word read from four bytes are those four bytes.
pub proof fn lemma_word_bytes_of_le32(data: Seq<u8>, at: int)
    requires
        0 <= at,
        at + 4 <= data.len(),
    ensures
        word_bytes(le32(data, at) as u32) == data.subrange(at, at + 4),
{
    let b0 = data[at] as int;
    let b1 = data[at + 1] as int;
    let b2 = data[at + 2] as int;
    let b3 = data[at + 3] as int;
    let word = le32(data, at);
    assert(word == b0 + 256 * (b1 + 256 * (b2 + 256 * b3)));
    assert(0 <= word < 0x1_0000_0000);
    assert(word % 256 == b0);
    assert(word / 256 == b1 + 256 * (b2 + 256 * b3));
    assert((word / 256) % 256 == b1);
    assert(word / 65536 == b2 + 256 * b3);
    assert((word / 65536) % 256 == b2);
    assert(word / 16777216 == b3);
    assert(word_bytes(word as u32) =~= data.subrange(at, at + 4));
}

/// The block map of an inode, taken as bytes, is the sixty bytes that the
/// inode's record holds for it.
pub proof fn lemma_block_map_is_stored_as_it_is_read(data: Seq<u8>)
    requires
        data.len() >= 128,
    ensures
        block_bytes(Inode::decoded(data).block) == data.subrange(40, 100),
{
    let words = Inode::decoded(data).block;
    assert forall|i: int| 0 <= i < 60 implies block_bytes(words)[i] == data[40 + i] by {
        let k = i / 4;
        lemma_word_bytes_of_le32(data, 40 + 4 * k);
        assert(data.subrange(40 + 4 * k, 40 + 4 * k + 4)[i % 4] == data[40 + i]);
    }
    assert(block_bytes(words) =~= data.subrange(40, 100));
}

/// A vector of `length` zero bytes.
pub fn zero_bytes(length: usize) -> (v: Vec<u8>)
    ensures
        v@ == zeros(length as int),
{
    let v = vec![0u8; length];
    assert(v@ =~= zeros(length as int));
    v
}

/// Writes `patch` over the bytes of `buf` from `at` on.
pub fn overwrite(buf: &mut Vec<u8>, at: usize, patch: &[u8])
    requires
        at + patch@.len() <= old(buf)@.len(),
    ensures
        final(buf)@ == splice(old(buf)@, at as int, patch@),
{
    let mut i: usize = 0;
    let total = buf.len();
    while i < patch.len()
        invariant
            i <= patch@.len(),
            at + patch@.len() <= buf@.len() == total,
            buf@.len() == old(buf)@.len(),
            buf@ == splice(old(buf)@, at as int, patch@.take(i as int)),
        decreases patch@.len() - i,
    {
        buf.set(at + i, patch[i]);
        assert(buf@ =~= splice(old(buf)@, at as int, patch@.take(i + 1)));
        i += 1;
    }
    assert(patch@.take(patch@.len() as int) == patch@);
}

/// The bytes of an inode's block map in the order in which they are stored.
pub fn block_map_bytes(words: &[u32; 15]) -> (v: Vec<u8>)
    ensures
        v@ == block_bytes(words@),
{
    let mut v: Vec<u8> = Vec::with_capacity(60);
    let mut i: usize = 0;
    while i < 15
        invariant
            i <= 15,
            v@.len() == 4 * i,
            forall|k: int| 0 <= k < 4 * i ==> v@[k] == word_bytes(words@[k / 4])[k % 4],
        decreases 15 - i,
    {
        let word = words[i];
        v.push((word % 256) as u8);
        v.push(((word / 256) % 256) as u8);
        v.push(((word / 65536) % 256) as u8);
        v.push((word / 16777216) as u8);
        i += 1;
    }
    assert(v@ =~= block_bytes(words@));
    v
}

/// The address stored in slot `index` of the pointer block `block`. Block 0
/// is no block: every slot of it reads as 0, a hole.
pub open spec fn pointer_in(volume: &Volume, block: int, index: int) -> Result<int, Failure> {
    if block == 0 {
        Ok(0)
    } else {
        match volume.spec_block(block) {
            None => Err(end_of_image()),
            Some(bytes) => Ok(le32(bytes, 4 * index)),
        }
    }
}

/// The physical block that holds logical block `logical` of a file mapped
/// by the block pointers `map`; 0 if the block is a hole.
///
/// With `n` pointers to a block, the first twelve logical blocks are named
/// by the map itself, the next `n` by the block that `map[12]` names, the
/// next `n * n` through `map[13]` in two steps, and the next `n * n * n`
/// through `map[14]` in three. Blocks beyond those cannot be mapped and
/// read as holes.
pub open spec fn resolved(volume: &Volume, map: Seq<u32>, logical: int) -> Result<int, Failure> {
    let n = volume.block_size as int / 4;
    if logical < 12 {
        Ok(map[logical] as int)
    } else if logical - 12 < n {
        pointer_in(volume, map[12] as int, logical - 12)
    } else if logical - 12 - n < n * n {
        let i = logical - 12 - n;
        match pointer_in(volume, map[13] as int, i / n) {
            Err(f) => Err(f),
            Ok(single) => pointer_in(volume, single, i % n),
        }
    } else if logical - 12 - n - n * n < n * n * n {
        let i = logical - 12 - n - n * n;
        match pointer_in(volume, map[14] as int, i / (n * n)) {
            Err(f) => Err(f),
            Ok(double) => match pointer_in(volume, double, (i / n) % n) {
                Err(f) => Err(f),
                Ok(single) => pointer_in(volume, single, i % n),
            },
        }
    } else {
        Ok(0)
    }
}

/// `head`, followed by what `tail` holds if it holds anything.
pub open spec fn then_bytes(head: Seq<u8>, tail: Result<Seq<u8>, Failure>) -> Result<
    Seq<u8>,
    Failure,
> {
    match tail {
        Ok(more) => Ok(head + more),
        Err(f) => Err(f),
    }
}

/// The `length` bytes at `offset` of block `block`; zeros if `block` is 0,
/// a hole.
pub open spec fn block_part(volume: &Volume, block: int, within: int, length: int) -> Result<
    Seq<u8>,
    Failure,
> {
    if block == 0 {
        Ok(zeros(length))
    } else {
        match range_of(volume.image@, block * volume.block_size + within, length) {
            None => Err(end_of_image()),
            Some(bytes) => Ok(bytes),
        }
    }
}

/// The `length` bytes from `offset` on of a file mapped by the block
/// pointers `map`, read block by block: each logical block is resolved and
/// the part of it that the range covers is read. The first block that
/// cannot be resolved or read decides the failure.
pub open spec fn indirect_bytes(volume: &Volume, map: Seq<u32>, offset: int, length: int)
    -> Result<Seq<u8>, Failure>
    decreases length,
{
    let size = volume.block_size as int;
    if length <= 0 || size <= 0 || offset < 0 {
        Ok(Seq::empty())
    } else {
        let within = offset % size;
        let take = if size - within < length {
            size - within
        } else {
            length
        };
        match resolved(volume, map, offset / size) {
            Err(f) => Err(f),
            Ok(block) => match block_part(volume, block, within, take) {
                Err(f) => Err(f),
                Ok(part) => then_bytes(
                    part,
                    indirect_bytes(volume, map, offset + take, length - take),
                ),
            },
        }
    }
}

/// The deepest extent tree that is read: a root this far above its leaves.
pub const MAX_EXTENT_DEPTH: u16 = 5;

/// The most entries, index entries and extents together, that are read
/// from the extent tree of one inode.
pub const MAX_EXTENT_ENTRIES: usize = 1048576;

/// The failure of an extent tree whose root is too far above its leaves.
pub open spec fn tree_too_deep() -> Failure {
    Failure::InvalidData { context: ParseContext::ExtentHeader, message: "extent tree too deep"@ }
}

/// The failure of a node that is not one level below its parent.
pub open spec fn unexpected_depth() -> Failure {
    Failure::InvalidData { context: ParseContext::ExtentHeader, message: "unexpected depth"@ }
}

/// The failure of an extent tree with more entries than are read.
pub open spec fn too_many_extents() -> Failure {
    Failure::InvalidData { context: ParseContext::Extent, message: "too many extents"@ }
}

/// The failure of an extent tree whose extents are empty, overlap or are
/// not sorted.
pub open spec fn extents_out_of_order() -> Failure {
    Failure::InvalidData { context: ParseContext::Extent, message: "extents are not in order"@ }
}

/// What has been gathered from an extent tree so far: the extents found,
/// and the number of entries that may still be read.
pub struct Gathered {
    pub extents: Seq<Extent>,
    pub budget: int,
}

/// What walking the node `node` adds to `so_far`. The node must be `depth`
/// levels above the leaves.
pub open spec fn gather_node(volume: &Volume, node: Seq<u8>, depth: nat, so_far: Gathered)
    -> Result<Gathered, Failure>
    decreases depth, 1int, 0int,
{
    match ExtentHeader::parsed(node) {
        Err(f) => Err(f),
        Ok(header) => if header.depth != depth {
            Err(unexpected_depth())
        } else {
            gather_entries(volume, node, depth, header.entries_count as int, 0, so_far)
        },
    }
}

/// What walking the entries of `node` from entry `i` on adds to `so_far`:
/// a leaf's entries are the extents themselves, an internal node's entries
/// name the blocks of its children, which are walked in turn.
pub open spec fn gather_entries(
    volume: &Volume,
    node: Seq<u8>,
    depth: nat,
    count: int,
    i: int,
    so_far: Gathered,
) -> Result<Gathered, Failure>
    decreases depth, 0int, count - i,
{
    let at = 12 + 12 * i;
    if i < 0 || i >= count {
        Ok(so_far)
    } else if so_far.budget <= 0 {
        Err(too_many_extents())
    } else if depth == 0 {
        if at + 12 > node.len() {
            Err(short_buffer(ParseContext::Extent))
        } else {
            gather_entries(
                volume,
                node,
                depth,
                count,
                i + 1,
                Gathered {
                    extents: so_far.extents.push(Extent::decoded(node.subrange(at, at + 12))),
                    budget: so_far.budget - 1,
                },
            )
        }
    } else {
        if at + 12 > node.len() {
            Err(short_buffer(ParseContext::ExtentIndex))
        } else {
            let index = ExtentIndex::decoded(node.subrange(at, at + 12));
            match volume.block_outcome(index.spec_leaf_block()) {
                Err(f) => Err(f),
                Ok(child) => match gather_node(
                    volume,
                    child,
                    (depth - 1) as nat,
                    Gathered { extents: so_far.extents, budget: so_far.budget - 1 },
                ) {
                    Err(f) => Err(f),
                    Ok(after) => gather_entries(volume, node, depth, count, i + 1, after),
                },
            }
        }
    }
}

/// Whether no extent is empty and each ends at or before the logical block
/// at which the next one starts.
pub open spec fn in_order(extents: Seq<Extent>) -> bool {
    forall|i: int|
        0 <= i < extents.len() ==> (#[trigger] extents[i]).spec_actual_len() >= 1 && (i + 1
            < extents.len() ==> extents[i].first_block + extents[i].spec_actual_len()
            <= extents[i + 1].first_block)
}

/// The extents of the tree whose root node is `root`, in the order of the
/// tree's leaves.
pub open spec fn extent_list(volume: &Volume, root: Seq<u8>) -> Result<Seq<Extent>, Failure> {
    match ExtentHeader::parsed(root) {
        Err(f) => Err(f),
        Ok(header) => if header.depth > 5 {
            Err(tree_too_deep())
        } else {
            match gather_node(
                volume,
                root,
                header.depth as nat,
                Gathered { extents: Seq::empty(), budget: 1048576 },
            ) {
                Err(f) => Err(f),
                Ok(found) => if in_order(found.extents) {
                    Ok(found.extents)
                } else {
                    Err(extents_out_of_order())
                },
            }
        },
    }
}

/// `buf`, which holds the bytes of a file from `offset` on, after the
/// extent `extent` has been read into it: the part of the extent that the
/// buffer covers is taken from the image, or is zero where the extent is
/// unwritten.
pub open spec fn lay(volume: &Volume, extent: Extent, offset: int, buf: Seq<u8>) -> Result<
    Seq<u8>,
    Failure,
> {
    let size = volume.block_size as int;
    let start = extent.first_block * size;
    let end = start + extent.spec_actual_len() * size;
    let from = if start < offset {
        offset
    } else {
        start
    };
    let to = if end < offset + buf.len() {
        end
    } else {
        offset + buf.len()
    };
    if from >= to {
        Ok(buf)
    } else if extent.spec_is_unwritten() {
        Ok(splice(buf, from - offset, zeros(to - from)))
    } else {
        match range_of(
            volume.image@,
            extent.spec_start_block() * size + (from - start),
            to - from,
        ) {
            None => Err(end_of_image()),
            Some(bytes) => Ok(splice(buf, from - offset, bytes)),
        }
    }
}

/// The `length` bytes from `offset` on of a file, after the first `k` of
/// `extents` have been read into a buffer of zeros. What no extent covers
/// stays zero.
pub open spec fn overlaid(volume: &Volume, extents: Seq<Extent>, k: nat, offset: int, length: int)
    -> Result<Seq<u8>, Failure>
    decreases k,
{
    if k == 0 {
        Ok(zeros(length))
    } else {
        match overlaid(volume, extents, (k - 1) as nat, offset, length) {
            Err(f) => Err(f),
            Ok(buf) => lay(volume, extents[k - 1], offset, buf),
        }
    }
}

/// The `length` bytes from `offset` on of a file mapped by the extent tree
/// whose root node is `root`.
pub open spec fn extent_bytes(volume: &Volume, root: Seq<u8>, offset: int, length: int) -> Result<
    Seq<u8>,
    Failure,
> {
    match extent_list(volume, root) {
        Err(f) => Err(f),
        Ok(extents) => overlaid(volume, extents, extents.len(), offset, length),
    }
}

/// The failure of a read that starts at or after the end of the file.
pub open spec fn beyond_eof(file_size: int, offset: int) -> Failure {
    Failure::ReadBeyondEof { file_size: file_size as u64, offset: offset as u64 }
}

/// What reading `length` bytes from `offset` on of the data of `inode`
/// gives: the bytes up to the end of the file, at most `length` of them.
pub open spec fn file_bytes(volume: &Volume, inode: InodeView, offset: int, length: int) -> Result<
    Seq<u8>,
    Failure,
> {
    let size = volume.superblock.spec_inode_size_file(inode);
    if offset >= size {
        Err(beyond_eof(size, offset))
    } else {
        let count = if length < size - offset {
            length
        } else {
            size - offset
        };
        if inode.is_fast_symlink() {
            Ok(block_bytes(inode.block).subrange(offset, offset + count))
        } else if inode.uses_extents() {
            extent_bytes(volume, block_bytes(inode.block), offset, count)
        } else {
            indirect_bytes(volume, inode.block, offset, count)
        }
    }
}

/// The longest read that can be asked for in one call: `size`, cut to what
/// a length can hold.
pub open spec fn whole_length(size: int) -> int {
    if size > usize::MAX {
        usize::MAX as int
    } else {
        size
    }
}

/// What reading all the data of `inode` gives.
pub open spec fn whole_file(volume: &Volume, inode: InodeView) -> Result<Seq<u8>, Failure> {
    file_bytes(
        volume,
        inode,
        0,
        whole_length(volume.superblock.spec_inode_size_file(inode)),
    )
}

/// Once an extent cannot be read, reading more extents does not mend it.
pub proof fn lemma_overlaid_fails(
    volume: &Volume,
    extents: Seq<Extent>,
    k: nat,
    n: nat,
    offset: int,
    length: int,
)
    requires
        k <= n,
        overlaid(volume, extents, k, offset, length) is Err,
    ensures
        overlaid(volume, extents, n, offset, length) == overlaid(volume, extents, k, offset, length),
    decreases n - k,
{
    if k < n {
        lemma_overlaid_fails(volume, extents, k, (n - 1) as nat, offset, length);
    }
}

/// Whether `extent` maps the byte at `position` of the file.
pub open spec fn covers(volume: &Volume, extent: Extent, position: int) -> bool {
    let size = volume.block_size as int;
    extent.first_block * size <= position < (extent.first_block + extent.spec_actual_len()) * size
}

/// Where in the image `extent` keeps the byte at `position` of the file.
pub open spec fn place_in_image(volume: &Volume, extent: Extent, position: int) -> int {
    let size = volume.block_size as int;
    extent.spec_start_block() * size + (position - extent.first_block * size)
}

/// Extents in order are sorted by their first logical block, each ending
/// at or before the start of every later one: no two of them overlap.
pub proof fn lemma_in_order_is_sorted_and_disjoint(extents: Seq<Extent>, i: int, j: int)
    requires
        in_order(extents),
        0 <= i < j < extents.len(),
    ensures
        extents[i].first_block < extents[j].first_block,
        extents[i].first_block + extents[i].spec_actual_len() <= extents[j].first_block,
    decreases j - i,
{
    if i + 1 < j {
        lemma_in_order_is_sorted_and_disjoint(extents, i, j - 1);
        assert(extents[j - 1].spec_actual_len() >= 1);
    } else {
        assert(extents[i].spec_actual_len() >= 1);
    }
}

/// Extents in order cover no byte twice.
pub proof fn lemma_in_order_covers_once(
    volume: &Volume,
    extents: Seq<Extent>,
    i: int,
    j: int,
    position: int,
)
    requires
        volume.wf(),
        in_order(extents),
        0 <= i < extents.len(),
        0 <= j < extents.len(),
        covers(volume, extents[i], position),
        covers(volume, extents[j], position),
    ensures
        i == j,
{
    let size = volume.block_size as int;
    if i < j {
        lemma_in_order_is_sorted_and_disjoint(extents, i, j);
        let end = extents[i].first_block + extents[i].spec_actual_len();
        let next = extents[j].first_block as int;
        assert(end * size <= next * size) by (nonlinear_arith)
            requires
                end <= next,
                size > 0,
        ;
    } else if j < i {
        lemma_in_order_is_sorted_and_disjoint(extents, j, i);
        let end = extents[j].first_block + extents[j].spec_actual_len();
        let next = extents[i].first_block as int;
        assert(end * size <= next * size) by (nonlinear_arith)
            requires
                end <= next,
                size > 0,
        ;
    }
}

/// Reading an extent into a buffer keeps the buffer's length, leaves alone
/// every byte that the extent does not cover, and sets every byte that it
/// covers: to zero if the extent is unwritten, else to the byte that the
/// image holds at the extent's place for it.
pub proof fn lemma_lay(volume: &Volume, extent: Extent, offset: int, buf: Seq<u8>, i: int)
    requires
        volume.wf(),
        0 <= offset,
        0 <= i < buf.len(),
        lay(volume, extent, offset, buf) is Ok,
    ensures
        lay(volume, extent, offset, buf)->Ok_0.len() == buf.len(),
        !covers(volume, extent, offset + i) ==> lay(volume, extent, offset, buf)->Ok_0[i] == buf[i],
        covers(volume, extent, offset + i) && extent.spec_is_unwritten() ==> lay(
            volume,
            extent,
            offset,
            buf,
        )->Ok_0[i] == 0,
        covers(volume, extent, offset + i) && !extent.spec_is_unwritten() ==> 0 <= place_in_image(
            volume,
            extent,
            offset + i,
        ) < volume.image@.len() && lay(volume, extent, offset, buf)->Ok_0[i] == volume.image@[place_in_image(
            volume,
            extent,
            offset + i,
        )],
{
    let size = volume.block_size as int;
    let start = extent.first_block * size;
    let end = start + extent.spec_actual_len() * size;
    assert((extent.first_block + extent.spec_actual_len()) * size == end) by (nonlinear_arith)
        requires
            end == extent.first_block * size + extent.spec_actual_len() * size,
    ;
    assert(0 <= start) by (nonlinear_arith)
        requires
            start == extent.first_block * size,
            extent.first_block >= 0,
            size > 0,
    ;
}

/// Reading extents into a buffer keeps the buffer's length.
pub proof fn lemma_overlaid_length(
    volume: &Volume,
    extents: Seq<Extent>,
    k: nat,
    offset: int,
    length: int,
)
    requires
        volume.wf(),
        k <= extents.len(),
        0 <= offset,
        0 <= length,
        overlaid(volume, extents, k, offset, length) is Ok,
    ensures
        overlaid(volume, extents, k, offset, length)->Ok_0.len() == length,
    decreases k,
{
    if k > 0 {
        lemma_overlaid_length(volume, extents, (k - 1) as nat, offset, length);
        let before = overlaid(volume, extents, (k - 1) as nat, offset, length)->Ok_0;
        if length > 0 {
            lemma_lay(volume, extents[k - 1], offset, before, 0);
        }
    }
}

/// A byte that none of the extents covers reads as zero.
pub proof fn lemma_gap_reads_zero(
    volume: &Volume,
    extents: Seq<Extent>,
    k: nat,
    offset: int,
    length: int,
    i: int,
)
    requires
        volume.wf(),
        k <= extents.len(),
        0 <= offset,
        0 <= i < length,
        overlaid(volume, extents, k, offset, length) is Ok,
        forall|j: int| 0 <= j < k ==> !covers(volume, #[trigger] extents[j], offset + i),
    ensures
        overlaid(volume, extents, k, offset, length)->Ok_0[i] == 0,
    decreases k,
{
    if k > 0 {
        lemma_gap_reads_zero(volume, extents, (k - 1) as nat, offset, length, i);
        lemma_overlaid_length(volume, extents, (k - 1) as nat, offset, length);
        let before = overlaid(volume, extents, (k - 1) as nat, offset, length)->Ok_0;
        lemma_lay(volume, extents[k - 1], offset, before, i);
    }
}

/// A byte that one of the extents covers reads as zero if that extent is
/// unwritten, and else as the byte that the image holds at the extent's
/// place for it. The extents must be in order.
pub proof fn lemma_covered_byte(
    volume: &Volume,
    extents: Seq<Extent>,
    k: nat,
    offset: int,
    length: int,
    i: int,
    j: int,
)
    requires
        volume.wf(),
        in_order(extents),
        k <= extents.len(),
        0 <= offset,
        0 <= i < length,
        0 <= j < k,
        covers(volume, extents[j], offset + i),
        overlaid(volume, extents, k, offset, length) is Ok,
    ensures
        extents[j].spec_is_unwritten() ==> overlaid(volume, extents, k, offset, length)->Ok_0[i]
            == 0,
        !extents[j].spec_is_unwritten() ==> 0 <= place_in_image(volume, extents[j], offset + i)
            < volume.image@.len() && overlaid(volume, extents, k, offset, length)->Ok_0[i]
            == volume.image@[place_in_image(volume, extents[j], offset + i)],
    decreases k,
{
    lemma_overlaid_length(volume, extents, (k - 1) as nat, offset, length);
    let before = overlaid(volume, extents, (k - 1) as nat, offset, length)->Ok_0;
    lemma_lay(volume, extents[k - 1], offset, before, i);
    if j < k - 1 {
        lemma_covered_byte(volume, extents, (k - 1) as nat, offset, length, i, j);
        if covers(volume, extents[k - 1], offset + i) {
            lemma_in_order_covers_once(volume, extents, j, k - 1, offset + i);
        }
    }
}

/// A read through the block pointers that succeeds gives as many bytes as
/// were asked for.
pub proof fn lemma_indirect_length(volume: &Volume, map: Seq<u32>, offset: int, length: int)
    requires
        volume.wf(),
        0 <= offset,
        0 <= length,
        indirect_bytes(volume, map, offset, length) is Ok,
    ensures
        indirect_bytes(volume, map, offset, length)->Ok_0.len() == length,
    decreases length,
{
    let size = volume.block_size as int;
    if length > 0 {
        let within = offset % size;
        let take = if size - within < length {
            size - within
        } else {
            length
        };
        lemma_indirect_length(volume, map, offset + take, length - take);
    }
}

/// In a file mapped by block pointers, a byte of a block that is a hole
/// reads as zero, and a byte of any other block reads as the byte that the
/// image holds at the same place in the physical block.
pub proof fn lemma_indirect_byte(
    volume: &Volume,
    map: Seq<u32>,
    offset: int,
    length: int,
    i: int,
)
    requires
        volume.wf(),
        0 <= offset,
        0 <= i < length,
        indirect_bytes(volume, map, offset, length) is Ok,
    ensures
        resolved(volume, map, (offset + i) / (volume.block_size as int)) is Ok,
        i < indirect_bytes(volume, map, offset, length)->Ok_0.len(),
        ({
            let size = volume.block_size as int;
            let block = resolved(volume, map, (offset + i) / size)->Ok_0;
            let byte = indirect_bytes(volume, map, offset, length)->Ok_0[i];
            if block == 0 {
                byte == 0
            } else {
                0 <= block * size + (offset + i) % size < volume.image@.len() && byte
                    == volume.image@[block * size + (offset + i) % size]
            }
        }),
    decreases length,
{
    let size = volume.block_size as int;
    let within = offset % size;
    let take = if size - within < length {
        size - within
    } else {
        length
    };
    lemma_indirect_length(volume, map, offset, length);
    let block = resolved(volume, map, offset / size)->Ok_0;
    let part = block_part(volume, block, within, take)->Ok_0;
    let rest = indirect_bytes(volume, map, offset + take, length - take)->Ok_0;
    lemma_indirect_length(volume, map, offset + take, length - take);
    if i < take {
        assert((offset + i) / size == offset / size && (offset + i) % size == within + i)
            by (nonlinear_arith)
            requires
                size > 0,
                0 <= offset,
                within == offset % size,
                0 <= i,
                within + i < size,
        ;
        assert((part + rest)[i] == part[i]);
    } else {
        lemma_indirect_byte(volume, map, offset + take, length - take, i - take);
        assert((part + rest)[i] == rest[i - take]);
    }
}

/// A read through the block pointers does not fail for being beyond the
/// end of the file.
pub proof fn lemma_indirect_failure(volume: &Volume, map: Seq<u32>, offset: int, length: int)
    requires
        indirect_bytes(volume, map, offset, length) is Err,
    ensures
        !(indirect_bytes(volume, map, offset, length)->Err_0 is ReadBeyondEof),
    decreases length,
{
    let size = volume.block_size as int;
    if !(length <= 0 || size <= 0 || offset < 0) {
        let within = offset % size;
        let take = if size - within < length {
            size - within
        } else {
            length
        };
        if resolved(volume, map, offset / size) is Ok {
            let block = resolved(volume, map, offset / size)->Ok_0;
            if block_part(volume, block, within, take) is Ok {
                lemma_indirect_failure(volume, map, offset + take, length - take);
            }
        }
    }
}

/// Walking a node of an extent tree does not fail for being beyond the end
/// of the file.
pub proof fn lemma_gather_node_failure(
    volume: &Volume,
    node: Seq<u8>,
    depth: nat,
    so_far: Gathered,
)
    requires
        gather_node(volume, node, depth, so_far) is Err,
    ensures
        !(gather_node(volume, node, depth, so_far)->Err_0 is ReadBeyondEof),
    decreases depth, 1int, 0int,
{
    if ExtentHeader::parsed(node) is Ok {
        let header = ExtentHeader::parsed(node)->Ok_0;
        if header.depth == depth {
            lemma_gather_entries_failure(
                volume,
                node,
                depth,
                header.entries_count as int,
                0,
                so_far,
            );
        }
    }
}

/// Walking the entries of a node of an extent tree does not fail for being
/// beyond the end of the file.
pub proof fn lemma_gather_entries_failure(
    volume: &Volume,
    node: Seq<u8>,
    depth: nat,
    count: int,
    i: int,
    so_far: Gathered,
)
    requires
        gather_entries(volume, node, depth, count, i, so_far) is Err,
    ensures
        !(gather_entries(volume, node, depth, count, i, so_far)->Err_0 is ReadBeyondEof),
    decreases depth, 0int, count - i,
{
    let at = 12 + 12 * i;
    if !(i < 0 || i >= count) && so_far.budget > 0 && at + 12 <= node.len() {
        if depth == 0 {
            lemma_gather_entries_failure(
                volume,
                node,
                depth,
                count,
                i + 1,
                Gathered {
                    extents: so_far.extents.push(Extent::decoded(node.subrange(at, at + 12))),
                    budget: so_far.budget - 1,
                },
            );
        } else {
            let index = ExtentIndex::decoded(node.subrange(at, at + 12));
            if volume.block_outcome(index.spec_leaf_block()) is Ok {
                let child = volume.block_outcome(index.spec_leaf_block())->Ok_0;
                let spent = Gathered { extents: so_far.extents, budget: so_far.budget - 1 };
                if gather_node(volume, child, (depth - 1) as nat, spent) is Ok {
                    lemma_gather_entries_failure(
                        volume,
                        node,
                        depth,
                        count,
                        i + 1,
                        gather_node(volume, child, (depth - 1) as nat, spent)->Ok_0,
                    );
                } else {
                    lemma_gather_node_failure(volume, child, (depth - 1) as nat, spent);
                }
            }
        }
    }
}

/// Reading extents into a buffer does not fail for being beyond the end of
/// the file.
pub proof fn lemma_overlaid_failure(
    volume: &Volume,
    extents: Seq<Extent>,
    k: nat,
    offset: int,
    length: int,
)
    requires
        overlaid(volume, extents, k, offset, length) is Err,
    ensures
        !(overlaid(volume, extents, k, offset, length)->Err_0 is ReadBeyondEof),
    decreases k,
{
    if k > 0 && overlaid(volume, extents, (k - 1) as nat, offset, length) is Err {
        lemma_overlaid_failure(volume, extents, (k - 1) as nat, offset, length);
    }
}

/// A read fails for being beyond the end of the file exactly when it
/// starts at or after the end: a read that starts before the end of the
/// file never gives that failure.
pub proof fn lemma_beyond_eof_is_for_reads_past_the_end(
    volume: &Volume,
    inode: InodeView,
    offset: int,
    length: int,
)
    ensures
        (file_bytes(volume, inode, offset, length) is Err && file_bytes(
            volume,
            inode,
            offset,
            length,
        )->Err_0 is ReadBeyondEof) <==> offset >= volume.superblock.spec_inode_size_file(inode),
{
    let size = volume.superblock.spec_inode_size_file(inode);
    if offset < size {
        let count = if length < size - offset {
            length
        } else {
            size - offset
        };
        if inode.is_fast_symlink() {
        } else if inode.uses_extents() {
            let root = block_bytes(inode.block);
            if extent_list(volume, root) is Ok {
                let extents = extent_list(volume, root)->Ok_0;
                if overlaid(volume, extents, extents.len(), offset, count) is Err {
                    lemma_overlaid_failure(volume, extents, extents.len(), offset, count);
                }
            } else if ExtentHeader::parsed(root) is Ok {
                let header = ExtentHeader::parsed(root)->Ok_0;
                let start = Gathered { extents: Seq::empty(), budget: 1048576 };
                if header.depth <= 5 && gather_node(volume, root, header.depth as nat, start) is Err {
                    lemma_gather_node_failure(volume, root, header.depth as nat, start);
                }
            }
        } else if indirect_bytes(volume, inode.block, offset, count) is Err {
            lemma_indirect_failure(volume, inode.block, offset, count);
        }
    }
}

/// In a file mapped by an extent tree, a byte that no extent covers reads
/// as zero.
pub proof fn lemma_unmapped_byte_reads_zero(
    volume: &Volume,
    root: Seq<u8>,
    offset: int,
    length: int,
    i: int,
)
    requires
        volume.wf(),
        0 <= offset,
        0 <= i < length,
        extent_bytes(volume, root, offset, length) is Ok,
        forall|j: int|
            0 <= j < extent_list(volume, root)->Ok_0.len() ==> !covers(
                volume,
                #[trigger] extent_list(volume, root)->Ok_0[j],
                offset + i,
            ),
    ensures
        extent_bytes(volume, root, offset, length)->Ok_0[i] == 0,
{
    let extents = extent_list(volume, root)->Ok_0;
    lemma_gap_reads_zero(volume, extents, extents.len(), offset, length, i);
}

/// In a file mapped by an extent tree, a byte that an unwritten extent
/// covers reads as zero.
pub proof fn lemma_unwritten_byte_reads_zero(
    volume: &Volume,
    root: Seq<u8>,
    offset: int,
    length: int,
    i: int,
    j: int,
)
    requires
        volume.wf(),
        0 <= offset,
        0 <= i < length,
        extent_bytes(volume, root, offset, length) is Ok,
        0 <= j < extent_list(volume, root)->Ok_0.len(),
        extent_list(volume, root)->Ok_0[j].spec_is_unwritten(),
        covers(volume, extent_list(volume, root)->Ok_0[j], offset + i),
    ensures
        extent_bytes(volume, root, offset, length)->Ok_0[i] == 0,
{
    let extents = extent_list(volume, root)->Ok_0;
    lemma_covered_byte(volume, extents, extents.len(), offset, length, i, j);
}

/// A read that succeeds gives the bytes up to the end of the file, at most
/// as many as were asked for. Reading the whole size from the start gives
/// exactly the size.
pub proof fn lemma_read_length(volume: &Volume, inode: InodeView, offset: int, length: int)
    requires
        volume.wf(),
        inode.wf(),
        0 <= offset,
        0 <= length,
        file_bytes(volume, inode, offset, length) is Ok,
    ensures
        file_bytes(volume, inode, offset, length)->Ok_0.len() == (if length
            < volume.superblock.spec_inode_size_file(inode) - offset {
            length
        } else {
            volume.superblock.spec_inode_size_file(inode) - offset
        }),
        offset == 0 && length == volume.superblock.spec_inode_size_file(inode) ==> file_bytes(
            volume,
            inode,
            offset,
            length,
        )->Ok_0.len() == volume.superblock.spec_inode_size_file(inode),
{
    let size = volume.superblock.spec_inode_size_file(inode);
    let count = if length < size - offset {
        length
    } else {
        size - offset
    };
    if inode.is_fast_symlink() {
    } else if inode.uses_extents() {
        let extents = extent_list(volume, block_bytes(inode.block))->Ok_0;
        lemma_overlaid_length(volume, extents, extents.len(), offset, count);
    } else {
        lemma_indirect_length(volume, inode.block, offset, count);
    }
}

/// Reads slot `index` of the pointer block `block_num`.
pub fn pointer_at(volume: &Volume, block_num: u64, index: u32) -> (r: Result<u64, Error>)
    requires
        volume.wf(),
        index < volume.block_size / 4,
    ensures
        match r {
            Ok(address) => pointer_in(volume, block_num as int, index as int) == Ok::<
                int,
                Failure,
            >(address as int) && address <= u32::MAX,
            Err(e) => pointer_in(volume, block_num as int, index as int) == Err::<
                int,
                Failure,
            >(e@),
        },
{
    if block_num == 0 {
        return Ok(0);
    }
    let block_data = volume.read_block(block_num)?;
    let offset = (index * ADDR_SIZE) as usize;
    match u32_at(block_data.as_slice(), offset, ParseContext::Inode) {
        Ok(address) => Ok(address as u64),
        Err(e) => Err(e),
    }
}

/// Finds the physical block of logical block `logical_block` through the
/// block pointers `inode_block`.
pub fn resolve_logical(volume: &Volume, inode_block: &[u32; 15], logical_block: u64) -> (r: Result<
    u64,
    Error,
>)
    requires
        volume.wf(),
    ensures
        match r {
            Ok(address) => resolved(volume, inode_block@, logical_block as int) == Ok::<
                int,
                Failure,
            >(address as int) && address <= u32::MAX,
            Err(e) => resolved(volume, inode_block@, logical_block as int) == Err::<
                int,
                Failure,
            >(e@),
        },
{
    let n = (volume.block_size / 4) as u64;
    assert(256 <= n <= 16384);
    assert(n * n <= 16384 * 16384 && n * n * n <= 16384 * 16384 * 16384 && n * n >= n) by (nonlinear_arith)
        requires
            256 <= n <= 16384,
    ;
    if logical_block < Inode::DIRECT_BLOCKS as u64 {
        return Ok(inode_block[logical_block as usize] as u64);
    }
    let mut block_idx = logical_block - Inode::DIRECT_BLOCKS as u64;
    if block_idx < n {
        return pointer_at(
            volume,
            inode_block[Inode::INDIRECT_BLOCK_IDX] as u64,
            block_idx as u32,
        );
    }
    block_idx -= n;
    if block_idx < n * n {
        assert(block_idx / n < n) by (nonlinear_arith)
            requires
                block_idx < n * n,
                n > 0,
        ;
        let single = pointer_at(
            volume,
            inode_block[Inode::DOUBLE_INDIRECT_BLOCK_IDX] as u64,
            (block_idx / n) as u32,
        )?;
        return pointer_at(
            volume,single, (block_idx % n) as u32);
    }
    block_idx -= n * n;
    if block_idx < n * n * n {
        let nn = n * n;
        assert(block_idx / nn < n) by (nonlinear_arith)
            requires
                block_idx < nn * n,
                nn > 0,
        ;
        assert(nn * n == n * n * n) by (nonlinear_arith)
            requires
                nn == n * n,
        ;
        let double = pointer_at(
            volume,
            inode_block[Inode::TRIPLE_INDIRECT_BLOCK_IDX] as u64,
            (block_idx / nn) as u32,
        )?;
        let single = pointer_at(
            volume,double, ((block_idx / n) % n) as u32)?;
        return pointer_at(
            volume,single, (block_idx % n) as u32);
    }
    Ok(0)
}

/// Walks the node `node`, which must be `depth` levels above the
/// leaves, and appends the extents under it to `extents`. Each entry
/// that is read takes one from `budget`.
fn gather(
    volume: &Volume,
    node: &[u8],
    depth: u16,
    extents: &mut Vec<Extent>,
    budget: &mut usize,
) -> (r: Result<(), Error>)
    requires
        volume.wf(),
    ensures
        match r {
            Ok(_) => gather_node(
                volume,
                node@,
                depth as nat,
                Gathered { extents: old(extents)@, budget: *old(budget) as int },
            ) == Ok::<Gathered, Failure>(
                Gathered { extents: final(extents)@, budget: *final(budget) as int },
            ),
            Err(e) => gather_node(
                volume,
                node@,
                depth as nat,
                Gathered { extents: old(extents)@, budget: *old(budget) as int },
            ) == Err::<Gathered, Failure>(e@),
        },
    decreases depth,
{
    let header = ExtentHeader::parse(node)?;
    if header.depth != depth {
        return Err(Error::invalid_data(ParseContext::ExtentHeader, "unexpected depth"));
    }
    let count = header.entries_count as usize;
    let ghost target = gather_node(
        volume,
        node@,
        depth as nat,
        Gathered { extents: old(extents)@, budget: *old(budget) as int },
    );
    let mut i: usize = 0;
    while i < count
        invariant
            volume.wf(),
            i <= count <= 65535,
            target == gather_node(
                volume,
                node@,
                depth as nat,
                Gathered { extents: old(extents)@, budget: *old(budget) as int },
            ),
            target == gather_entries(
                volume,
                node@,
                depth as nat,
                count as int,
                i as int,
                Gathered { extents: extents@, budget: *budget as int },
            ),
        decreases count - i,
    {
        if *budget == 0 {
            return Err(Error::invalid_data(ParseContext::Extent, "too many extents"));
        }
        let at = ExtentHeader::SIZE + Extent::SIZE * i;
        if at > node.len() || node.len() - at < 12 {
            if depth == 0 {
                return Err(Error::invalid_data(ParseContext::Extent, "buffer too small"));
            } else {
                return Err(
                    Error::invalid_data(ParseContext::ExtentIndex, "buffer too small"),
                );
            }
        }
        let record = slice_subrange(node, at, at + 12);
        *budget -= 1;
        if depth == 0 {
            let extent = Extent::parse(record)?;
            extents.push(extent);
        } else {
            let index = ExtentIndex::parse(record)?;
            let child = volume.read_block(index.leaf_block())?;
            gather(volume, child.as_slice(), depth - 1, extents, budget)?;
        }
        i += 1;
    }
    Ok(())
}

/// Whether no extent is empty and each ends at or before the logical
/// block at which the next one starts.
fn check_order(extents: &Vec<Extent>) -> (r: bool)
    ensures
        r == in_order(extents@),
{
    let mut i: usize = 0;
    while i < extents.len()
        invariant
            i <= extents@.len(),
            forall|k: int|
                0 <= k < i ==> (#[trigger] extents@[k]).spec_actual_len() >= 1 && (k + 1
                    < extents@.len() ==> extents@[k].first_block
                    + extents@[k].spec_actual_len() <= extents@[k + 1].first_block),
        decreases extents@.len() - i,
    {
        let extent = &extents[i];
        if extent.get_actual_len() == 0 {
            return false;
        }
        if i + 1 < extents.len() {
            let next = &extents[i + 1];
            if extent.first_block() + extent.get_actual_len() as u64 > next.first_block() {
                return false;
            }
        }
        i += 1;
    }
    true
}

/// Collects the extents of the tree whose root node is `block_data`, in
/// the order of the tree's leaves.
pub fn collect_extents(volume: &Volume, block_data: &[u8]) -> (r: Result<
    Vec<Extent>,
    Error,
>)
    requires
        volume.wf(),
    ensures
        outcome_view(r) == extent_list(volume, block_data@),
        r matches Ok(extents) ==> in_order(extents@),
{
    let header = ExtentHeader::parse(block_data)?;
    if header.depth > MAX_EXTENT_DEPTH {
        return Err(Error::invalid_data(ParseContext::ExtentHeader, "extent tree too deep"));
    }
    let mut extents: Vec<Extent> = Vec::new();
    let mut budget: usize = MAX_EXTENT_ENTRIES;
    gather(volume, block_data, header.depth, &mut extents, &mut budget)?;
    if !check_order(&extents) {
        return Err(Error::invalid_data(ParseContext::Extent, "extents are not in order"));
    }
    Ok(extents)
}

/// A view of one inode's data in a volume.
pub struct InodeReader<'a> {
    pub volume: &'a Volume,
    pub inode: &'a Inode,
}

impl<'a> InodeReader<'a> {
    /// A reader for the data of `inode` in `volume`.
    pub fn new(volume: &'a Volume, inode: &'a Inode) -> (r: Self)
        ensures
            r.volume == volume,
            r.inode == inode,
    {
        InodeReader { volume, inode }
    }

    /// The inode whose data is read.
    pub fn inode(&self) -> (r: &Inode)
        ensures
            r == self.inode,
    {
        self.inode
    }

    pub open spec fn spec_size(&self) -> int {
        self.volume.superblock.spec_inode_size_file(self.inode@)
    }

    /// The size of the inode's data in bytes.
    pub fn size(&self) -> (r: u64)
        ensures
            r as int == self.spec_size(),
    {
        self.volume.superblock.inode_size_file(self.inode)
    }

    /// Reads all the data of the inode.
    pub fn read_all(&self) -> (r: Result<Vec<u8>, Error>)
        requires
            self.volume.wf(),
        ensures
            outcome_view(r) == whole_file(self.volume, self.inode@),
            r matches Ok(bytes) ==> bytes@.len() == whole_length(self.spec_size()),
    {
        let size = self.size();
        let length = if size > usize::MAX as u64 {
            usize::MAX
        } else {
            size as usize
        };
        self.read_data(0, length)
    }

    /// Reads up to `length` bytes of the inode's data, the first at
    /// `offset`. The read ends where the file ends.
    pub fn read_data(&self, offset: u64, length: usize) -> (r: Result<Vec<u8>, Error>)
        requires
            self.volume.wf(),
        ensures
            outcome_view(r) == file_bytes(
                self.volume,
                self.inode@,
                offset as int,
                length as int,
            ),
            r matches Ok(bytes) ==> bytes@.len() == (if length < self.spec_size() - offset {
                length as int
            } else {
                self.spec_size() - offset
            }),
    {
        let file_size = self.size();
        if offset >= file_size {
            return Err(Error::ReadBeyondEof { file_size, offset });
        }
        let left = file_size - offset;
        let actual_length = if (length as u64) < left {
            length
        } else {
            left as usize
        };
        if self.inode.is_fast_symlink() {
            Ok(self.read_fast_symlink(offset, actual_length))
        } else if self.inode.uses_extents() {
            self.read_via_extents(offset, actual_length)
        } else {
            self.read_via_indirect(offset, actual_length)
        }
    }

    /// Reads `length` bytes from `offset` on of the target that a symbolic
    /// link keeps in its block map.
    pub fn read_fast_symlink(&self, offset: u64, length: usize) -> (r: Vec<u8>)
        requires
            offset + length <= 60,
        ensures
            r@ == block_bytes(self.inode.block@).subrange(offset as int, offset + length),
    {
        let inline_data = block_map_bytes(&self.inode.block);
        let start = offset as usize;
        slice_to_vec(slice_subrange(inline_data.as_slice(), start, start + length))
    }

    /// Reads one block of the volume.
    pub fn read_block(&self, block_num: u64) -> (r: Result<Vec<u8>, Error>)
        requires
            self.volume.wf(),
        ensures
            outcome_view(r) == self.volume.block_outcome(block_num as int),
            r matches Ok(bytes) ==> bytes@.len() == self.volume.block_size,
    {
        self.volume.read_block(block_num)
    }

    /// Reads slot `index` of the pointer block `block_num`.
    pub fn read_block_addr(&self, block_num: u64, index: u32) -> (r: Result<u64, Error>)
        requires
            self.volume.wf(),
            index < self.volume.block_size / 4,
        ensures
            match r {
                Ok(address) => pointer_in(self.volume, block_num as int, index as int) == Ok::<
                    int,
                    Failure,
                >(address as int) && address <= u32::MAX,
                Err(e) => pointer_in(self.volume, block_num as int, index as int) == Err::<
                    int,
                    Failure,
                >(e@),
            },
    {
        pointer_at(self.volume, block_num, index)
    }

    /// Finds the physical block of logical block `logical_block` through the
    /// block pointers `inode_block`; 0 stands for a hole.
    pub fn resolve_block(&self, inode_block: &[u32; 15], logical_block: u64) -> (r: Result<
        u64,
        Error,
    >)
        requires
            self.volume.wf(),
        ensures
            match r {
                Ok(address) => resolved(self.volume, inode_block@, logical_block as int) == Ok::<
                    int,
                    Failure,
                >(address as int) && address <= u32::MAX,
                Err(e) => resolved(self.volume, inode_block@, logical_block as int) == Err::<
                    int,
                    Failure,
                >(e@),
            },
    {
        resolve_logical(self.volume, inode_block, logical_block)
    }

    /// Collects the extents of the tree whose root node is `block_data`, in
    /// the order of the tree's leaves.
    pub fn parse_extent_tree_from_block(&self, block_data: &[u8]) -> (r: Result<
        Vec<Extent>,
        Error,
    >)
        requires
            self.volume.wf(),
        ensures
            outcome_view(r) == extent_list(self.volume, block_data@),
            r matches Ok(extents) ==> in_order(extents@),
    {
        collect_extents(self.volume, block_data)
    }

    /// Collects the extents of the tree rooted in an inode's block map.
    pub fn parse_extent_tree(&self, block_data: &[u32; 15]) -> (r: Result<Vec<Extent>, Error>)
        requires
            self.volume.wf(),
        ensures
            outcome_view(r) == extent_list(self.volume, block_bytes(block_data@)),
            r matches Ok(extents) ==> in_order(extents@),
    {
        let bytes = block_map_bytes(block_data);
        collect_extents(self.volume, bytes.as_slice())
    }

    /// Reads into `buf`, which holds the bytes of the file from `offset`
    /// on, the part of `extent` that it covers.
    fn lay_extent(&self, extent: &Extent, offset: u64, buf: &mut Vec<u8>) -> (r: Result<
        (),
        Error,
    >)
        requires
            self.volume.wf(),
            offset + old(buf)@.len() <= u64::MAX,
        ensures
            final(buf)@.len() == old(buf)@.len(),
            match r {
                Ok(_) => lay(self.volume, *extent, offset as int, old(buf)@) == Ok::<
                    Seq<u8>,
                    Failure,
                >(final(buf)@),
                Err(e) => lay(self.volume, *extent, offset as int, old(buf)@) == Err::<
                    Seq<u8>,
                    Failure,
                >(e@),
            },
    {
        let size = self.volume.block_size as u64;
        let count = extent.get_actual_len() as u64;
        assert(extent.first_block * size <= 0xFFFF_FFFF * 65536 && count * size <= 65535 * 65536)
            by (nonlinear_arith)
            requires
                extent.first_block <= 0xFFFF_FFFF,
                count <= 65535,
                size <= 65536,
        ;
        let start = extent.first_block() * size;
        let end = start + count * size;
        let limit = offset + buf.len() as u64;
        let from = if start < offset {
            offset
        } else {
            start
        };
        let to = if end < limit {
            end
        } else {
            limit
        };
        if from >= to {
            return Ok(());
        }
        let at = (from - offset) as usize;
        let length = (to - from) as usize;
        if extent.is_unwritten() {
            let blank = zero_bytes(length);
            overwrite(buf, at, blank.as_slice());
        } else {
            let source = self.volume.block_start(extent.start_block(), from - start);
            let bytes = self.volume.fetch(source, length)?;
            overwrite(buf, at, bytes.as_slice());
        }
        Ok(())
    }

    /// Reads `length` bytes from `offset` on through the extent tree. What
    /// no extent covers reads as zeros.
    pub fn read_via_extents(&self, offset: u64, length: usize) -> (r: Result<Vec<u8>, Error>)
        requires
            self.volume.wf(),
            offset + length <= u64::MAX,
        ensures
            outcome_view(r) == extent_bytes(
                self.volume,
                block_bytes(self.inode.block@),
                offset as int,
                length as int,
            ),
            r matches Ok(bytes) ==> bytes@.len() == length,
    {
        let extents = self.parse_extent_tree(&self.inode.block)?;
        let mut buf = zero_bytes(length);
        let mut k: usize = 0;
        while k < extents.len()
            invariant
                self.volume.wf(),
                k <= extents@.len(),
                buf@.len() == length,
                offset + length <= u64::MAX,
                extent_list(self.volume, block_bytes(self.inode.block@)) == Ok::<
                    Seq<Extent>,
                    Failure,
                >(extents@),
                overlaid(self.volume, extents@, k as nat, offset as int, length as int) == Ok::<
                    Seq<u8>,
                    Failure,
                >(buf@),
            decreases extents@.len() - k,
        {
            match self.lay_extent(&extents[k], offset, &mut buf) {
                Ok(_) => {},
                Err(e) => {
                    proof {
                        lemma_overlaid_fails(
                            self.volume,
                            extents@,
                            (k + 1) as nat,
                            extents@.len(),
                            offset as int,
                            length as int,
                        );
                    }
                    return Err(e);
                },
            }
            k += 1;
        }
        Ok(buf)
    }

    /// Reads `length` bytes of block `block` from byte `within` on; a hole
    /// reads as zeros.
    fn read_block_part(&self, block: u64, within: u64, length: usize) -> (r: Result<
        Vec<u8>,
        Error,
    >)
        requires
            self.volume.wf(),
        ensures
            outcome_view(r) == block_part(self.volume, block as int, within as int, length as int),
    {
        if block == 0 {
            Ok(zero_bytes(length))
        } else {
            let start = self.volume.block_start(block, within);
            self.volume.fetch(start, length)
        }
    }

    /// Reads `length` bytes from `offset` on through the block pointers.
    pub fn read_via_indirect(&self, offset: u64, length: usize) -> (r: Result<Vec<u8>, Error>)
        requires
            self.volume.wf(),
            offset + length <= u64::MAX,
        ensures
            outcome_view(r) == indirect_bytes(
                self.volume,
                self.inode.block@,
                offset as int,
                length as int,
            ),
            r matches Ok(bytes) ==> bytes@.len() == length,
    {
        let size = self.volume.block_size as u64;
        let mut out: Vec<u8> = Vec::new();
        let mut position = offset;
        let mut remaining = length;
        let ghost whole = indirect_bytes(
            self.volume,
            self.inode.block@,
            offset as int,
            length as int,
        );
        proof {
            match whole {
                Ok(all) => {
                    assert(Seq::<u8>::empty() + all =~= all);
                },
                Err(_) => {},
            }
        }
        while remaining > 0
            invariant
                self.volume.wf(),
                size == self.volume.block_size,
                position + remaining == offset + length <= u64::MAX,
                out@.len() + remaining == length,
                whole == indirect_bytes(
                    self.volume,
                    self.inode.block@,
                    offset as int,
                    length as int,
                ),
                whole == then_bytes(
                    out@,
                    indirect_bytes(
                        self.volume,
                        self.inode.block@,
                        position as int,
                        remaining as int,
                    ),
                ),
            decreases remaining,
        {
            let logical = position / size;
            let within = position % size;
            let room = size - within;
            let take = if room < remaining as u64 {
                room as usize
            } else {
                remaining
            };
            let block = self.resolve_block(&self.inode.block, logical)?;
            let mut part = self.read_block_part(block, within, take)?;
            proof {
                let rest = indirect_bytes(
                    self.volume,
                    self.inode.block@,
                    position + take,
                    remaining - take,
                );
                match rest {
                    Ok(more) => {
                        assert(out@ + (part@ + more) =~= (out@ + part@) + more);
                    },
                    Err(_) => {},
                }
            }
            out.append(&mut part);
            position += take as u64;
            remaining -= take;
        }
        assert(out@ + Seq::<u8>::empty() =~= out@);
        Ok(out)
    }
}

} // verus!

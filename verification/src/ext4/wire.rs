//! Little-endian integers as they appear on disk.

use crate::utils::{short_buffer, Error, ParseContext};
use nom::error::ErrorKind;
use nom::Finish;
use vstd::prelude::*;
use vstd::slice::slice_subrange;

verus! {

/// `nom::error::ErrorKind`, which says why a nom parser refused its input.
/// Nothing is claimed of what it holds.
#[verifier::external_type_specification]
#[verifier::external_body]
pub struct ExErrorKind(ErrorKind);

/// The 16-bit little-endian integer stored in `s` at index `at`.
pub open spec fn le16(s: Seq<u8>, at: int) -> int {
    s[at] as int + 256 * (s[at + 1] as int)
}

/// The 32-bit little-endian integer stored in `s` at index `at`.
pub open spec fn le32(s: Seq<u8>, at: int) -> int {
    s[at] as int + 256 * (s[at + 1] as int) + 65536 * (s[at + 2] as int) + 16777216 * (s[at
        + 3] as int)
}

/// The 64-bit little-endian integer stored in `s` at index `at`.
pub open spec fn le64(s: Seq<u8>, at: int) -> int {
    le32(s, at) + 4294967296 * le32(s, at + 4)
}

/// Whether `words` holds the `count` 32-bit integers stored in `s` from index `at` on.
pub open spec fn words_at(words: Seq<u32>, s: Seq<u8>, at: int, count: int) -> bool {
    &&& words.len() == count
    &&& forall|i: int| 0 <= i < count ==> (#[trigger] words[i]) as int == le32(s, at + 4 * i)
}

/// The 64-bit value whose low half is `lo` and whose high half is `hi`.
pub open spec fn join32(hi: int, lo: int) -> int {
    hi * 4294967296 + lo
}

/// The 32-bit value whose low half is `lo` and whose high half is `hi`.
pub open spec fn join16(hi: int, lo: int) -> int {
    hi * 65536 + lo
}

/// Calls `nom::number::complete::le_u16` and takes the kind of the error
/// out of what `nom::Finish::finish` makes of the result. nom refuses
/// input shorter than two bytes; otherwise it returns the unread rest and
/// the integer in which the input's byte `i` has weight `256^i`.
#[verifier::external_body]
pub(crate) fn nom_le_u16(input: &[u8]) -> (r: Result<(&[u8], u16), ErrorKind>)
    ensures
        r is Err <==> input@.len() < 2,
        r matches Ok((rest, value)) ==> rest@ == input@.skip(2) && value as int == le16(
            input@,
            0,
        ),
{
    match nom::number::complete::le_u16::<&[u8], nom::error::Error<&[u8]>>(input).finish() {
        Ok(parsed) => Ok(parsed),
        Err(e) => Err(e.code),
    }
}

/// Calls `nom::number::complete::le_u32` and takes the kind of the error
/// out of what `nom::Finish::finish` makes of the result. nom refuses
/// input shorter than four bytes; otherwise it returns the unread rest and
/// the integer in which the input's byte `i` has weight `256^i`.
#[verifier::external_body]
pub(crate) fn nom_le_u32(input: &[u8]) -> (r: Result<(&[u8], u32), ErrorKind>)
    ensures
        r is Err <==> input@.len() < 4,
        r matches Ok((rest, value)) ==> rest@ == input@.skip(4) && value as int == le32(
            input@,
            0,
        ),
{
    match nom::number::complete::le_u32::<&[u8], nom::error::Error<&[u8]>>(input).finish() {
        Ok(parsed) => Ok(parsed),
        Err(e) => Err(e.code),
    }
}

/// Reads the 16-bit integer at `offset`.
pub fn u16_at(data: &[u8], offset: usize, context: ParseContext) -> (r: Result<u16, Error>)
    ensures
        offset + 2 <= data@.len() ==> (r matches Ok(v) && v as int == le16(data@, offset as int)),
        offset + 2 > data@.len() ==> (r matches Err(e) && e@ == short_buffer(context)),
{
    if offset > data.len() {
        return Err(Error::invalid_data(context, "buffer too small"));
    }
    let tail = slice_subrange(data, offset, data.len());
    match nom_le_u16(tail) {
        Ok((_, value)) => Ok(value),
        Err(kind) => Err(Error::nom_parse(context, kind)),
    }
}

/// Reads the 32-bit integer at `offset`.
pub fn u32_at(data: &[u8], offset: usize, context: ParseContext) -> (r: Result<u32, Error>)
    ensures
        offset + 4 <= data@.len() ==> (r matches Ok(v) && v as int == le32(data@, offset as int)),
        offset + 4 > data@.len() ==> (r matches Err(e) && e@ == short_buffer(context)),
{
    if offset > data.len() {
        return Err(Error::invalid_data(context, "buffer too small"));
    }
    let tail = slice_subrange(data, offset, data.len());
    match nom_le_u32(tail) {
        Ok((_, value)) => Ok(value),
        Err(kind) => Err(Error::nom_parse(context, kind)),
    }
}

/// Reads the byte at `offset`.
pub fn u8_at(data: &[u8], offset: usize, context: ParseContext) -> (r: Result<u8, Error>)
    ensures
        offset < data@.len() ==> (r matches Ok(v) && v == data@[offset as int]),
        offset >= data@.len() ==> (r matches Err(e) && e@ == short_buffer(context)),
{
    if offset < data.len() {
        Ok(data[offset])
    } else {
        Err(Error::invalid_data(context, "buffer too small"))
    }
}

/// Copies the `length` bytes that start at `offset`.
pub fn bytes_at(data: &[u8], offset: usize, length: usize, context: ParseContext) -> (r: Result<
    Vec<u8>,
    Error,
>)
    ensures
        offset + length <= data@.len() ==> (r matches Ok(v) && v@ == data@.subrange(
            offset as int,
            offset + length,
        )),
        offset + length > data@.len() ==> (r matches Err(e) && e@ == short_buffer(context)),
{
    if offset > data.len() || length > data.len() - offset {
        return Err(Error::invalid_data(context, "buffer too small"));
    }
    let mut out: Vec<u8> = Vec::with_capacity(length);
    let mut i: usize = 0;
    while i < length
        invariant
            i <= length,
            offset + length <= data@.len() <= usize::MAX,
            out@ == data@.subrange(offset as int, offset + i),
        decreases length - i,
    {
        out.push(data[offset + i]);
        i += 1;
    }
    Ok(out)
}

/// Reads `count` consecutive 32-bit integers, the first at `offset`.
pub fn u32s_at(data: &[u8], offset: usize, count: usize, context: ParseContext) -> (r: Result<
    Vec<u32>,
    Error,
>)
    requires
        offset + 4 * count <= usize::MAX,
    ensures
        offset + 4 * count <= data@.len() ==> (r matches Ok(v) && words_at(
            v@,
            data@,
            offset as int,
            count as int,
        )),
        offset + 4 * count > data@.len() ==> (r matches Err(e) && e@ == short_buffer(context)),
{
    if offset > data.len() || 4 * count > data.len() - offset {
        return Err(Error::invalid_data(context, "buffer too small"));
    }
    let mut out: Vec<u32> = Vec::with_capacity(count);
    let mut i: usize = 0;
    while i < count
        invariant
            i <= count,
            offset + 4 * count <= data@.len() <= usize::MAX,
            out@.len() == i,
            forall|k: int| 0 <= k < i ==> (#[trigger] out@[k]) as int == le32(data@, offset + 4 * k),
        decreases count - i,
    {
        let value = u32_at(data, offset + 4 * i, context)?;
        out.push(value);
        i += 1;
    }
    Ok(out)
}

/// Reads the 64-bit integer at `offset`.
pub fn u64_at(data: &[u8], offset: usize, context: ParseContext) -> (r: Result<u64, Error>)
    ensures
        offset + 8 <= data@.len() ==> (r matches Ok(v) && v as int == le64(data@, offset as int)),
        offset + 8 > data@.len() ==> (r matches Err(e) && e@ == short_buffer(context)),
{
    if offset > data.len() || 8 > data.len() - offset {
        return Err(Error::invalid_data(context, "buffer too small"));
    }
    let lo = u32_at(data, offset, context)?;
    let hi = u32_at(data, offset + 4, context)?;
    Ok(combine_u32(hi, lo))
}

/// Joins two 32-bit halves into the 64-bit value they encode.
pub fn combine_u32(hi: u32, lo: u32) -> (r: u64)
    ensures
        r as int == join32(hi as int, lo as int),
{
    assert(((hi as u64) << 32) | (lo as u64) == (hi as u64) * 0x1_0000_0000 + (lo as u64))
        by (bit_vector);
    ((hi as u64) << 32) | (lo as u64)
}

/// The offset of record `index` in a table of records of `size` bytes.
pub fn table_offset(index: u32, size: u16) -> (r: u64)
    ensures
        r as int == index * size,
{
    assert(index * size <= 0xFFFF_FFFF * 0xFFFF) by (nonlinear_arith)
        requires
            index <= 0xFFFF_FFFF,
            size <= 0xFFFF,
    ;
    index as u64 * size as u64
}

/// Joins two 16-bit halves into the 32-bit value they encode.
pub fn combine_u16(hi: u16, lo: u16) -> (r: u32)
    ensures
        r as int == join16(hi as int, lo as int),
{
    assert(((hi as u32) << 16) | (lo as u32) == (hi as u32) * 0x1_0000 + (lo as u32))
        by (bit_vector);
    ((hi as u32) << 16) | (lo as u32)
}

} // verus!

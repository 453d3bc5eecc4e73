use crate::scalar::{spec_i32_of_bits, spec_u16_from_le, spec_u32_from_le};
use crate::types::SIZE_OF_UOFFSET;
use vstd::prelude::*;

verus! {

/// Why a buffer was turned down.
#[derive(Clone, Copy, Debug, PartialEq, Eq)]
pub enum Error {
    /// A place that would be read lies outside the buffer, or cannot be computed.
    OutOfBounds,
    /// A string is not followed by a zero byte.
    NonNullTerminatedString,
    /// The discriminant of a union names no variant although a value is there.
    UnmatchedUnion,
}

impl Error {
    /// What the failure is, in words.
    pub open spec fn spec_message(&self) -> Seq<char> {
        match self {
            Error::OutOfBounds => "memory access is out of bounds"@,
            Error::NonNullTerminatedString => "string is not terminated with null"@,
            Error::UnmatchedUnion => "union type and value does not match"@,
        }
    }

    /// What the failure is, in words.
    pub fn message(&self) -> (text: &'static str)
        ensures
            text@ == self.spec_message(),
    {
        match self {
            Error::OutOfBounds => "memory access is out of bounds",
            Error::NonNullTerminatedString => "string is not terminated with null",
            Error::UnmatchedUnion => "union type and value does not match",
        }
    }
}

/// The last place at which an offset could start in any buffer.
pub const MAX_OFFSET_LOC: usize = usize::MAX - SIZE_OF_UOFFSET;

/// The offset that the four bytes at `loc` spell.
pub open spec fn spec_read_uoffset(buf: Seq<u8>, loc: int) -> usize
    recommends
        0 <= loc,
        loc + 4 <= buf.len(),
{
    spec_u32_from_le(buf.subrange(loc, loc + 4)) as usize
}

/// The signed offset that the four bytes at `loc` spell.
pub open spec fn spec_read_soffset(buf: Seq<u8>, loc: int) -> i32
    recommends
        0 <= loc,
        loc + 4 <= buf.len(),
{
    spec_i32_of_bits(spec_u32_from_le(buf.subrange(loc, loc + 4)))
}

/// The vtable entry that the two bytes at `loc` spell.
pub open spec fn spec_read_voffset(buf: Seq<u8>, loc: int) -> usize
    recommends
        0 <= loc,
        loc + 2 <= buf.len(),
{
    spec_u16_from_le(buf.subrange(loc, loc + 2)) as usize
}

/// The offset at `offset_loc`, where four bytes can be read there.
pub open spec fn spec_try_read_uoffset(buf: Seq<u8>, offset_loc: usize) -> Result<usize, Error> {
    if offset_loc <= MAX_OFFSET_LOC && offset_loc + SIZE_OF_UOFFSET <= buf.len() {
        Ok(spec_read_uoffset(buf, offset_loc as int))
    } else {
        Err(Error::OutOfBounds)
    }
}

/// The place that the offset at `offset_loc` points to, where the offset can be read and
/// the place is a number of the machine.
pub open spec fn spec_try_follow_uoffset(buf: Seq<u8>, offset_loc: usize) -> Result<
    usize,
    Error,
> {
    match spec_try_read_uoffset(buf, offset_loc) {
        Ok(offset) => if offset_loc + offset <= usize::MAX {
            Ok((offset_loc + offset) as usize)
        } else {
            Err(Error::OutOfBounds)
        },
        Err(e) => Err(e),
    }
}

/// Calls `flatbuffers::read_scalar` for an unsigned 32-bit number on the bytes from
/// `offset_loc` on. That function copies the first four bytes and reads them as a
/// little-endian number; it does not look at how many bytes there are, so the contract asks
/// for four.
#[verifier::external_body]
pub(crate) fn read_uoffset(buf: &[u8], offset_loc: usize) -> (offset: usize)
    requires
        offset_loc + 4 <= buf@.len(),
    ensures
        offset == spec_read_uoffset(buf@, offset_loc as int),
{
    flatbuffers::read_scalar::<flatbuffers::UOffsetT>(&buf[offset_loc..]) as usize
}

/// Calls `flatbuffers::read_scalar` for a signed 32-bit number on the bytes from `loc` on:
/// the four bytes there, read as a little-endian number in two's complement.
#[verifier::external_body]
pub(crate) fn read_soffset(buf: &[u8], loc: usize) -> (soffset: i32)
    requires
        loc + 4 <= buf@.len(),
    ensures
        soffset == spec_read_soffset(buf@, loc as int),
{
    flatbuffers::read_scalar::<flatbuffers::SOffsetT>(&buf[loc..])
}

/// Calls `flatbuffers::read_scalar_at` for an unsigned 16-bit number: the two bytes at
/// `loc`, read as a little-endian number.
#[verifier::external_body]
pub(crate) fn read_voffset(buf: &[u8], loc: usize) -> (voffset: usize)
    requires
        loc + 2 <= buf@.len(),
    ensures
        voffset == spec_read_voffset(buf@, loc as int),
{
    flatbuffers::read_scalar_at::<flatbuffers::VOffsetT>(buf, loc) as usize
}

/// Reads the offset at `offset_loc` if four bytes can be read there.
pub fn try_read_uoffset(buf: &[u8], offset_loc: usize) -> (r: Result<usize, Error>)
    ensures
        r == spec_try_read_uoffset(buf@, offset_loc),
{
    if offset_loc <= MAX_OFFSET_LOC && offset_loc + SIZE_OF_UOFFSET <= buf.len() {
        Ok(read_uoffset(buf, offset_loc))
    } else {
        Err(Error::OutOfBounds)
    }
}

/// Reads the offset at `offset_loc` and gives the place that it points to.
pub fn try_follow_uoffset(buf: &[u8], offset_loc: usize) -> (r: Result<usize, Error>)
    ensures
        r == spec_try_follow_uoffset(buf@, offset_loc),
{
    match try_read_uoffset(buf, offset_loc) {
        Ok(offset) => match offset_loc.checked_add(offset) {
            Some(loc) => Ok(loc),
            None => Err(Error::OutOfBounds),
        },
        Err(e) => Err(e),
    }
}

} // verus!

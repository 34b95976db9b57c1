//! The SET_INFO classes that change how long a file is.
//!
//! Some clients truncate a file by shrinking its allocation and never set its
//! end of file: a server that does not truncate then leaves them to append
//! where they meant to overwrite. So an allocation below the end of file
//! moves the end of file down to it. Nothing is ever allocated in advance.

use vstd::prelude::*;

use crate::ntstatus::STATUS_INFO_LENGTH_MISMATCH;
use crate::wire::read_u64;

verus! {

/// Length of the buffer that either class takes: one 64-bit size.
pub const SIZE_BUFFER_LEN: usize = 8;

/// What an allocation does to a file that is `end_of_file` bytes long: the
/// length to set, `None` where it keeps its own, or the status that refuses.
pub open spec fn allocation_effect(buffer: Seq<u8>, end_of_file: u64) -> Result<Option<u64>, u32> {
    if buffer.len() < SIZE_BUFFER_LEN {
        Err(STATUS_INFO_LENGTH_MISMATCH)
    } else if crate::wire::le64_at(buffer, 0) < end_of_file {
        Ok(Some(crate::wire::le64_at(buffer, 0)))
    } else {
        Ok(None)
    }
}

/// What a new end of file does: the length to set, or the status that refuses.
pub open spec fn end_of_file_effect(buffer: Seq<u8>) -> Result<Option<u64>, u32> {
    if buffer.len() < SIZE_BUFFER_LEN {
        Err(STATUS_INFO_LENGTH_MISMATCH)
    } else {
        Ok(Some(crate::wire::le64_at(buffer, 0)))
    }
}

/// Decides on FileAllocationInformation (class 0x13).
pub fn set_allocation(buffer: &[u8], end_of_file: u64) -> (r: Result<Option<u64>, u32>)
    ensures
        r == allocation_effect(buffer@, end_of_file),
{
    if buffer.len() < SIZE_BUFFER_LEN {
        return Err(STATUS_INFO_LENGTH_MISMATCH);
    }
    let allocation: u64 = read_u64(buffer, 0);
    if allocation < end_of_file {
        Ok(Some(allocation))
    } else {
        Ok(None)
    }
}

/// Decides on FileEndOfFileInformation (class 0x14).
pub fn set_end_of_file(buffer: &[u8]) -> (r: Result<Option<u64>, u32>)
    ensures
        r == end_of_file_effect(buffer@),
{
    if buffer.len() < SIZE_BUFFER_LEN {
        return Err(STATUS_INFO_LENGTH_MISMATCH);
    }
    Ok(Some(read_u64(buffer, 0)))
}

/// The contents of a file after an effect: set to the new length, with zeros
/// where it grows, or untouched.
pub open spec fn contents_after(contents: Seq<u8>, effect: Result<Option<u64>, u32>) -> Seq<u8> {
    match effect {
        Ok(Some(len)) => if len <= contents.len() {
            contents.take(len as int)
        } else {
            contents + Seq::new((len - contents.len()) as nat, |i: int| 0u8)
        },
        _ => contents,
    }
}

/// An allocation never changes the bytes that it leaves and never adds any: a
/// file keeps as many of its first bytes as are allocated, and all of them if
/// that is no fewer than it has.
pub proof fn law_allocation_keeps_the_beginning(contents: Seq<u8>, buffer: Seq<u8>)
    requires
        contents.len() <= u64::MAX,
        buffer.len() >= SIZE_BUFFER_LEN,
    ensures
        contents_after(contents, allocation_effect(buffer, contents.len() as u64))
            == contents.take(
            vstd::math::min(crate::wire::le64_at(buffer, 0) as int, contents.len() as int),
        ),
{
    assert(contents.take(contents.len() as int) =~= contents);
}

/// A buffer that is too short is refused, and the file stays as it is.
pub proof fn law_short_buffer_changes_nothing(contents: Seq<u8>, buffer: Seq<u8>)
    requires
        buffer.len() < SIZE_BUFFER_LEN,
    ensures
        allocation_effect(buffer, contents.len() as u64) == Err::<Option<u64>, u32>(
            STATUS_INFO_LENGTH_MISMATCH,
        ),
        end_of_file_effect(buffer) == Err::<Option<u64>, u32>(STATUS_INFO_LENGTH_MISMATCH),
        contents_after(contents, allocation_effect(buffer, contents.len() as u64)) == contents,
        contents_after(contents, end_of_file_effect(buffer)) == contents,
{
}

/// Once the end of a file has been set, the file is that long.
pub proof fn law_end_of_file_sets_the_length(contents: Seq<u8>, buffer: Seq<u8>)
    requires
        buffer.len() >= SIZE_BUFFER_LEN,
    ensures
        contents_after(contents, end_of_file_effect(buffer)).len() == crate::wire::le64_at(
            buffer,
            0,
        ),
{
}

/// What an allocation does, by the first eight bytes of its buffer: a length
/// is set exactly if fewer bytes are allocated than the file has, and then that
/// length; a buffer without eight bytes is refused; whatever follows them
/// plays no part.
pub proof fn law_allocation_sets_what_is_below_the_end(
    buffer: &[u8],
    end_of_file: u64,
    r: Result<Option<u64>, u32>,
)
    requires
        call_ensures(set_allocation, (buffer, end_of_file), r),
    ensures
        r is Ok <==> buffer@.len() >= 8,
        r matches Err(status) ==> status == 0xC000_0004,
        r matches Ok(Some(len)) ==> len == crate::wire::le64_at(buffer@, 0) && len < end_of_file,
        r matches Ok(None) ==> crate::wire::le64_at(buffer@, 0) >= end_of_file,
{
}

/// What a new end of file does, by the first eight bytes of its buffer: they
/// are the length that is set; a buffer without eight bytes is refused.
pub proof fn law_end_of_file_is_set(buffer: &[u8], r: Result<Option<u64>, u32>)
    requires
        call_ensures(set_end_of_file, (buffer,), r),
    ensures
        r is Ok <==> buffer@.len() >= 8,
        r matches Err(status) ==> status == 0xC000_0004,
        r matches Ok(len) ==> len == Some(crate::wire::le64_at(buffer@, 0)),
{
}

/// Setting the end of a file keeps the bytes in front of it, and fills with
/// zeros what it adds.
pub proof fn law_end_of_file_keeps_the_beginning(
    contents: Seq<u8>,
    buffer: &[u8],
    r: Result<Option<u64>, u32>,
    i: int,
)
    requires
        call_ensures(set_end_of_file, (buffer,), r),
        buffer@.len() >= 8,
        0 <= i < crate::wire::le64_at(buffer@, 0),
    ensures
        contents_after(contents, r).len() == crate::wire::le64_at(buffer@, 0),
        contents_after(contents, r)[i] == if i < contents.len() {
            contents[i]
        } else {
            0
        },
{
}

/// An allocation leaves the first bytes of a file, as many as are allocated, or
/// all of them, and nothing else.
pub proof fn law_allocation_only_truncates(
    contents: Seq<u8>,
    buffer: &[u8],
    r: Result<Option<u64>, u32>,
)
    requires
        contents.len() <= u64::MAX,
        buffer@.len() >= 8,
        call_ensures(set_allocation, (buffer, contents.len() as u64), r),
    ensures
        contents_after(contents, r) == contents.take(
            vstd::math::min(crate::wire::le64_at(buffer@, 0) as int, contents.len() as int),
        ),
{
    law_allocation_keeps_the_beginning(contents, buffer@);
}

} // verus!

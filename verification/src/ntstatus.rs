//! NTSTATUS codes.

use vstd::prelude::*;

verus! {

pub const STATUS_SUCCESS: u32 = 0x0000_0000;

pub const STATUS_BUFFER_OVERFLOW: u32 = 0x8000_0005;

pub const STATUS_INVALID_INFO_CLASS: u32 = 0xC000_0003;

pub const STATUS_INFO_LENGTH_MISMATCH: u32 = 0xC000_0004;

pub const STATUS_INVALID_PARAMETER: u32 = 0xC000_000D;

pub const STATUS_NO_EAS_ON_FILE: u32 = 0xC000_0052;

pub const STATUS_NOT_SUPPORTED: u32 = 0xC000_00BB;

pub const STATUS_FILE_CLOSED: u32 = 0xC000_0128;

} // verus!

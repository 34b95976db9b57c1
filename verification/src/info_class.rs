//! The information classes that a QUERY_INFO request can name, and the
//! structures that answer them.

use vstd::prelude::*;

use crate::wire::{push_u16, push_u32, push_u64, push_utf16};

verus! {

pub const FILE_BASIC_INFORMATION: u8 = 4;

pub const FILE_STANDARD_INFORMATION: u8 = 5;

pub const FILE_INTERNAL_INFORMATION: u8 = 6;

pub const FILE_EA_INFORMATION: u8 = 7;

pub const FILE_ACCESS_INFORMATION: u8 = 8;

pub const FILE_NAME_INFORMATION: u8 = 9;

pub const FILE_POSITION_INFORMATION: u8 = 14;

pub const FILE_FULL_EA_INFORMATION: u8 = 15;

pub const FILE_MODE_INFORMATION: u8 = 16;

pub const FILE_ALIGNMENT_INFORMATION: u8 = 17;

pub const FILE_ALL_INFORMATION: u8 = 18;

pub const FILE_STREAM_INFORMATION: u8 = 22;

pub const FILE_NETWORK_OPEN_INFORMATION: u8 = 34;

pub const FS_VOLUME_INFORMATION: u8 = 1;

pub const FS_SIZE_INFORMATION: u8 = 3;

pub const FS_DEVICE_INFORMATION: u8 = 4;

pub const FS_ATTRIBUTE_INFORMATION: u8 = 5;

pub const FS_FULL_SIZE_INFORMATION: u8 = 7;

/// The attribute bit of a directory.
pub const FILE_ATTRIBUTE_DIRECTORY: u32 = 0x0000_0010;

/// The attribute bit of a file that has no other attribute.
pub const FILE_ATTRIBUTE_NORMAL: u32 = 0x0000_0080;

/// What a backend says of an open file. Times are counted in units of 100 ns
/// since 1601, sizes in bytes.
#[derive(Debug, Clone)]
pub struct FileInfo {
    pub name: String,
    pub end_of_file: u64,
    pub allocation_size: u64,
    pub creation_time: u64,
    pub last_access_time: u64,
    pub last_write_time: u64,
    pub change_time: u64,
    pub is_directory: bool,
    pub file_index: u64,
}

/// The attribute bits of a file.
pub open spec fn file_attributes(info: FileInfo) -> u32 {
    if info.is_directory {
        FILE_ATTRIBUTE_DIRECTORY
    } else {
        FILE_ATTRIBUTE_NORMAL
    }
}

/// The four timestamps of a file, in the order of FileBasicInformation.
pub open spec fn file_times(info: FileInfo) -> Seq<u8> {
    crate::wire::le64(info.creation_time) + crate::wire::le64(info.last_access_time)
        + crate::wire::le64(info.last_write_time) + crate::wire::le64(info.change_time)
}

/// FileBasicInformation: the timestamps, the attributes, four reserved bytes.
pub open spec fn file_basic(info: FileInfo) -> Seq<u8> {
    file_times(info) + crate::wire::le32(file_attributes(info)) + crate::wire::le32(0)
}

/// FileStandardInformation: the two sizes, one link, no delete pending,
/// whether it is a directory, two reserved bytes.
pub open spec fn file_standard(info: FileInfo) -> Seq<u8> {
    crate::wire::le64(info.allocation_size) + crate::wire::le64(info.end_of_file)
        + crate::wire::le32(1) + seq![0u8, if info.is_directory { 1u8 } else { 0u8 }]
        + crate::wire::le16(0)
}

/// FileNameInformation: the length of the name in bytes, the name.
pub open spec fn file_name(name: Seq<char>) -> Seq<u8> {
    crate::wire::le32(crate::wire::utf16le(name).len() as u32) + crate::wire::utf16le(name)
}

/// FileAllInformation: basic, standard, internal, EA, access, position, mode,
/// alignment and name information, in this order.
pub open spec fn file_all(info: FileInfo, file_index: u64, access: u32) -> Seq<u8> {
    file_basic(info) + file_standard(info) + crate::wire::le64(file_index) + crate::wire::le32(0)
        + crate::wire::le32(access) + crate::wire::le64(0) + crate::wire::le32(0)
        + crate::wire::le32(0) + file_name(info.name@)
}

/// FileNetworkOpenInformation: the timestamps, the two sizes, the attributes,
/// four reserved bytes.
pub open spec fn file_network_open(info: FileInfo) -> Seq<u8> {
    file_times(info) + crate::wire::le64(info.allocation_size) + crate::wire::le64(
        info.end_of_file,
    ) + crate::wire::le32(file_attributes(info)) + crate::wire::le32(0)
}

/// FileFsVolumeInformation: the creation time, the serial number, the label's
/// length in bytes, no object support, a reserved byte, the label.
pub open spec fn fs_volume(creation_time: u64, serial: u32, label: Seq<char>) -> Seq<u8> {
    crate::wire::le64(creation_time) + crate::wire::le32(serial) + crate::wire::le32(
        crate::wire::utf16le(label).len() as u32,
    ) + seq![0u8, 0u8] + crate::wire::utf16le(label)
}

/// FileFsSizeInformation: the total and the free allocation units, sectors per
/// unit, bytes per sector.
pub open spec fn fs_size(
    total: u64,
    free: u64,
    sectors_per_unit: u32,
    bytes_per_sector: u32,
) -> Seq<u8> {
    crate::wire::le64(total) + crate::wire::le64(free) + crate::wire::le32(sectors_per_unit)
        + crate::wire::le32(bytes_per_sector)
}

/// FileFsDeviceInformation: the device type and its characteristics.
pub open spec fn fs_device(device_type: u32, characteristics: u32) -> Seq<u8> {
    crate::wire::le32(device_type) + crate::wire::le32(characteristics)
}

/// FileFsAttributeInformation: the attributes, the longest file name, the
/// length in bytes of the file system's name, that name.
pub open spec fn fs_attribute(attributes: u32, max_name_len: u32, name: Seq<char>) -> Seq<u8> {
    crate::wire::le32(attributes) + crate::wire::le32(max_name_len) + crate::wire::le32(
        crate::wire::utf16le(name).len() as u32,
    ) + crate::wire::utf16le(name)
}

/// FileFsFullSizeInformation: the total allocation units, those free to the
/// caller, those free at all, sectors per unit, bytes per sector.
pub open spec fn fs_full_size(
    total: u64,
    caller_free: u64,
    free: u64,
    sectors_per_unit: u32,
    bytes_per_sector: u32,
) -> Seq<u8> {
    crate::wire::le64(total) + crate::wire::le64(caller_free) + crate::wire::le64(free)
        + crate::wire::le32(sectors_per_unit) + crate::wire::le32(bytes_per_sector)
}

/// A self-relative security descriptor without owner, group, SACL and DACL:
/// revision 1, the self-relative control bit, four offsets of zero.
pub open spec fn minimal_security_descriptor() -> Seq<u8> {
    seq![1u8, 0u8] + crate::wire::le16(0x8000) + crate::wire::le32(0) + crate::wire::le32(0)
        + crate::wire::le32(0) + crate::wire::le32(0)
}

impl FileInfo {
    /// The attribute bits of the file.
    pub fn attributes(&self) -> (bits: u32)
        ensures
            bits == file_attributes(*self),
    {
        if self.is_directory {
            FILE_ATTRIBUTE_DIRECTORY
        } else {
            FILE_ATTRIBUTE_NORMAL
        }
    }
}

fn push_file_times(out: &mut Vec<u8>, info: &FileInfo)
    ensures
        final(out)@ == old(out)@ + file_times(*info),
{
    push_u64(out, info.creation_time);
    push_u64(out, info.last_access_time);
    push_u64(out, info.last_write_time);
    push_u64(out, info.change_time);
}

/// Encodes FileBasicInformation.
pub fn encode_file_basic_information(info: &FileInfo) -> (out: Vec<u8>)
    ensures
        out@ == file_basic(*info),
{
    let mut out: Vec<u8> = Vec::new();
    push_file_times(&mut out, info);
    push_u32(&mut out, info.attributes());
    push_u32(&mut out, 0);
    out
}

/// Encodes FileStandardInformation.
pub fn encode_file_standard_information(info: &FileInfo) -> (out: Vec<u8>)
    ensures
        out@ == file_standard(*info),
{
    let mut out: Vec<u8> = Vec::new();
    push_u64(&mut out, info.allocation_size);
    push_u64(&mut out, info.end_of_file);
    push_u32(&mut out, 1);
    out.push(0);
    out.push(if info.is_directory { 1 } else { 0 });
    push_u16(&mut out, 0);
    out
}

/// Encodes FileInternalInformation.
pub fn encode_file_internal_information(file_index: u64) -> (out: Vec<u8>)
    ensures
        out@ == crate::wire::le64(file_index),
{
    let mut out: Vec<u8> = Vec::new();
    push_u64(&mut out, file_index);
    out
}

/// Encodes FileEaInformation: no extended attributes.
pub fn encode_file_ea_information() -> (out: Vec<u8>)
    ensures
        out@ == crate::wire::le32(0),
{
    let mut out: Vec<u8> = Vec::new();
    push_u32(&mut out, 0);
    out
}

/// Encodes FileAccessInformation.
pub fn encode_file_access_information(access: u32) -> (out: Vec<u8>)
    ensures
        out@ == crate::wire::le32(access),
{
    let mut out: Vec<u8> = Vec::new();
    push_u32(&mut out, access);
    out
}

/// Encodes FilePositionInformation: the start of the file.
pub fn encode_file_position_information() -> (out: Vec<u8>)
    ensures
        out@ == crate::wire::le64(0),
{
    let mut out: Vec<u8> = Vec::new();
    push_u64(&mut out, 0);
    out
}

/// Encodes FileModeInformation.
pub fn encode_file_mode_information(mode: u32) -> (out: Vec<u8>)
    ensures
        out@ == crate::wire::le32(mode),
{
    let mut out: Vec<u8> = Vec::new();
    push_u32(&mut out, mode);
    out
}

/// Encodes FileAlignmentInformation: byte alignment.
pub fn encode_file_alignment_information() -> (out: Vec<u8>)
    ensures
        out@ == crate::wire::le32(0),
{
    let mut out: Vec<u8> = Vec::new();
    push_u32(&mut out, 0);
    out
}

/// Encodes FileNameInformation.
pub fn encode_file_name_information(name: &str) -> (out: Vec<u8>)
    ensures
        out@ == file_name(name@),
{
    let mut text: Vec<u8> = Vec::new();
    push_utf16(&mut text, name);
    let mut out: Vec<u8> = Vec::new();
    push_u32(&mut out, text.len() as u32);
    out.append(&mut text);
    out
}

/// Encodes FileAllInformation.
pub fn encode_file_all_information(info: &FileInfo, file_index: u64, access: u32) -> (out: Vec<u8>)
    ensures
        out@ == file_all(*info, file_index, access),
{
    let mut out: Vec<u8> = encode_file_basic_information(info);
    out.append(&mut encode_file_standard_information(info));
    out.append(&mut encode_file_internal_information(file_index));
    out.append(&mut encode_file_ea_information());
    out.append(&mut encode_file_access_information(access));
    out.append(&mut encode_file_position_information());
    out.append(&mut encode_file_mode_information(0));
    out.append(&mut encode_file_alignment_information());
    out.append(&mut encode_file_name_information(info.name.as_str()));
    out
}

/// Encodes FileNetworkOpenInformation.
pub fn encode_file_network_open_information(info: &FileInfo) -> (out: Vec<u8>)
    ensures
        out@ == file_network_open(*info),
{
    let mut out: Vec<u8> = Vec::new();
    push_file_times(&mut out, info);
    push_u64(&mut out, info.allocation_size);
    push_u64(&mut out, info.end_of_file);
    push_u32(&mut out, info.attributes());
    push_u32(&mut out, 0);
    out
}

/// Encodes FileFsVolumeInformation.
pub fn encode_fs_volume_information(creation_time: u64, serial: u32, label: &str) -> (out: Vec<u8>)
    ensures
        out@ == fs_volume(creation_time, serial, label@),
{
    let mut text: Vec<u8> = Vec::new();
    push_utf16(&mut text, label);
    let mut out: Vec<u8> = Vec::new();
    push_u64(&mut out, creation_time);
    push_u32(&mut out, serial);
    push_u32(&mut out, text.len() as u32);
    out.push(0);
    out.push(0);
    out.append(&mut text);
    out
}

/// Encodes FileFsSizeInformation.
pub fn encode_fs_size_information(
    total: u64,
    free: u64,
    sectors_per_unit: u32,
    bytes_per_sector: u32,
) -> (out: Vec<u8>)
    ensures
        out@ == fs_size(total, free, sectors_per_unit, bytes_per_sector),
{
    let mut out: Vec<u8> = Vec::new();
    push_u64(&mut out, total);
    push_u64(&mut out, free);
    push_u32(&mut out, sectors_per_unit);
    push_u32(&mut out, bytes_per_sector);
    out
}

/// Encodes FileFsDeviceInformation.
pub fn encode_fs_device_information(device_type: u32, characteristics: u32) -> (out: Vec<u8>)
    ensures
        out@ == fs_device(device_type, characteristics),
{
    let mut out: Vec<u8> = Vec::new();
    push_u32(&mut out, device_type);
    push_u32(&mut out, characteristics);
    out
}

/// Encodes FileFsAttributeInformation.
pub fn encode_fs_attribute_information(attributes: u32, max_name_len: u32, name: &str) -> (out: Vec<
    u8,
>)
    ensures
        out@ == fs_attribute(attributes, max_name_len, name@),
{
    let mut text: Vec<u8> = Vec::new();
    push_utf16(&mut text, name);
    let mut out: Vec<u8> = Vec::new();
    push_u32(&mut out, attributes);
    push_u32(&mut out, max_name_len);
    push_u32(&mut out, text.len() as u32);
    out.append(&mut text);
    out
}

/// Encodes FileFsFullSizeInformation.
pub fn encode_fs_full_size_information(
    total: u64,
    caller_free: u64,
    free: u64,
    sectors_per_unit: u32,
    bytes_per_sector: u32,
) -> (out: Vec<u8>)
    ensures
        out@ == fs_full_size(total, caller_free, free, sectors_per_unit, bytes_per_sector),
{
    let mut out: Vec<u8> = Vec::new();
    push_u64(&mut out, total);
    push_u64(&mut out, caller_free);
    push_u64(&mut out, free);
    push_u32(&mut out, sectors_per_unit);
    push_u32(&mut out, bytes_per_sector);
    out
}

/// Encodes the minimal security descriptor.
pub fn encode_minimal_security_descriptor() -> (out: Vec<u8>)
    ensures
        out@ == minimal_security_descriptor(),
{
    let mut out: Vec<u8> = Vec::new();
    out.push(1);
    out.push(0);
    push_u16(&mut out, 0x8000);
    push_u32(&mut out, 0);
    push_u32(&mut out, 0);
    push_u32(&mut out, 0);
    push_u32(&mut out, 0);
    out
}

} // verus!

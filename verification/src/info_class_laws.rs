//! Where each field of the structures in [`crate::info_class`] stands.

use vstd::prelude::*;

use crate::info_class::{
    encode_file_access_information, encode_file_alignment_information,
    encode_file_all_information, encode_file_basic_information, encode_file_ea_information,
    encode_file_internal_information, encode_file_mode_information, encode_file_name_information,
    encode_file_network_open_information, encode_file_position_information,
    encode_file_standard_information, encode_fs_attribute_information,
    encode_fs_device_information, encode_fs_full_size_information, encode_fs_size_information,
    encode_fs_volume_information, encode_minimal_security_descriptor, FileInfo,
};

verus! {

#[verifier::spinoff_prover]
#[verifier::rlimit(60)]
proof fn times_fields(info: FileInfo)
    ensures
        ({
            let s = crate::info_class::file_times(info);
            &&& s.len() == 32
            &&& crate::wire::le64_at(s, 0) == info.creation_time
            &&& crate::wire::le64_at(s, 8) == info.last_access_time
            &&& crate::wire::le64_at(s, 16) == info.last_write_time
            &&& crate::wire::le64_at(s, 24) == info.change_time
        }),
{
    let s = crate::info_class::file_times(info);
    assert(s.subrange(0, 8) =~= crate::wire::le64(info.creation_time));
    assert(s.subrange(8, 16) =~= crate::wire::le64(info.last_access_time));
    assert(s.subrange(16, 24) =~= crate::wire::le64(info.last_write_time));
    assert(s.subrange(24, 32) =~= crate::wire::le64(info.change_time));
    crate::wire::le64_reads_back(info.creation_time, s, 0);
    crate::wire::le64_reads_back(info.last_access_time, s, 8);
    crate::wire::le64_reads_back(info.last_write_time, s, 16);
    crate::wire::le64_reads_back(info.change_time, s, 24);
}

#[verifier::spinoff_prover]
#[verifier::rlimit(60)]
proof fn network_open_from_its_parts(times: Seq<u8>, allocation: u64, end: u64, bits: u32)
    requires
        times.len() == 32,
    ensures
        ({
            let s = times + crate::wire::le64(allocation) + crate::wire::le64(end)
                + crate::wire::le32(bits) + crate::wire::le32(0);
            &&& s.len() == 56
            &&& s.subrange(0, 32) == times
            &&& s.subrange(32, 40) == crate::wire::le64(allocation)
            &&& s.subrange(40, 48) == crate::wire::le64(end)
            &&& s.subrange(48, 52) == crate::wire::le32(bits)
            &&& s.subrange(52, 56) == crate::wire::le32(0)
        }),
{
}

#[verifier::spinoff_prover]
#[verifier::rlimit(60)]
proof fn basic_from_its_parts(times: Seq<u8>, bits: u32)
    requires
        times.len() == 32,
    ensures
        ({
            let s = times + crate::wire::le32(bits) + crate::wire::le32(0);
            &&& s.len() == 40
            &&& s.subrange(0, 32) == times
            &&& s.subrange(32, 36) == crate::wire::le32(bits)
            &&& s.subrange(36, 40) == crate::wire::le32(0)
        }),
{
}

/// The fields of FileBasicInformation.
#[verifier::spinoff_prover]
#[verifier::rlimit(60)]
pub proof fn basic_fields(info: FileInfo)
    ensures
        crate::info_class::file_basic(info).len() == 40,
        crate::wire::le64_at(crate::info_class::file_basic(info), 0) == info.creation_time,
        crate::wire::le64_at(crate::info_class::file_basic(info), 8) == info.last_access_time,
        crate::wire::le64_at(crate::info_class::file_basic(info), 16) == info.last_write_time,
        crate::wire::le64_at(crate::info_class::file_basic(info), 24) == info.change_time,
        crate::wire::le32_at(crate::info_class::file_basic(info), 32) == if info.is_directory { 0x10u32 } else { 0x80u32 },
        crate::wire::le32_at(crate::info_class::file_basic(info), 36) == 0,
{
    let s = crate::info_class::file_basic(info);
    let times = crate::info_class::file_times(info);
    let bits = crate::info_class::file_attributes(info);
    times_fields(info);
    basic_from_its_parts(times, bits);
    crate::wire::integers_in_part(s, 0, 32, 0);
    crate::wire::integers_in_part(s, 0, 32, 8);
    crate::wire::integers_in_part(s, 0, 32, 16);
    crate::wire::integers_in_part(s, 0, 32, 24);
    crate::wire::le32_reads_back(bits, s, 32);
    crate::wire::le32_reads_back(0, s, 36);
}

#[verifier::spinoff_prover]
#[verifier::rlimit(60)]
proof fn standard_fields(info: FileInfo)
    ensures
        crate::info_class::file_standard(info).len() == 24,
        crate::wire::le64_at(crate::info_class::file_standard(info), 0) == info.allocation_size,
        crate::wire::le64_at(crate::info_class::file_standard(info), 8) == info.end_of_file,
        crate::wire::le32_at(crate::info_class::file_standard(info), 16) == 1,
        crate::wire::le16_at(crate::info_class::file_standard(info), 22) == 0,
        crate::info_class::file_standard(info)[20] == 0,
        crate::info_class::file_standard(info)[21] == if info.is_directory { 1u8 } else { 0u8 },
{
    let s = crate::info_class::file_standard(info);
    assert(crate::wire::le64_at(s, 0) == info.allocation_size) by {
        assert(s.subrange(0, 8) =~= crate::wire::le64(info.allocation_size));
        crate::wire::le64_reads_back(info.allocation_size, s, 0);
    }
    assert(crate::wire::le64_at(s, 8) == info.end_of_file) by {
        assert(s.subrange(8, 16) =~= crate::wire::le64(info.end_of_file));
        crate::wire::le64_reads_back(info.end_of_file, s, 8);
    }
    assert(crate::wire::le32_at(s, 16) == 1) by {
        assert(s.subrange(16, 20) =~= crate::wire::le32(1));
        crate::wire::le32_reads_back(1, s, 16);
    }
    assert(crate::wire::le16_at(s, 22) == 0) by {
        assert(s.subrange(22, 24) =~= crate::wire::le16(0));
        crate::wire::le16_reads_back(0, s, 22);
    }
}

/// Where the structures stand that the one with everything is made of.
#[verifier::spinoff_prover]
#[verifier::rlimit(60)]
pub proof fn parts_of_all_information(info: FileInfo, file_index: u64, access: u32)
    ensures
        ({
            let s = crate::info_class::file_all(info, file_index, access);
            &&& s.len() == 100 + crate::wire::utf16le(info.name@).len()
            &&& s.subrange(0, 40) == crate::info_class::file_basic(info)
            &&& s.subrange(40, 64) == crate::info_class::file_standard(info)
            &&& s.subrange(64, 72) == crate::wire::le64(file_index)
            &&& s.subrange(72, 76) == crate::wire::le32(0)
            &&& s.subrange(76, 80) == crate::wire::le32(access)
            &&& s.subrange(80, 88) == crate::wire::le64(0)
            &&& s.subrange(88, 92) == crate::wire::le32(0)
            &&& s.subrange(92, 96) == crate::wire::le32(0)
            &&& s.skip(96) == crate::info_class::file_name(info.name@)
        }),
{
    let basic = crate::info_class::file_basic(info);
    let standard = crate::info_class::file_standard(info);
    let name = crate::info_class::file_name(info.name@);
    assert(basic.len() == 40);
    assert(standard.len() == 24);
    assert(name.len() == 4 + crate::wire::utf16le(info.name@).len());
    all_from_its_parts(basic, standard, file_index, access, name);
}

#[verifier::spinoff_prover]
#[verifier::rlimit(60)]
proof fn all_from_its_parts(
    basic: Seq<u8>,
    standard: Seq<u8>,
    file_index: u64,
    access: u32,
    name: Seq<u8>,
)
    requires
        basic.len() == 40,
        standard.len() == 24,
    ensures
        ({
            let s = basic + standard + crate::wire::le64(file_index) + crate::wire::le32(0)
                + crate::wire::le32(access) + crate::wire::le64(0) + crate::wire::le32(0)
                + crate::wire::le32(0) + name;
            &&& s.len() == 96 + name.len()
            &&& s.subrange(0, 40) == basic
            &&& s.subrange(40, 64) == standard
            &&& s.subrange(64, 72) == crate::wire::le64(file_index)
            &&& s.subrange(72, 76) == crate::wire::le32(0)
            &&& s.subrange(76, 80) == crate::wire::le32(access)
            &&& s.subrange(80, 88) == crate::wire::le64(0)
            &&& s.subrange(88, 92) == crate::wire::le32(0)
            &&& s.subrange(92, 96) == crate::wire::le32(0)
            &&& s.skip(96) == name
        }),
{
}

/// The timestamps and the attributes of a file, as its metadata say.
#[verifier::spinoff_prover]
#[verifier::rlimit(60)]
pub proof fn law_basic_information(info: FileInfo, out: Vec<u8>)
    requires
        call_ensures(encode_file_basic_information, (&info,), out),
    ensures
        out@.len() == 40,
        crate::wire::le64_at(out@, 0) == info.creation_time,
        crate::wire::le64_at(out@, 8) == info.last_access_time,
        crate::wire::le64_at(out@, 16) == info.last_write_time,
        crate::wire::le64_at(out@, 24) == info.change_time,
        crate::wire::le32_at(out@, 32) == if info.is_directory { 0x10u32 } else { 0x80u32 },
        crate::wire::le32_at(out@, 36) == 0,
{
    basic_fields(info);
}

/// The sizes of a file and whether it is a directory, as its metadata say; it
/// has one link and is not about to be deleted.
#[verifier::spinoff_prover]
#[verifier::rlimit(60)]
pub proof fn law_standard_information(info: FileInfo, out: Vec<u8>)
    requires
        call_ensures(encode_file_standard_information, (&info,), out),
    ensures
        out@.len() == 24,
        crate::wire::le64_at(out@, 0) == info.allocation_size,
        crate::wire::le64_at(out@, 8) == info.end_of_file,
        crate::wire::le32_at(out@, 16) == 1,
        crate::wire::le16_at(out@, 22) == 0,
        out@[20] == 0,
        out@[21] == if info.is_directory { 1u8 } else { 0u8 },
{
    standard_fields(info);
}

/// The index of a file.
#[verifier::spinoff_prover]
#[verifier::rlimit(60)]
pub proof fn law_internal_information(file_index: u64, out: Vec<u8>)
    requires
        call_ensures(encode_file_internal_information, (file_index,), out),
    ensures
        out@.len() == 8,
        crate::wire::le64_at(out@, 0) == file_index,
{
    let s = out@;
    assert(crate::wire::le64_at(s, 0) == file_index) by {
        assert(s.subrange(0, 8) =~= crate::wire::le64(file_index));
        crate::wire::le64_reads_back(file_index, s, 0);
    }
}

/// There are no extended attributes.
#[verifier::spinoff_prover]
#[verifier::rlimit(60)]
pub proof fn law_ea_information(out: Vec<u8>)
    requires
        call_ensures(encode_file_ea_information, (), out),
    ensures
        out@.len() == 4,
        crate::wire::le32_at(out@, 0) == 0,
{
    let s = out@;
    assert(crate::wire::le32_at(s, 0) == 0) by {
        assert(s.subrange(0, 4) =~= crate::wire::le32(0));
        crate::wire::le32_reads_back(0, s, 0);
    }
}

/// The access that an open has.
#[verifier::spinoff_prover]
#[verifier::rlimit(60)]
pub proof fn law_access_information(access: u32, out: Vec<u8>)
    requires
        call_ensures(encode_file_access_information, (access,), out),
    ensures
        out@.len() == 4,
        crate::wire::le32_at(out@, 0) == access,
{
    let s = out@;
    assert(crate::wire::le32_at(s, 0) == access) by {
        assert(s.subrange(0, 4) =~= crate::wire::le32(access));
        crate::wire::le32_reads_back(access, s, 0);
    }
}

/// An open stands at the start of its file.
#[verifier::spinoff_prover]
#[verifier::rlimit(60)]
pub proof fn law_position_information(out: Vec<u8>)
    requires
        call_ensures(encode_file_position_information, (), out),
    ensures
        out@.len() == 8,
        crate::wire::le64_at(out@, 0) == 0,
{
    let s = out@;
    assert(crate::wire::le64_at(s, 0) == 0) by {
        assert(s.subrange(0, 8) =~= crate::wire::le64(0));
        crate::wire::le64_reads_back(0, s, 0);
    }
}

/// The mode of an open.
#[verifier::spinoff_prover]
#[verifier::rlimit(60)]
pub proof fn law_mode_information(mode: u32, out: Vec<u8>)
    requires
        call_ensures(encode_file_mode_information, (mode,), out),
    ensures
        out@.len() == 4,
        crate::wire::le32_at(out@, 0) == mode,
{
    let s = out@;
    assert(crate::wire::le32_at(s, 0) == mode) by {
        assert(s.subrange(0, 4) =~= crate::wire::le32(mode));
        crate::wire::le32_reads_back(mode, s, 0);
    }
}

/// No alignment is asked for.
#[verifier::spinoff_prover]
#[verifier::rlimit(60)]
pub proof fn law_alignment_information(out: Vec<u8>)
    requires
        call_ensures(encode_file_alignment_information, (), out),
    ensures
        out@.len() == 4,
        crate::wire::le32_at(out@, 0) == 0,
{
    let s = out@;
    assert(crate::wire::le32_at(s, 0) == 0) by {
        assert(s.subrange(0, 4) =~= crate::wire::le32(0));
        crate::wire::le32_reads_back(0, s, 0);
    }
}

/// The name of a file, complete, behind its length.
#[verifier::spinoff_prover]
#[verifier::rlimit(60)]
pub proof fn law_name_information(name: &str, out: Vec<u8>)
    requires
        call_ensures(encode_file_name_information, (name,), out),
    ensures
        out@.len() == 4 + crate::wire::utf16le(name@).len(),
        out@.skip(4) == crate::wire::utf16le(name@),
        crate::wire::utf16le(name@).len() <= u32::MAX ==> crate::wire::le32_at(out@, 0)
            == crate::wire::utf16le(name@).len(),
{
    let s = out@;
    let n = crate::wire::utf16le(name@).len() as u32;
    assert(crate::wire::le32_at(s, 0) == n) by {
        assert(s.subrange(0, 4) =~= crate::wire::le32(n));
        crate::wire::le32_reads_back(n, s, 0);
    }
    assert(s.skip(4) =~= crate::wire::utf16le(name@));
}

/// Everything about a file: its timestamps, attributes and sizes, whether it is a
/// directory, its index, the access, and its name, complete, behind its length.
#[verifier::spinoff_prover]
#[verifier::rlimit(60)]
pub proof fn law_all_information(info: FileInfo, file_index: u64, access: u32, out: Vec<u8>)
    requires
        call_ensures(encode_file_all_information, (&info, file_index, access), out),
    ensures
        out@.len() == 100 + crate::wire::utf16le(info.name@).len(),
        crate::wire::le64_at(out@, 0) == info.creation_time,
        crate::wire::le64_at(out@, 8) == info.last_access_time,
        crate::wire::le64_at(out@, 16) == info.last_write_time,
        crate::wire::le64_at(out@, 24) == info.change_time,
        crate::wire::le32_at(out@, 32) == if info.is_directory { 0x10u32 } else { 0x80u32 },
        crate::wire::le32_at(out@, 36) == 0,
        crate::wire::le64_at(out@, 40) == info.allocation_size,
        crate::wire::le64_at(out@, 48) == info.end_of_file,
        crate::wire::le32_at(out@, 56) == 1,
        crate::wire::le16_at(out@, 62) == 0,
        crate::wire::le64_at(out@, 64) == file_index,
        crate::wire::le32_at(out@, 72) == 0,
        crate::wire::le32_at(out@, 76) == access,
        crate::wire::le64_at(out@, 80) == 0,
        crate::wire::le32_at(out@, 88) == 0,
        crate::wire::le32_at(out@, 92) == 0,
        out@[60] == 0,
        out@[61] == if info.is_directory { 1u8 } else { 0u8 },
        out@.skip(100) == crate::wire::utf16le(info.name@),
        crate::wire::utf16le(info.name@).len() <= u32::MAX ==> crate::wire::le32_at(out@, 96)
            == crate::wire::utf16le(info.name@).len(),
{
    let s = out@;
    parts_of_all_information(info, file_index, access);
    basic_fields(info);
    standard_fields(info);
    crate::wire::integers_in_part(s, 0, 40, 0);
    crate::wire::integers_in_part(s, 0, 40, 8);
    crate::wire::integers_in_part(s, 0, 40, 16);
    crate::wire::integers_in_part(s, 0, 40, 24);
    crate::wire::integers_in_part(s, 0, 40, 32);
    crate::wire::integers_in_part(s, 0, 40, 36);
    crate::wire::integers_in_part(s, 40, 64, 0);
    crate::wire::integers_in_part(s, 40, 64, 8);
    crate::wire::integers_in_part(s, 40, 64, 16);
    crate::wire::integers_in_part(s, 40, 64, 22);
    assert(s.subrange(40, 64)[20] == s[60] && s.subrange(40, 64)[21] == s[61]);
    crate::wire::le64_reads_back(file_index, s, 64);
    crate::wire::le32_reads_back(0, s, 72);
    crate::wire::le32_reads_back(access, s, 76);
    crate::wire::le64_reads_back(0, s, 80);
    crate::wire::le32_reads_back(0, s, 88);
    crate::wire::le32_reads_back(0, s, 92);
    let name = crate::wire::utf16le(info.name@);
    assert(s.skip(96) == crate::wire::le32(name.len() as u32) + name);
    assert(s.subrange(96, 100) =~= s.skip(96).subrange(0, 4));
    assert(s.skip(96).subrange(0, 4) =~= crate::wire::le32(name.len() as u32));
    crate::wire::le32_reads_back(name.len() as u32, s, 96);
    assert(s.skip(100) =~= s.skip(96).skip(4));
    assert(s.skip(96).skip(4) =~= name);
}

/// The fields of FileNetworkOpenInformation.
#[verifier::spinoff_prover]
#[verifier::rlimit(60)]
pub proof fn network_open_fields(info: FileInfo)
    ensures
        crate::info_class::file_network_open(info).len() == 56,
        crate::wire::le64_at(crate::info_class::file_network_open(info), 0) == info.creation_time,
        crate::wire::le64_at(crate::info_class::file_network_open(info), 8) == info.last_access_time,
        crate::wire::le64_at(crate::info_class::file_network_open(info), 16) == info.last_write_time,
        crate::wire::le64_at(crate::info_class::file_network_open(info), 24) == info.change_time,
        crate::wire::le64_at(crate::info_class::file_network_open(info), 32) == info.allocation_size,
        crate::wire::le64_at(crate::info_class::file_network_open(info), 40) == info.end_of_file,
        crate::wire::le32_at(crate::info_class::file_network_open(info), 48) == if info.is_directory { 0x10u32 } else { 0x80u32 },
        crate::wire::le32_at(crate::info_class::file_network_open(info), 52) == 0,
{
    let s = crate::info_class::file_network_open(info);
    let times = crate::info_class::file_times(info);
    let bits = crate::info_class::file_attributes(info);
    times_fields(info);
    network_open_from_its_parts(times, info.allocation_size, info.end_of_file, bits);
    crate::wire::integers_in_part(s, 0, 32, 0);
    crate::wire::integers_in_part(s, 0, 32, 8);
    crate::wire::integers_in_part(s, 0, 32, 16);
    crate::wire::integers_in_part(s, 0, 32, 24);
    crate::wire::le64_reads_back(info.allocation_size, s, 32);
    crate::wire::le64_reads_back(info.end_of_file, s, 40);
    crate::wire::le32_reads_back(bits, s, 48);
    crate::wire::le32_reads_back(0, s, 52);
}

/// The timestamps, the sizes and the attributes of a file, as its metadata say.
#[verifier::spinoff_prover]
#[verifier::rlimit(60)]
pub proof fn law_network_open_information(info: FileInfo, out: Vec<u8>)
    requires
        call_ensures(encode_file_network_open_information, (&info,), out),
    ensures
        out@.len() == 56,
        crate::wire::le64_at(out@, 0) == info.creation_time,
        crate::wire::le64_at(out@, 8) == info.last_access_time,
        crate::wire::le64_at(out@, 16) == info.last_write_time,
        crate::wire::le64_at(out@, 24) == info.change_time,
        crate::wire::le64_at(out@, 32) == info.allocation_size,
        crate::wire::le64_at(out@, 40) == info.end_of_file,
        crate::wire::le32_at(out@, 48) == if info.is_directory { 0x10u32 } else { 0x80u32 },
        crate::wire::le32_at(out@, 52) == 0,
{
    network_open_fields(info);
}

/// The creation time, the serial number and the label of a volume.
#[verifier::spinoff_prover]
#[verifier::rlimit(60)]
pub proof fn law_volume_information(creation_time: u64, serial: u32, label: &str, out: Vec<u8>)
    requires
        call_ensures(encode_fs_volume_information, (creation_time, serial, label), out),
    ensures
        out@.len() == 18 + crate::wire::utf16le(label@).len(),
        crate::wire::le64_at(out@, 0) == creation_time,
        crate::wire::le32_at(out@, 8) == serial,
        out@[16] == 0,
        out@[17] == 0,
        out@.skip(18) == crate::wire::utf16le(label@),
        crate::wire::utf16le(label@).len() <= u32::MAX ==> crate::wire::le32_at(out@, 12)
            == crate::wire::utf16le(label@).len(),
{
    let s = out@;
    assert(crate::wire::le64_at(s, 0) == creation_time) by {
        assert(s.subrange(0, 8) =~= crate::wire::le64(creation_time));
        crate::wire::le64_reads_back(creation_time, s, 0);
    }
    assert(crate::wire::le32_at(s, 8) == serial) by {
        assert(s.subrange(8, 12) =~= crate::wire::le32(serial));
        crate::wire::le32_reads_back(serial, s, 8);
    }
    let n = crate::wire::utf16le(label@).len() as u32;
    assert(crate::wire::le32_at(s, 12) == n) by {
        assert(s.subrange(12, 16) =~= crate::wire::le32(n));
        crate::wire::le32_reads_back(n, s, 12);
    }
    assert(s.skip(18) =~= crate::wire::utf16le(label@));
}

/// The size of a volume and what is free of it.
#[verifier::spinoff_prover]
#[verifier::rlimit(60)]
pub proof fn law_size_information(total: u64, free: u64, sectors: u32, bytes: u32, out: Vec<u8>)
    requires
        call_ensures(encode_fs_size_information, (total, free, sectors, bytes), out),
    ensures
        out@.len() == 24,
        crate::wire::le64_at(out@, 0) == total,
        crate::wire::le64_at(out@, 8) == free,
        crate::wire::le32_at(out@, 16) == sectors,
        crate::wire::le32_at(out@, 20) == bytes,
{
    let s = out@;
    assert(crate::wire::le64_at(s, 0) == total) by {
        assert(s.subrange(0, 8) =~= crate::wire::le64(total));
        crate::wire::le64_reads_back(total, s, 0);
    }
    assert(crate::wire::le64_at(s, 8) == free) by {
        assert(s.subrange(8, 16) =~= crate::wire::le64(free));
        crate::wire::le64_reads_back(free, s, 8);
    }
    assert(crate::wire::le32_at(s, 16) == sectors) by {
        assert(s.subrange(16, 20) =~= crate::wire::le32(sectors));
        crate::wire::le32_reads_back(sectors, s, 16);
    }
    assert(crate::wire::le32_at(s, 20) == bytes) by {
        assert(s.subrange(20, 24) =~= crate::wire::le32(bytes));
        crate::wire::le32_reads_back(bytes, s, 20);
    }
}

/// The type and the characteristics of a device.
#[verifier::spinoff_prover]
#[verifier::rlimit(60)]
pub proof fn law_device_information(device_type: u32, characteristics: u32, out: Vec<u8>)
    requires
        call_ensures(encode_fs_device_information, (device_type, characteristics), out),
    ensures
        out@.len() == 8,
        crate::wire::le32_at(out@, 0) == device_type,
        crate::wire::le32_at(out@, 4) == characteristics,
{
    let s = out@;
    assert(crate::wire::le32_at(s, 0) == device_type) by {
        assert(s.subrange(0, 4) =~= crate::wire::le32(device_type));
        crate::wire::le32_reads_back(device_type, s, 0);
    }
    assert(crate::wire::le32_at(s, 4) == characteristics) by {
        assert(s.subrange(4, 8) =~= crate::wire::le32(characteristics));
        crate::wire::le32_reads_back(characteristics, s, 4);
    }
}

/// The attributes of a file system, its longest file name, and its own name.
#[verifier::spinoff_prover]
#[verifier::rlimit(60)]
pub proof fn law_attribute_information(attributes: u32, max_name_len: u32, name: &str, out: Vec<u8>)
    requires
        call_ensures(encode_fs_attribute_information, (attributes, max_name_len, name), out),
    ensures
        out@.len() == 12 + crate::wire::utf16le(name@).len(),
        crate::wire::le32_at(out@, 0) == attributes,
        crate::wire::le32_at(out@, 4) == max_name_len,
        out@.skip(12) == crate::wire::utf16le(name@),
        crate::wire::utf16le(name@).len() <= u32::MAX ==> crate::wire::le32_at(out@, 8)
            == crate::wire::utf16le(name@).len(),
{
    let s = out@;
    assert(crate::wire::le32_at(s, 0) == attributes) by {
        assert(s.subrange(0, 4) =~= crate::wire::le32(attributes));
        crate::wire::le32_reads_back(attributes, s, 0);
    }
    assert(crate::wire::le32_at(s, 4) == max_name_len) by {
        assert(s.subrange(4, 8) =~= crate::wire::le32(max_name_len));
        crate::wire::le32_reads_back(max_name_len, s, 4);
    }
    let n = crate::wire::utf16le(name@).len() as u32;
    assert(crate::wire::le32_at(s, 8) == n) by {
        assert(s.subrange(8, 12) =~= crate::wire::le32(n));
        crate::wire::le32_reads_back(n, s, 8);
    }
    assert(s.skip(12) =~= crate::wire::utf16le(name@));
}

/// The size of a volume, what the caller may use of it, and what is free at all.
#[verifier::spinoff_prover]
#[verifier::rlimit(60)]
pub proof fn law_full_size_information(total: u64, caller_free: u64, free: u64, sectors: u32, bytes: u32, out: Vec<u8>)
    requires
        call_ensures(encode_fs_full_size_information, (total, caller_free, free, sectors, bytes), out),
    ensures
        out@.len() == 32,
        crate::wire::le64_at(out@, 0) == total,
        crate::wire::le64_at(out@, 8) == caller_free,
        crate::wire::le64_at(out@, 16) == free,
        crate::wire::le32_at(out@, 24) == sectors,
        crate::wire::le32_at(out@, 28) == bytes,
{
    let s = out@;
    assert(crate::wire::le64_at(s, 0) == total) by {
        assert(s.subrange(0, 8) =~= crate::wire::le64(total));
        crate::wire::le64_reads_back(total, s, 0);
    }
    assert(crate::wire::le64_at(s, 8) == caller_free) by {
        assert(s.subrange(8, 16) =~= crate::wire::le64(caller_free));
        crate::wire::le64_reads_back(caller_free, s, 8);
    }
    assert(crate::wire::le64_at(s, 16) == free) by {
        assert(s.subrange(16, 24) =~= crate::wire::le64(free));
        crate::wire::le64_reads_back(free, s, 16);
    }
    assert(crate::wire::le32_at(s, 24) == sectors) by {
        assert(s.subrange(24, 28) =~= crate::wire::le32(sectors));
        crate::wire::le32_reads_back(sectors, s, 24);
    }
    assert(crate::wire::le32_at(s, 28) == bytes) by {
        assert(s.subrange(28, 32) =~= crate::wire::le32(bytes));
        crate::wire::le32_reads_back(bytes, s, 28);
    }
}

/// A security descriptor of revision 1 that is self-relative and has neither
/// owner nor group nor access lists.
#[verifier::spinoff_prover]
#[verifier::rlimit(60)]
pub proof fn law_security_descriptor(out: Vec<u8>)
    requires
        call_ensures(encode_minimal_security_descriptor, (), out),
    ensures
        out@.len() == 20,
        crate::wire::le16_at(out@, 2) == 0x8000,
        crate::wire::le32_at(out@, 4) == 0,
        crate::wire::le32_at(out@, 8) == 0,
        crate::wire::le32_at(out@, 12) == 0,
        crate::wire::le32_at(out@, 16) == 0,
        out@[0] == 1,
        out@[1] == 0,
{
    let s = out@;
    assert(crate::wire::le16_at(s, 2) == 0x8000) by {
        assert(s.subrange(2, 4) =~= crate::wire::le16(0x8000));
        crate::wire::le16_reads_back(0x8000, s, 2);
    }
    assert(crate::wire::le32_at(s, 4) == 0) by {
        assert(s.subrange(4, 8) =~= crate::wire::le32(0));
        crate::wire::le32_reads_back(0, s, 4);
    }
    assert(crate::wire::le32_at(s, 8) == 0) by {
        assert(s.subrange(8, 12) =~= crate::wire::le32(0));
        crate::wire::le32_reads_back(0, s, 8);
    }
    assert(crate::wire::le32_at(s, 12) == 0) by {
        assert(s.subrange(12, 16) =~= crate::wire::le32(0));
        crate::wire::le32_reads_back(0, s, 12);
    }
    assert(crate::wire::le32_at(s, 16) == 0) by {
        assert(s.subrange(16, 20) =~= crate::wire::le32(0));
        crate::wire::le32_reads_back(0, s, 16);
    }
}

/// A directory has the attribute of one, and no other; any other file has none.
#[verifier::spinoff_prover]
#[verifier::rlimit(60)]
pub proof fn law_attributes(info: FileInfo, bits: u32)
    requires
        call_ensures(FileInfo::attributes, (&info,), bits),
    ensures
        bits == if info.is_directory { 0x10u32 } else { 0x80u32 },
{
}

/// All structures say the same of a file: the timestamps and attributes of the
/// basic structure, and the sizes of the standard one, stand in the others too.
#[verifier::spinoff_prover]
#[verifier::rlimit(60)]
pub proof fn law_structures_agree(
    info: FileInfo,
    file_index: u64,
    access: u32,
    basic: Vec<u8>,
    standard: Vec<u8>,
    internal: Vec<u8>,
    name: &str,
    name_alone: Vec<u8>,
    all: Vec<u8>,
    network: Vec<u8>,
)
    requires
        call_ensures(encode_file_basic_information, (&info,), basic),
        call_ensures(encode_file_standard_information, (&info,), standard),
        call_ensures(encode_file_internal_information, (file_index,), internal),
        call_ensures(encode_file_name_information, (name,), name_alone),
        name@ == info.name@,
        call_ensures(encode_file_all_information, (&info, file_index, access), all),
        call_ensures(encode_file_network_open_information, (&info,), network),
    ensures
        all@.subrange(0, 40) == basic@,
        all@.subrange(40, 64) == standard@,
        all@.subrange(64, 72) == internal@,
        all@.skip(96) == name_alone@,
        network@.subrange(0, 32) == basic@.subrange(0, 32),
        network@.subrange(32, 48) == standard@.subrange(0, 16),
        network@.subrange(48, 56) == basic@.subrange(32, 40),
{
}

} // verus!

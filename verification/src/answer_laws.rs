//! What QUERY_INFO requests are answered, from the bytes of a request to those
//! of its response.

use vstd::prelude::*;

use crate::info_class::{
    encode_file_access_information, encode_file_alignment_information,
    encode_file_all_information, encode_file_basic_information, encode_file_ea_information,
    encode_file_internal_information, encode_file_mode_information, encode_file_name_information,
    encode_file_network_open_information, encode_file_position_information,
    encode_file_standard_information, encode_fs_attribute_information,
    encode_fs_device_information, encode_fs_full_size_information, encode_fs_size_information,
    encode_fs_volume_information, encode_minimal_security_descriptor, FileInfo,
};
use crate::messages::{FileId, InfoType};
use crate::query_info::{
    begin, handle, Begin, HandlerResponse, Lookups, OpenLookup, Query, Resolved, StreamLookup,
    TraceEvent,
};
use crate::streams::{
    encode_file_stream_information, truncate_file_stream_information, StreamInfo,
};

verus! {

/// Whether the body of a request has an information type and a class.
pub open spec fn asks(body: Seq<u8>, info_type: int, info_class: int) -> bool {
    body.len() >= 40 && body[2] == info_type && body[3] == info_class
}

/// How many bytes a request has room for.
pub open spec fn room(body: Seq<u8>) -> int {
    crate::wire::le32_at(body, 4) as int
}

/// Whether a response has this status and carries exactly this buffer: behind
/// eight bytes that say where it stands and how long it is, and nothing else.
pub open spec fn carries(response: HandlerResponse, status: u32, buffer: Seq<u8>) -> bool {
    match response {
        HandlerResponse::Error { .. } => false,
        HandlerResponse::Data { status: s, body } => {
            &&& s == status
            &&& body@.len() == 8 + buffer.len()
            &&& crate::wire::le16_at(body@, 0) == 9
            &&& crate::wire::le16_at(body@, 2) == 72
            &&& crate::wire::le32_at(body@, 4) == buffer.len()
            &&& body@.skip(8) == buffer
        },
    }
}

/// Whether a response is what a request gets that this structure answers: all
/// of it, with success, if there is room for it, and otherwise the error that
/// the length does not match.
pub open spec fn is_answered_with(
    response: HandlerResponse,
    body: Seq<u8>,
    structure: Seq<u8>,
) -> bool {
    if structure.len() <= room(body) {
        carries(response, 0, structure)
    } else {
        response == (HandlerResponse::Error { status: 0xC000_0004 })
    }
}

proof fn finished_response(response: HandlerResponse, body: Seq<u8>, structure: Seq<u8>)
    requires
        response@ == crate::query_info::finished(structure, crate::wire::le32_at(body, 4), false),
    ensures
        is_answered_with(response, body, structure),
{
    crate::messages::law_response_carries_its_buffer(structure);
}

// Requests about a file.

/// A request for basic information is answered with that of the open file.
pub proof fn law_basic_information_is_answered(
    body: &[u8],
    tracing: bool,
    lookups: Lookups,
    trace: Option<TraceEvent>,
    response: HandlerResponse,
    file_id: FileId,
    info: FileInfo,
    structure: Vec<u8>,
)
    requires
        call_ensures(handle, (body, tracing, lookups), (trace, response)),
        asks(body@, 1, 4),
        lookups.open == (OpenLookup::Found { file_id, info: Ok(info) }),
        call_ensures(encode_file_basic_information, (&info,), structure),
    ensures
        is_answered_with(response, body@, structure@),
{
    finished_response(response, body@, structure@);
}

/// A request for standard information is answered with that of the open file.
pub proof fn law_standard_information_is_answered(
    body: &[u8],
    tracing: bool,
    lookups: Lookups,
    trace: Option<TraceEvent>,
    response: HandlerResponse,
    file_id: FileId,
    info: FileInfo,
    structure: Vec<u8>,
)
    requires
        call_ensures(handle, (body, tracing, lookups), (trace, response)),
        asks(body@, 1, 5),
        lookups.open == (OpenLookup::Found { file_id, info: Ok(info) }),
        call_ensures(encode_file_standard_information, (&info,), structure),
    ensures
        is_answered_with(response, body@, structure@),
{
    finished_response(response, body@, structure@);
}

/// A request for internal information is answered with the volatile part of the
/// open file's identifier.
pub proof fn law_internal_information_is_answered(
    body: &[u8],
    tracing: bool,
    lookups: Lookups,
    trace: Option<TraceEvent>,
    response: HandlerResponse,
    file_id: FileId,
    info: FileInfo,
    structure: Vec<u8>,
)
    requires
        call_ensures(handle, (body, tracing, lookups), (trace, response)),
        asks(body@, 1, 6),
        lookups.open == (OpenLookup::Found { file_id, info: Ok(info) }),
        call_ensures(encode_file_internal_information, (file_id.volatile,), structure),
    ensures
        is_answered_with(response, body@, structure@),
{
    finished_response(response, body@, structure@);
}

/// A request for the size of the extended attributes is answered: there are none.
pub proof fn law_ea_information_is_answered(
    body: &[u8],
    tracing: bool,
    lookups: Lookups,
    trace: Option<TraceEvent>,
    response: HandlerResponse,
    file_id: FileId,
    info: FileInfo,
    structure: Vec<u8>,
)
    requires
        call_ensures(handle, (body, tracing, lookups), (trace, response)),
        asks(body@, 1, 7),
        lookups.open == (OpenLookup::Found { file_id, info: Ok(info) }),
        call_ensures(encode_file_ea_information, (), structure),
    ensures
        is_answered_with(response, body@, structure@),
{
    finished_response(response, body@, structure@);
}

/// A request for the access is answered with all of it.
pub proof fn law_access_information_is_answered(
    body: &[u8],
    tracing: bool,
    lookups: Lookups,
    trace: Option<TraceEvent>,
    response: HandlerResponse,
    file_id: FileId,
    info: FileInfo,
    structure: Vec<u8>,
)
    requires
        call_ensures(handle, (body, tracing, lookups), (trace, response)),
        asks(body@, 1, 8),
        lookups.open == (OpenLookup::Found { file_id, info: Ok(info) }),
        call_ensures(encode_file_access_information, (0x001F_01FFu32,), structure),
    ensures
        is_answered_with(response, body@, structure@),
{
    finished_response(response, body@, structure@);
}

/// A request for the name is answered with that of the open file.
pub proof fn law_name_information_is_answered(
    body: &[u8],
    tracing: bool,
    lookups: Lookups,
    trace: Option<TraceEvent>,
    response: HandlerResponse,
    file_id: FileId,
    info: FileInfo,
    name: &str,
    structure: Vec<u8>,
)
    requires
        call_ensures(handle, (body, tracing, lookups), (trace, response)),
        asks(body@, 1, 9),
        lookups.open == (OpenLookup::Found { file_id, info: Ok(info) }),
        name@ == info.name@,
        call_ensures(encode_file_name_information, (name,), structure),
    ensures
        is_answered_with(response, body@, structure@),
{
    finished_response(response, body@, structure@);
}

/// A request for the position is answered with the start of the file.
pub proof fn law_position_information_is_answered(
    body: &[u8],
    tracing: bool,
    lookups: Lookups,
    trace: Option<TraceEvent>,
    response: HandlerResponse,
    file_id: FileId,
    info: FileInfo,
    structure: Vec<u8>,
)
    requires
        call_ensures(handle, (body, tracing, lookups), (trace, response)),
        asks(body@, 1, 14),
        lookups.open == (OpenLookup::Found { file_id, info: Ok(info) }),
        call_ensures(encode_file_position_information, (), structure),
    ensures
        is_answered_with(response, body@, structure@),
{
    finished_response(response, body@, structure@);
}

/// A request for the mode is answered with none.
pub proof fn law_mode_information_is_answered(
    body: &[u8],
    tracing: bool,
    lookups: Lookups,
    trace: Option<TraceEvent>,
    response: HandlerResponse,
    file_id: FileId,
    info: FileInfo,
    structure: Vec<u8>,
)
    requires
        call_ensures(handle, (body, tracing, lookups), (trace, response)),
        asks(body@, 1, 16),
        lookups.open == (OpenLookup::Found { file_id, info: Ok(info) }),
        call_ensures(encode_file_mode_information, (0u32,), structure),
    ensures
        is_answered_with(response, body@, structure@),
{
    finished_response(response, body@, structure@);
}

/// A request for the alignment is answered: none is asked for.
pub proof fn law_alignment_information_is_answered(
    body: &[u8],
    tracing: bool,
    lookups: Lookups,
    trace: Option<TraceEvent>,
    response: HandlerResponse,
    file_id: FileId,
    info: FileInfo,
    structure: Vec<u8>,
)
    requires
        call_ensures(handle, (body, tracing, lookups), (trace, response)),
        asks(body@, 1, 17),
        lookups.open == (OpenLookup::Found { file_id, info: Ok(info) }),
        call_ensures(encode_file_alignment_information, (), structure),
    ensures
        is_answered_with(response, body@, structure@),
{
    finished_response(response, body@, structure@);
}

/// A request for all information is answered with that of the open file.
pub proof fn law_all_information_is_answered(
    body: &[u8],
    tracing: bool,
    lookups: Lookups,
    trace: Option<TraceEvent>,
    response: HandlerResponse,
    file_id: FileId,
    info: FileInfo,
    structure: Vec<u8>,
)
    requires
        call_ensures(handle, (body, tracing, lookups), (trace, response)),
        asks(body@, 1, 18),
        lookups.open == (OpenLookup::Found { file_id, info: Ok(info) }),
        call_ensures(encode_file_all_information, (&info, file_id.volatile, 0x001F_01FFu32), structure),
    ensures
        is_answered_with(response, body@, structure@),
{
    finished_response(response, body@, structure@);
}

/// A request for network-open information is answered with that of the open file.
pub proof fn law_network_open_information_is_answered(
    body: &[u8],
    tracing: bool,
    lookups: Lookups,
    trace: Option<TraceEvent>,
    response: HandlerResponse,
    file_id: FileId,
    info: FileInfo,
    structure: Vec<u8>,
)
    requires
        call_ensures(handle, (body, tracing, lookups), (trace, response)),
        asks(body@, 1, 34),
        lookups.open == (OpenLookup::Found { file_id, info: Ok(info) }),
        call_ensures(encode_file_network_open_information, (&info,), structure),
    ensures
        is_answered_with(response, body@, structure@),
{
    finished_response(response, body@, structure@);
}

// Requests about the file system, and for the security descriptor.

/// A request for the volume is answered with the creation time of the open file,
/// be it a file or a directory, or zero where its metadata could not be had.
pub proof fn law_volume_information_is_answered(
    body: &[u8],
    tracing: bool,
    lookups: Lookups,
    trace: Option<TraceEvent>,
    response: HandlerResponse,
    file_id: FileId,
    info: Result<FileInfo, u32>,
    creation_time: u64,
    label: &str,
    structure: Vec<u8>,
)
    requires
        call_ensures(handle, (body, tracing, lookups), (trace, response)),
        asks(body@, 2, 1),
        lookups.open == (OpenLookup::Found { file_id, info }),
        info matches Ok(i) ==> creation_time == i.creation_time,
        info is Err ==> creation_time == 0,
        label@ == "smb-server"@,
        call_ensures(encode_fs_volume_information, (creation_time, 0xCAFE_BABEu32, label), structure),
    ensures
        is_answered_with(response, body@, structure@),
{
    finished_response(response, body@, structure@);
}

/// A request for the size of the volume is answered the same for every open.
pub proof fn law_size_information_is_answered(
    body: &[u8],
    tracing: bool,
    lookups: Lookups,
    trace: Option<TraceEvent>,
    response: HandlerResponse,
    structure: Vec<u8>,
)
    requires
        call_ensures(handle, (body, tracing, lookups), (trace, response)),
        asks(body@, 2, 3),
        lookups.open is Found,
        call_ensures(encode_fs_size_information, (0x100_0000_0000u64, 0x80_0000_0000u64, 1u32, 4096u32), structure),
    ensures
        is_answered_with(response, body@, structure@),
{
    finished_response(response, body@, structure@);
}

/// A request for the device is answered: a disk that is remote.
pub proof fn law_device_information_is_answered(
    body: &[u8],
    tracing: bool,
    lookups: Lookups,
    trace: Option<TraceEvent>,
    response: HandlerResponse,
    structure: Vec<u8>,
)
    requires
        call_ensures(handle, (body, tracing, lookups), (trace, response)),
        asks(body@, 2, 4),
        lookups.open is Found,
        call_ensures(encode_fs_device_information, (7u32, 0x10u32), structure),
    ensures
        is_answered_with(response, body@, structure@),
{
    finished_response(response, body@, structure@);
}

/// A request for the attributes of the file system is answered with flags of
/// which one alone depends on anything: whether the backend has named streams.
pub proof fn law_attribute_information_is_answered(
    body: &[u8],
    tracing: bool,
    lookups: Lookups,
    trace: Option<TraceEvent>,
    response: HandlerResponse,
    flags: u32,
    name: &str,
    structure: Vec<u8>,
)
    requires
        call_ensures(handle, (body, tracing, lookups), (trace, response)),
        asks(body@, 2, 5),
        lookups.open is Found,
        flags == if lookups.supports_named_streams { 0x00C4_001Fu32 } else { 0x00C0_001Fu32 },
        name@ == "NTFS"@,
        call_ensures(encode_fs_attribute_information, (flags, 255u32, name), structure),
    ensures
        is_answered_with(response, body@, structure@),
{
    assert(0x0000_0001u32 | 0x0000_0002 | 0x0000_0004 | 0x0000_0008 | 0x0000_0010 | 0x0040_0000
        | 0x0080_0000 == 0x00C0_001F) by (bit_vector);
    assert(0x00C0_001Fu32 | 0x0004_0000 == 0x00C4_001F) by (bit_vector);
    finished_response(response, body@, structure@);
}

/// A request for the full size of the volume is answered the same for every open.
pub proof fn law_full_size_information_is_answered(
    body: &[u8],
    tracing: bool,
    lookups: Lookups,
    trace: Option<TraceEvent>,
    response: HandlerResponse,
    structure: Vec<u8>,
)
    requires
        call_ensures(handle, (body, tracing, lookups), (trace, response)),
        asks(body@, 2, 7),
        lookups.open is Found,
        call_ensures(encode_fs_full_size_information, (0x100_0000_0000u64, 0x80_0000_0000u64, 0x80_0000_0000u64, 1u32, 4096u32), structure),
    ensures
        is_answered_with(response, body@, structure@),
{
    finished_response(response, body@, structure@);
}

/// A request for the security descriptor, of whatever class, is answered with the
/// minimal one.
pub proof fn law_security_descriptor_is_answered(
    body: &[u8],
    tracing: bool,
    lookups: Lookups,
    trace: Option<TraceEvent>,
    response: HandlerResponse,
    structure: Vec<u8>,
)
    requires
        call_ensures(handle, (body, tracing, lookups), (trace, response)),
        body@.len() >= 40,
        body@[2] == 3,
        lookups.open is Found,
        call_ensures(encode_minimal_security_descriptor, (), structure),
    ensures
        is_answered_with(response, body@, structure@),
{
    finished_response(response, body@, structure@);
}

/// The volume is as old as the open file, whatever that is: in every response
/// with the volume's information, its creation time is that of the metadata.
#[verifier::spinoff_prover]
#[verifier::rlimit(60)]
pub proof fn law_volume_is_as_old_as_the_open(
    body: &[u8],
    tracing: bool,
    lookups: Lookups,
    trace: Option<TraceEvent>,
    response: HandlerResponse,
    file_id: FileId,
    info: FileInfo,
)
    requires
        call_ensures(handle, (body, tracing, lookups), (trace, response)),
        asks(body@, 2, 1),
        lookups.open == (OpenLookup::Found { file_id, info: Ok(info) }),
    ensures
        response matches HandlerResponse::Data { body: out, .. } ==> crate::wire::le64_at(out@, 8)
            == info.creation_time,
        room(body@) >= 38 ==> response is Data,
{
    reveal_strlit("smb-server");
    crate::wire::ascii_takes_two_bytes("smb-server"@);
    let s = crate::info_class::fs_volume(info.creation_time, 0xCAFE_BABE, "smb-server"@);
    let out = crate::messages::query_info_response(s);
    assert(out.subrange(8, 16) =~= crate::wire::le64(info.creation_time));
    crate::wire::le64_reads_back(info.creation_time, out, 8);
}

/// A directory is marked as one, and a file as none, in every response that
/// holds attributes: with basic, all and network-open information alike.
#[verifier::spinoff_prover]
#[verifier::rlimit(60)]
pub proof fn law_directories_are_marked(
    body: &[u8],
    tracing: bool,
    lookups: Lookups,
    trace: Option<TraceEvent>,
    response: HandlerResponse,
    file_id: FileId,
    info: FileInfo,
)
    requires
        call_ensures(handle, (body, tracing, lookups), (trace, response)),
        lookups.open == (OpenLookup::Found { file_id, info: Ok(info) }),
    ensures
        response matches HandlerResponse::Data { body: out, .. } ==> {
            let bits = if info.is_directory { 0x10u32 } else { 0x80u32 };
            &&& asks(body@, 1, 4) ==> crate::wire::le32_at(out@, 40) == bits
            &&& asks(body@, 1, 18) ==> crate::wire::le32_at(out@, 40) == bits
            &&& asks(body@, 1, 34) ==> crate::wire::le32_at(out@, 56) == bits
        },
{
    attributes_behind_the_header(info, file_id.volatile);
}

#[verifier::spinoff_prover]
#[verifier::rlimit(60)]
proof fn attributes_behind_the_header(info: FileInfo, file_index: u64)
    ensures
        ({
            let bits = if info.is_directory { 0x10u32 } else { 0x80u32 };
            let basic = crate::info_class::file_basic(info);
            let all = crate::info_class::file_all(info, file_index, 0x001F_01FF);
            let network = crate::info_class::file_network_open(info);
            &&& crate::wire::le32_at(crate::messages::query_info_response(basic), 40) == bits
            &&& crate::wire::le32_at(crate::messages::query_info_response(all), 40) == bits
            &&& crate::wire::le32_at(crate::messages::query_info_response(network), 56) == bits
        }),
{
    let all = crate::info_class::file_all(info, file_index, 0x001F_01FF);
    crate::info_class_laws::basic_fields(info);
    integer_behind_the_header(crate::info_class::file_basic(info), 32);
    crate::info_class_laws::parts_of_all_information(info, file_index, 0x001F_01FF);
    crate::wire::integers_in_part(all, 0, 40, 32);
    integer_behind_the_header(all, 32);
    crate::info_class_laws::network_open_fields(info);
    integer_behind_the_header(crate::info_class::file_network_open(info), 48);
}

#[verifier::spinoff_prover]
#[verifier::rlimit(60)]
proof fn integer_behind_the_header(s: Seq<u8>, i: int)
    requires
        0 <= i,
        i + 4 <= s.len(),
    ensures
        crate::wire::le32_at(crate::messages::query_info_response(s), 8 + i)
            == crate::wire::le32_at(s, i),
{
    let out = crate::messages::query_info_response(s);
    crate::messages::law_response_carries_its_buffer(s);
    assert(out.skip(8) =~= out.subrange(8, out.len() as int));
    crate::wire::integers_in_part(out, 8, out.len() as int, i);
}

// Requests for the streams of a file.

/// Whether two forms of a list of streams hold the same.
pub open spec fn same_streams(named: Option<Vec<StreamInfo>>, streams: Option<&[StreamInfo]>) -> bool {
    match (named, streams) {
        (Some(v), Some(s)) => v@ == s@,
        (None, None) => true,
        _ => false,
    }
}

/// A request for the streams is answered with the listing of all of them, if
/// there is room for it; with success then, and only then.
#[verifier::spinoff_prover]
#[verifier::rlimit(60)]
pub proof fn law_streams_are_listed(
    body: &[u8],
    tracing: bool,
    lookups: Lookups,
    trace: Option<TraceEvent>,
    response: HandlerResponse,
    file_id: FileId,
    info: FileInfo,
    named: Option<Vec<StreamInfo>>,
    streams: Option<&[StreamInfo]>,
    listing: Vec<u8>,
)
    requires
        call_ensures(handle, (body, tracing, lookups), (trace, response)),
        asks(body@, 1, 22),
        lookups.open == (OpenLookup::Found { file_id, info: Ok(info) }),
        lookups.streams == StreamLookup::Listed(named),
        same_streams(named, streams),
        call_ensures(encode_file_stream_information, (&info, streams), listing),
    ensures
        listing@.len() <= room(body@) ==> carries(response, 0, listing@),
        listing@.len() > room(body@) ==> (response matches HandlerResponse::Data { status, .. }
            ==> status == 0x8000_0005),
        room(body@) < 38 ==> response == (HandlerResponse::Error { status: 0xC000_0004 }),
        room(body@) >= 38 ==> response is Data,
{
    let view = match streams {
        Some(s) => Some(s@),
        None => None,
    };
    let entries = crate::streams::stream_entries(info, view);
    let full = crate::streams::chain(entries);
    let max = crate::wire::le32_at(body@, 4);
    assert(listing@ == full);
    crate::messages::law_response_carries_its_buffer(full);
    crate::streams::law_primary_entry_len(info);
    crate::streams::law_first_entry_decides(entries, max);
    crate::streams::law_truncation_fits(full, max as int);
}

/// Where there is no room for the whole listing, the request is answered with
/// as much of it as its truncation keeps.
#[verifier::spinoff_prover]
#[verifier::rlimit(60)]
pub proof fn law_listing_without_room_is_cut(
    body: &[u8],
    tracing: bool,
    lookups: Lookups,
    trace: Option<TraceEvent>,
    response: HandlerResponse,
    file_id: FileId,
    info: FileInfo,
    named: Option<Vec<StreamInfo>>,
    streams: Option<&[StreamInfo]>,
    listing: Vec<u8>,
    full: &[u8],
    max: u32,
    partial: Option<Vec<u8>>,
)
    requires
        call_ensures(handle, (body, tracing, lookups), (trace, response)),
        asks(body@, 1, 22),
        lookups.open == (OpenLookup::Found { file_id, info: Ok(info) }),
        lookups.streams == StreamLookup::Listed(named),
        same_streams(named, streams),
        call_ensures(encode_file_stream_information, (&info, streams), listing),
        full@ == listing@,
        max == room(body@),
        full@.len() > max,
        call_ensures(truncate_file_stream_information, (full, max), partial),
    ensures
        partial matches Some(part) ==> carries(response, 0x8000_0005, part@),
        partial is None ==> response == (HandlerResponse::Error { status: 0xC000_0004 }),
{
    if let Some(part) = partial {
        crate::messages::law_response_carries_its_buffer(part@);
        crate::streams::law_truncation_fits(full@, max as int);
    }
}

/// A listing that there is no room for is answered, with the status that says
/// so, as the listing of the first streams is: of as many as there is room for.
/// The first stream that there is no room for has a name whose length its
/// field can hold.
#[verifier::spinoff_prover]
#[verifier::rlimit(60)]
pub proof fn law_cut_listing_names_the_streams_that_fit(
    body: &[u8],
    tracing: bool,
    lookups: Lookups,
    trace: Option<TraceEvent>,
    response: HandlerResponse,
    file_id: FileId,
    info: FileInfo,
    named: Vec<StreamInfo>,
    fewer: &[StreamInfo],
    one_more: &[StreamInfo],
    part: Vec<u8>,
    over: Vec<u8>,
)
    requires
        call_ensures(handle, (body, tracing, lookups), (trace, response)),
        asks(body@, 1, 22),
        lookups.open == (OpenLookup::Found { file_id, info: Ok(info) }),
        lookups.streams == StreamLookup::Listed(Some(named)),
        fewer@.len() < named@.len(),
        fewer@ == named@.take(fewer@.len() as int),
        one_more@ == named@.take(fewer@.len() as int + 1),
        call_ensures(encode_file_stream_information, (&info, Some(fewer)), part),
        call_ensures(encode_file_stream_information, (&info, Some(one_more)), over),
        part@.len() <= room(body@) < over@.len(),
        14 + crate::wire::utf16le(named@[fewer@.len() as int].name@).len() <= u32::MAX,
    ensures
        carries(response, 0x8000_0005, part@),
{
    let max = crate::wire::le32_at(body@, 4);
    cut_listing(info, named, fewer@.len() as int, max);
    crate::messages::law_response_carries_its_buffer(part@);
}

/// The response with the listing of the first `k` named streams, where there is
/// room for no more.
#[verifier::spinoff_prover]
#[verifier::rlimit(60)]
proof fn cut_listing(info: FileInfo, named: Vec<StreamInfo>, k: int, max: u32)
    requires
        0 <= k < named@.len(),
        crate::streams::chain(
            crate::streams::stream_entries(info, Some(named@.take(k))),
        ).len() <= max,
        crate::streams::chain(
            crate::streams::stream_entries(info, Some(named@.take(k + 1))),
        ).len() > max,
        14 + crate::wire::utf16le(named@[k].name@).len() <= u32::MAX,
    ensures
        crate::query_info::stream_response(info, max, StreamLookup::Listed(Some(named)))
            == (crate::query_info::Response::Data {
            status: 0x8000_0005,
            body: crate::messages::query_info_response(
                crate::streams::chain(
                    crate::streams::stream_entries(info, Some(named@.take(k))),
                ),
            ),
        }),
{
    let entries = crate::streams::stream_entries(info, Some(named@));
    crate::streams::entries_of_fewer_streams(info, named@, k);
    crate::streams::entries_of_fewer_streams(info, named@, k + 1);
    crate::streams::named_entry_len(named@[k]);
    assert(entries[k + 1] == crate::streams::named_entry(named@[k]));
    crate::query_info_laws::law_stream_list_by_room(info, Some(named), max, k + 1);
}

/// A listing that could not be had fails the request: the file is closed if it
/// has lost its handle, and otherwise the failure is passed on.
pub proof fn law_failed_listing_fails_the_request(
    body: &[u8],
    tracing: bool,
    lookups: Lookups,
    trace: Option<TraceEvent>,
    response: HandlerResponse,
)
    requires
        call_ensures(handle, (body, tracing, lookups), (trace, response)),
        asks(body@, 1, 22),
        lookups.open matches OpenLookup::Found { info, .. } && info is Ok,
    ensures
        lookups.streams is NoHandle ==> response == (HandlerResponse::Error {
            status: 0xC000_0128,
        }),
        lookups.streams matches StreamLookup::Failed(status) ==> response
            == (HandlerResponse::Error { status }),
{
}

// Requests that are refused, and what plays no part.

/// What each refused request is answered. Fewer than 40 bytes are no request;
/// the information type is one of four; a tree that was not found says why
/// itself; a file that is not open, or has lost its handle, is closed. Quotas
/// are not supported. A request about a file whose metadata could not be had
/// fails as that did; there are no extended attributes to list; and a class that
/// is not known is invalid.
pub proof fn law_each_refusal_has_its_status(
    body: &[u8],
    tracing: bool,
    lookups: Lookups,
    trace: Option<TraceEvent>,
    response: HandlerResponse,
)
    requires
        call_ensures(handle, (body, tracing, lookups), (trace, response)),
    ensures
        ({
            let class = body@[3];
            let refused = |status: u32| response == (HandlerResponse::Error { status });
            &&& body@.len() < 40 ==> refused(0xC000_000D)
            &&& body@.len() >= 40 && !(1 <= body@[2] <= 4) ==> refused(0xC000_0003)
            &&& body@.len() >= 40 && 1 <= body@[2] <= 4 ==> match lookups.open {
                OpenLookup::NoTree(status) => refused(status),
                OpenLookup::NotOpen => refused(0xC000_0128),
                OpenLookup::NoHandle => refused(0xC000_0128),
                OpenLookup::Found { info, .. } => {
                    &&& body@[2] == 4 ==> refused(0xC000_00BB)
                    &&& body@[2] == 1 ==> match info {
                        Err(status) => refused(status),
                        Ok(_) => {
                            &&& class == 15 ==> refused(0xC000_0052)
                            &&& !(4 <= class <= 9 || 14 <= class <= 18 || class == 22 || class
                                == 34) ==> refused(0xC000_0003)
                        },
                    }
                    &&& body@[2] == 2 && !(class == 1 || 3 <= class <= 5 || class == 7)
                        ==> refused(0xC000_0003)
                },
            }
        }),
{
}

/// What a request is answered depends on its type, its class and its room
/// alone, and on what was looked up: neither on the rest of its bytes nor on
/// whether there is a wire log. The list of streams plays a part only in a
/// request for it, and whether the backend has named streams only in one for
/// the attributes of the file system.
#[verifier::spinoff_prover]
#[verifier::rlimit(60)]
pub proof fn law_nothing_else_plays_a_part(
    body: &[u8],
    tracing: bool,
    lookups: Lookups,
    trace: Option<TraceEvent>,
    response: HandlerResponse,
    other_body: &[u8],
    other_tracing: bool,
    other_lookups: Lookups,
    other_trace: Option<TraceEvent>,
    other_response: HandlerResponse,
)
    requires
        call_ensures(handle, (body, tracing, lookups), (trace, response)),
        call_ensures(
            handle,
            (other_body, other_tracing, other_lookups),
            (other_trace, other_response),
        ),
        body@.len() >= 40,
        other_body@.len() >= 40,
        body@.subrange(2, 8) == other_body@.subrange(2, 8),
        lookups.open == other_lookups.open,
        asks(body@, 1, 22) ==> lookups.streams == other_lookups.streams,
        asks(body@, 2, 5) ==> lookups.supports_named_streams
            == other_lookups.supports_named_streams,
    ensures
        match (response, other_response) {
            (HandlerResponse::Error { status: a }, HandlerResponse::Error { status: b }) => a == b,
            (
                HandlerResponse::Data { status: a, body: x },
                HandlerResponse::Data { status: b, body: y },
            ) => a == b && x@ == y@,
            _ => false,
        },
{
    let a = body@.subrange(2, 8);
    let b = other_body@.subrange(2, 8);
    assert(body@[2] == a[0] && body@[3] == a[1]);
    assert(other_body@[2] == b[0] && other_body@[3] == b[1]);
    crate::wire::integers_in_part(body@, 2, 8, 2);
    crate::wire::integers_in_part(other_body@, 2, 8, 2);
}

/// What the wire log is given of a request: its type and its class, as they
/// came, exactly if there is a log, the request is whole, and its type is one
/// of four.
pub proof fn law_requests_are_logged(
    body: &[u8],
    tracing: bool,
    lookups: Lookups,
    trace: Option<TraceEvent>,
    response: HandlerResponse,
)
    requires
        call_ensures(handle, (body, tracing, lookups), (trace, response)),
    ensures
        trace is Some <==> tracing && body@.len() >= 40 && 1 <= body@[2] <= 4,
        trace matches Some(TraceEvent::QueryInfo { info_type, info_class }) ==> info_type
            == body@[2] && info_class == body@[3],
{
}

// The steps.

/// What is to be looked up for a request, and where its body says so; a request
/// for which nothing is looked up is refused.
pub proof fn law_first_step(body: &[u8], tracing: bool, next: Begin)
    requires
        call_ensures(begin, (body, tracing), next),
    ensures
        next is Lookup <==> body@.len() >= 40 && 1 <= body@[2] <= 4,
        next matches Begin::Lookup { trace, query } ==> {
            &&& query.info_type == InfoType::File <==> body@[2] == 1
            &&& query.info_type == InfoType::FileSystem <==> body@[2] == 2
            &&& query.info_type == InfoType::Security <==> body@[2] == 3
            &&& query.info_type == InfoType::Quota <==> body@[2] == 4
            &&& query.info_class == body@[3]
            &&& query.output_buffer_length == room(body@)
            &&& query.file_id.persistent == crate::wire::le64_at(body@, 24)
            &&& query.file_id.volatile == crate::wire::le64_at(body@, 32)
            &&& trace is Some <==> tracing
            &&& trace matches Some(TraceEvent::QueryInfo { info_type, info_class }) ==> info_type
                == body@[2] && info_class == body@[3]
        },
        next matches Begin::Respond(response) ==> response == (HandlerResponse::Error {
            status: if body@.len() < 40 { 0xC000_000Du32 } else { 0xC000_0003u32 },
        }),
{
}

/// What more is looked up for a request: the list of streams exactly for a
/// request for it about a file whose metadata are known, and what the backend
/// can do exactly for a request for the attributes of the file system.
pub proof fn law_second_step(query: Query, open: OpenLookup, next: Resolved)
    requires
        call_ensures(Query::resolve, (query, open), next),
    ensures
        ({
            let known = open matches OpenLookup::Found { info, .. } && info is Ok;
            &&& next is ListStreams <==> known && query.info_type == InfoType::File
                && query.info_class == 22
            &&& next is AskCapabilities <==> open is Found && query.info_type
                == InfoType::FileSystem && query.info_class == 5
            &&& next matches Resolved::ListStreams(s) ==> s.output_buffer_length
                == query.output_buffer_length && open->info == Ok::<FileInfo, u32>(s.info)
            &&& next matches Resolved::AskCapabilities(a) ==> a.output_buffer_length
                == query.output_buffer_length
        }),
{
}

/// The status of a response is the one it was made with.
pub proof fn law_statuses(
    status: u32,
    bytes: Vec<u8>,
    refused: HandlerResponse,
    accepted: HandlerResponse,
    of_refused: u32,
    of_accepted: u32,
)
    requires
        call_ensures(HandlerResponse::err, (status,), refused),
        call_ensures(HandlerResponse::ok, (bytes,), accepted),
        call_ensures(HandlerResponse::status, (&refused,), of_refused),
        call_ensures(HandlerResponse::status, (&accepted,), of_accepted),
    ensures
        refused == (HandlerResponse::Error { status }),
        of_refused == status,
        of_accepted == 0,
        accepted matches HandlerResponse::Data { status: s, body } && s == 0 && body@ == bytes@,
{
}

} // verus!

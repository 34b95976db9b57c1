//! What holds of every QUERY_INFO response.

use vstd::prelude::*;

use crate::info_class::{FileInfo, FS_ATTRIBUTE_INFORMATION};
use crate::messages::{FileId, InfoType, QUERY_INFO_REQUEST_LEN, QUERY_INFO_RESPONSE_LEN};
use crate::ntstatus::{
    STATUS_BUFFER_OVERFLOW, STATUS_FILE_CLOSED, STATUS_INFO_LENGTH_MISMATCH,
    STATUS_INVALID_INFO_CLASS, STATUS_INVALID_PARAMETER, STATUS_NOT_SUPPORTED,
    STATUS_NO_EAS_ON_FILE, STATUS_SUCCESS,
};
use crate::query_info::{Lookups, OpenLookup, Query, StreamLookup, FILE_NAMED_STREAMS};
use crate::streams::StreamInfo;

verus! {

/// A response never carries more than the client has room for: its buffer is
/// at most as long as the request allows, and the length that it announces is
/// that of its buffer. Its status is success, or buffer overflow.
pub proof fn law_response_fits_the_client(body: Seq<u8>, lookups: Lookups)
    ensures
        crate::query_info::response(body, lookups) matches crate::query_info::Response::Data {
            status,
            body: out,
        } ==> {
            &&& status == STATUS_SUCCESS || status == STATUS_BUFFER_OVERFLOW
            &&& out.len() >= QUERY_INFO_RESPONSE_LEN
            &&& crate::wire::le32_at(out, 4) == out.len() - QUERY_INFO_RESPONSE_LEN
            &&& out.len() - QUERY_INFO_RESPONSE_LEN <= crate::wire::le32_at(body, 4)
        },
{
    assert forall|buffer: Seq<u8>| #[trigger]
        crate::messages::query_info_response(buffer).len() == buffer.len()
            + QUERY_INFO_RESPONSE_LEN && crate::wire::le32_at(
            crate::messages::query_info_response(buffer),
            4,
        ) == buffer.len() as u32 by {
        let out = crate::messages::query_info_response(buffer);
        assert(out.subrange(4, 8) =~= crate::wire::le32(buffer.len() as u32));
        crate::wire::le32_reads_back(buffer.len() as u32, out, 4);
    }
}

/// Only the list of a file's streams is ever answered in part.
pub proof fn law_only_stream_lists_overflow(query: Query, lookups: Lookups)
    requires
        crate::query_info::query_response(query, lookups) matches crate::query_info::Response::Data {
            status,
            ..
        } && status == STATUS_BUFFER_OVERFLOW,
    ensures
        query.info_type == InfoType::File,
        query.info_class == crate::info_class::FILE_STREAM_INFORMATION,
        lookups.streams is Listed,
{
}

/// The list of a file's streams, by the room that the client has. All of it
/// is sent where it fits. Otherwise as many whole entries as fit are sent, as
/// a terminated chain that begins with the unnamed stream, and the status says
/// that there are more. Where not even the first entry fits, nothing is sent.
/// The first entry that does not fit has a name whose length its field can
/// hold.
pub proof fn law_stream_list_by_room(
    info: FileInfo,
    named: Option<Vec<StreamInfo>>,
    max: u32,
    k: int,
)
    requires
        ({
            let entries = listed_entries(info, named);
            &&& 1 <= k <= entries.len()
            &&& k < entries.len() ==> entries[k].name.len() <= u32::MAX
        }),
    ensures
        ({
            let entries = listed_entries(info, named);
            let response = crate::query_info::stream_response(
                info,
                max,
                StreamLookup::Listed(named),
            );
            &&& entries[0] == crate::streams::primary_entry(info)
            &&& crate::streams::chain(entries).len() <= max ==> response
                == (crate::query_info::Response::Data {
                status: STATUS_SUCCESS,
                body: crate::messages::query_info_response(crate::streams::chain(entries)),
            })
            &&& k < entries.len() && crate::streams::chain(entries.take(k)).len() <= max
                < crate::streams::chain(entries.take(k + 1)).len() ==> response
                == (crate::query_info::Response::Data {
                status: STATUS_BUFFER_OVERFLOW,
                body: crate::messages::query_info_response(
                    crate::streams::chain(entries.take(k)),
                ),
            })
            &&& max < crate::streams::chain(entries.take(1)).len() ==> response
                == crate::query_info::Response::Error(STATUS_INFO_LENGTH_MISMATCH)
        }),
{
    let entries = listed_entries(info, named);
    crate::streams::law_primary_entry_len(info);
    crate::streams::law_listing_grows_with_its_entries(entries, 1);
    if k < entries.len() {
        crate::streams::law_listing_grows_with_its_entries(entries, k + 1);
        if crate::streams::chain(entries.take(k)).len() <= max < crate::streams::chain(
            entries.take(k + 1),
        ).len() {
            crate::streams::law_truncation_keeps_the_entries_that_fit(entries, max, k);
        }
    }
    if max < crate::streams::chain(entries.take(1)).len() {
        crate::streams::law_truncation_below_the_first_entry_is_none(entries, max);
    }
}

/// More room never loses an answer: a request that is answered in full gets
/// the same response with more room, and one that is answered at all is
/// answered with more room.
pub proof fn law_more_room_keeps_the_answer(query: Query, lookups: Lookups, more: u32)
    requires
        query.output_buffer_length <= more,
    ensures
        ({
            let response = crate::query_info::query_response(query, lookups);
            let roomier = crate::query_info::query_response(
                (Query { output_buffer_length: more, ..query }),
                lookups,
            );
            &&& response is Data ==> roomier is Data
            &&& response matches crate::query_info::Response::Data { status, .. } ==> (status
                == STATUS_SUCCESS ==> roomier == response)
        }),
{
    if let OpenLookup::Found { file_id, info } = lookups.open {
        let answer = crate::query_info::answer(query.info_type, query.info_class, file_id, info);
        if let crate::query_info::Answer::Streams(info) = answer {
            if let StreamLookup::Listed(named) = lookups.streams {
                let full = crate::streams::chain(listed_entries(info, named));
                let max = query.output_buffer_length as int;
                crate::streams::law_truncation_fits(full, max);
                crate::streams::law_truncation_fits(full, more as int);
                if crate::streams::truncated(full, max) is Some {
                    crate::streams::law_truncation_grows_with_room(full, max, more as int);
                }
            }
        }
    }
}

/// The entries of a file whose streams were listed.
pub open spec fn listed_entries(info: FileInfo, named: Option<Vec<StreamInfo>>) -> Seq<
    crate::streams::StreamEntry,
> {
    crate::streams::stream_entries(
        info,
        match named {
            Some(v) => Some(v@),
            None => None,
        },
    )
}

/// Named streams are advertised exactly where the backend has them, whatever
/// else was looked up: a response with the attributes of the file system
/// begins with flags that hold `FILE_NAMED_STREAMS` if and only if it does.
pub proof fn law_named_streams_are_advertised_iff_supported(query: Query, lookups: Lookups)
    requires
        query.info_type == InfoType::FileSystem,
        query.info_class == FS_ATTRIBUTE_INFORMATION,
    ensures
        crate::query_info::query_response(
            query,
            lookups,
        ) matches crate::query_info::Response::Data { status, body } ==> {
            &&& status == STATUS_SUCCESS
            &&& body.len() >= QUERY_INFO_RESPONSE_LEN + 4
            &&& (crate::wire::le32_at(body, QUERY_INFO_RESPONSE_LEN as int) & FILE_NAMED_STREAMS
                != 0) == lookups.supports_named_streams
        },
{
    let flags = crate::query_info::file_system_attributes(lookups.supports_named_streams);
    let buffer = crate::info_class::fs_attribute(
        flags,
        crate::query_info::MAX_FILE_NAME_LEN,
        crate::query_info::FILE_SYSTEM_NAME@,
    );
    let out = crate::messages::query_info_response(buffer);
    assert(out.subrange(8, 12) =~= crate::wire::le32(flags));
    crate::wire::le32_reads_back(flags, out, 8);
    let common = crate::query_info::file_system_attributes(false);
    assert(common & FILE_NAMED_STREAMS == 0) by (bit_vector)
        requires
            common == 0x0000_0001u32 | 0x0000_0002 | 0x0000_0004 | 0x0000_0008 | 0x0000_0010
                | 0x0040_0000 | 0x0080_0000,
            FILE_NAMED_STREAMS == 0x0004_0000u32,
    ;
    assert((common | FILE_NAMED_STREAMS) & FILE_NAMED_STREAMS != 0) by (bit_vector)
        requires
            FILE_NAMED_STREAMS == 0x0004_0000u32,
    ;
}

/// What a refused request is answered. A body too short to be a request is an
/// invalid parameter, an unknown information type an invalid class; both are
/// refused whatever the lookups would give. A file that is not open is closed.
/// Quotas are not supported, there are no extended attributes, and a class
/// that is not known is invalid.
pub proof fn law_refusals(body: Seq<u8>, lookups: Lookups)
    ensures
        ({
            let response = crate::query_info::response(body, lookups);
            let info_type = crate::messages::info_type_of(body[2]);
            &&& body.len() < QUERY_INFO_REQUEST_LEN ==> response
                == crate::query_info::Response::Error(STATUS_INVALID_PARAMETER)
            &&& body.len() >= QUERY_INFO_REQUEST_LEN && info_type is None ==> response
                == crate::query_info::Response::Error(STATUS_INVALID_INFO_CLASS)
            &&& body.len() >= QUERY_INFO_REQUEST_LEN && info_type is Some ==> {
                &&& lookups.open matches OpenLookup::NoTree(status) ==> response
                    == crate::query_info::Response::Error(status)
                &&& lookups.open is NotOpen || lookups.open is NoHandle ==> response
                    == crate::query_info::Response::Error(STATUS_FILE_CLOSED)
                &&& lookups.open is Found && info_type == Some(InfoType::Quota) ==> response
                    == crate::query_info::Response::Error(STATUS_NOT_SUPPORTED)
                &&& info_type == Some(InfoType::File) ==> (lookups.open matches OpenLookup::Found {
                    info,
                    ..
                } ==> {
                    &&& info matches Err(status) ==> response
                        == crate::query_info::Response::Error(status)
                    &&& info is Ok && body[3] == crate::info_class::FILE_FULL_EA_INFORMATION
                        ==> response == crate::query_info::Response::Error(STATUS_NO_EAS_ON_FILE)
                    &&& info is Ok && !is_file_class(body[3]) ==> response
                        == crate::query_info::Response::Error(STATUS_INVALID_INFO_CLASS)
                })
                &&& lookups.open is Found && info_type == Some(InfoType::FileSystem)
                    && !is_file_system_class(body[3]) ==> response
                    == crate::query_info::Response::Error(STATUS_INVALID_INFO_CLASS)
            }
        }),
{
}

/// Whether a class is one of those that a request about a file can name.
pub open spec fn is_file_class(class: u8) -> bool {
    4 <= class <= 9 || 14 <= class <= 18 || class == 22 || class == 34
}

/// Whether a class is one of those that a request about the file system can
/// name.
pub open spec fn is_file_system_class(class: u8) -> bool {
    class == 1 || 3 <= class <= 5 || class == 7
}

/// A request with a known class about an open file is refused, if at all, for
/// want of room at the client's. One that a single structure answers gets it,
/// whole, exactly if there is room for it; a list of streams is answered, if
/// only in part, exactly if there is room for the unnamed stream's entry.
pub proof fn law_known_classes_are_answered(
    query: Query,
    file_id: FileId,
    info: FileInfo,
    named: Option<Vec<StreamInfo>>,
    supports_named_streams: bool,
)
    requires
        match query.info_type {
            InfoType::File => is_file_class(query.info_class) && query.info_class
                != crate::info_class::FILE_FULL_EA_INFORMATION,
            InfoType::FileSystem => is_file_system_class(query.info_class),
            InfoType::Security => true,
            InfoType::Quota => false,
        },
    ensures
        ({
            let max = query.output_buffer_length;
            let response = crate::query_info::query_response(
                query,
                (Lookups {
                    open: OpenLookup::Found { file_id, info: Ok(info) },
                    streams: StreamLookup::Listed(named),
                    supports_named_streams,
                }),
            );
            &&& response is Data || response == crate::query_info::Response::Error(
                STATUS_INFO_LENGTH_MISMATCH,
            )
            &&& match crate::query_info::answer(
                query.info_type,
                query.info_class,
                file_id,
                Ok(info),
            ) {
                crate::query_info::Answer::Refuse(_) => false,
                crate::query_info::Answer::Buffer(buffer) => {
                    &&& response is Data <==> buffer.len() <= max
                    &&& response is Data ==> response == (crate::query_info::Response::Data {
                        status: STATUS_SUCCESS,
                        body: crate::messages::query_info_response(buffer),
                    })
                },
                crate::query_info::Answer::Streams(_) => response is Data <==> max >= 38,
                crate::query_info::Answer::Attributes => response is Data <==> max >= 20,
            }
        }),
{
    stream_list_is_answered(info, named, query.output_buffer_length);
    attributes_are_answered(query.output_buffer_length, supports_named_streams);
}

proof fn stream_list_is_answered(info: FileInfo, named: Option<Vec<StreamInfo>>, max: u32)
    ensures
        ({
            let response = crate::query_info::stream_response(
                info,
                max,
                StreamLookup::Listed(named),
            );
            &&& response is Data <==> max >= 38
            &&& response is Data || response == crate::query_info::Response::Error(
                STATUS_INFO_LENGTH_MISMATCH,
            )
        }),
{
    let entries = listed_entries(info, named);
    crate::streams::law_primary_entry_len(info);
    crate::streams::law_first_entry_decides(entries, max);
    crate::streams::law_truncation_fits(crate::streams::chain(entries), max as int);
}

proof fn attributes_are_answered(max: u32, supports_named_streams: bool)
    ensures
        crate::query_info::attribute_response(max, supports_named_streams) is Data <==> max >= 20,
{
    reveal_strlit("NTFS");
    crate::wire::ascii_takes_two_bytes(crate::query_info::FILE_SYSTEM_NAME@);
}

/// That a file's metadata could not be had fails only requests about the file
/// itself. Any other request is answered as if the file's creation time were
/// zero.
pub proof fn law_metadata_failure_concerns_only_the_file(
    query: Query,
    file_id: FileId,
    status: u32,
    stand_in: FileInfo,
    streams: StreamLookup,
    supports_named_streams: bool,
)
    requires
        query.info_type != InfoType::File,
        stand_in.creation_time == 0,
    ensures
        crate::query_info::query_response(
            query,
            (Lookups {
                open: OpenLookup::Found { file_id, info: Err(status) },
                streams,
                supports_named_streams,
            }),
        ) == crate::query_info::query_response(
            query,
            (Lookups {
                open: OpenLookup::Found { file_id, info: Ok(stand_in) },
                streams,
                supports_named_streams,
            }),
        ),
{
}

/// A request is recorded in the wire log, with its type and class as they came,
/// exactly if there is a log and the request is not refused as malformed;
/// what the lookups give plays no part.
pub proof fn law_well_formed_requests_are_recorded(body: Seq<u8>)
    ensures
        crate::query_info::trace_of(body, true) == if body.len() >= QUERY_INFO_REQUEST_LEN && 1
            <= body[2] <= 4 {
            Some(
                crate::query_info::TraceEvent::QueryInfo {
                    info_type: body[2],
                    info_class: body[3],
                },
            )
        } else {
            None
        },
        crate::query_info::trace_of(body, false) is None,
{
}

} // verus!

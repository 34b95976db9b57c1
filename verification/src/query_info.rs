//! The QUERY_INFO handler: which answer a request gets, and what has to be
//! looked up for it.
//!
//! A request is handled in steps. [`begin`] reads the request,
//! [`Query::resolve`] takes what the lookup of the open file gave, and
//! [`StreamQuery::answer`] or [`AttributeQuery::answer`] takes what only two
//! kinds of request need. [`handle`] runs the steps on answers that are at
//! hand.

use vstd::prelude::*;

use crate::info_class::{
    encode_file_access_information, encode_file_alignment_information,
    encode_file_all_information, encode_file_basic_information, encode_file_ea_information,
    encode_file_internal_information, encode_file_mode_information, encode_file_name_information,
    encode_file_network_open_information, encode_file_position_information,
    encode_file_standard_information, encode_fs_attribute_information,
    encode_fs_device_information, encode_fs_full_size_information, encode_fs_size_information,
    encode_fs_volume_information, encode_minimal_security_descriptor, FileInfo,
    FILE_ACCESS_INFORMATION, FILE_ALIGNMENT_INFORMATION, FILE_ALL_INFORMATION,
    FILE_BASIC_INFORMATION, FILE_EA_INFORMATION, FILE_FULL_EA_INFORMATION,
    FILE_INTERNAL_INFORMATION, FILE_MODE_INFORMATION, FILE_NAME_INFORMATION,
    FILE_NETWORK_OPEN_INFORMATION, FILE_POSITION_INFORMATION, FILE_STANDARD_INFORMATION,
    FILE_STREAM_INFORMATION, FS_ATTRIBUTE_INFORMATION, FS_DEVICE_INFORMATION,
    FS_FULL_SIZE_INFORMATION, FS_SIZE_INFORMATION, FS_VOLUME_INFORMATION,
};
use crate::messages::{
    FileId, InfoType, MessageTooShort, QueryInfoRequest, QueryInfoResponse,
    QUERY_INFO_BUFFER_OFFSET, QUERY_INFO_REQUEST_LEN,
};
use crate::ntstatus::{
    STATUS_BUFFER_OVERFLOW, STATUS_FILE_CLOSED, STATUS_INFO_LENGTH_MISMATCH,
    STATUS_INVALID_INFO_CLASS, STATUS_INVALID_PARAMETER, STATUS_NOT_SUPPORTED,
    STATUS_NO_EAS_ON_FILE, STATUS_SUCCESS,
};
use crate::streams::{
    encode_file_stream_information, truncate_file_stream_information, StreamInfo,
};

verus! {

pub const FILE_DEVICE_DISK: u32 = 0x0000_0007;

pub const FILE_REMOTE_DEVICE: u32 = 0x0000_0010;

// Attribute flags of a file system.

pub const FILE_CASE_SENSITIVE_SEARCH: u32 = 0x0000_0001;

pub const FILE_CASE_PRESERVED_NAMES: u32 = 0x0000_0002;

pub const FILE_UNICODE_ON_DISK: u32 = 0x0000_0004;

pub const FILE_PERSISTENT_ACLS: u32 = 0x0000_0008;

pub const FILE_FILE_COMPRESSION: u32 = 0x0000_0010;

pub const FILE_SUPPORTS_HARD_LINKS: u32 = 0x0040_0000;

pub const FILE_SUPPORTS_EXTENDED_ATTRIBUTES: u32 = 0x0080_0000;

pub const FILE_NAMED_STREAMS: u32 = 0x0004_0000;

/// The access that every open is said to have: all of it.
pub const FULL_ACCESS: u32 = 0x001F_01FF;

/// Serial number of the volume.
pub const VOLUME_SERIAL: u32 = 0xCAFE_BABE;

/// Label of the volume.
pub const VOLUME_LABEL: &'static str = "smb-server";

/// Name of the file system.
pub const FILE_SYSTEM_NAME: &'static str = "NTFS";

/// The longest file name.
pub const MAX_FILE_NAME_LEN: u32 = 255;

/// Allocation units of the volume.
pub const TOTAL_UNITS: u64 = 0x100_0000_0000;

/// Free allocation units of the volume.
pub const FREE_UNITS: u64 = 0x80_0000_0000;

pub const SECTORS_PER_UNIT: u32 = 1;

pub const BYTES_PER_SECTOR: u32 = 4096;

/// The outcome of a handler, before it is framed as a message.
#[derive(Debug)]
pub enum HandlerResponse {
    /// An error response with this status.
    Error { status: u32 },
    /// A response with this status and body.
    Data { status: u32, body: Vec<u8> },
}

/// The outcome of a handler, with the body as a sequence.
pub ghost enum Response {
    Error(u32),
    Data { status: u32, body: Seq<u8> },
}

impl View for HandlerResponse {
    type V = Response;

    open spec fn view(&self) -> Response {
        match *self {
            HandlerResponse::Error { status } => Response::Error(status),
            HandlerResponse::Data { status, body } => Response::Data { status, body: body@ },
        }
    }
}

impl HandlerResponse {
    /// An error response.
    pub fn err(status: u32) -> (r: HandlerResponse)
        ensures
            r@ == Response::Error(status),
    {
        HandlerResponse::Error { status }
    }

    /// A successful response.
    pub fn ok(body: Vec<u8>) -> (r: HandlerResponse)
        ensures
            r@ == (Response::Data { status: STATUS_SUCCESS, body: body@ }),
    {
        HandlerResponse::Data { status: STATUS_SUCCESS, body }
    }

    /// The status of the response.
    pub fn status(&self) -> (s: u32)
        ensures
            s == match self@ {
                Response::Error(status) => status,
                Response::Data { status, .. } => status,
            },
    {
        match self {
            HandlerResponse::Error { status } => *status,
            HandlerResponse::Data { status, .. } => *status,
        }
    }
}

/// What the wire log records of a request.
#[derive(Debug, Clone, Copy, PartialEq, Eq, Structural)]
pub enum TraceEvent {
    /// The information type and class of a QUERY_INFO request.
    QueryInfo { info_type: u8, info_class: u8 },
}

/// What a well-formed request asks.
#[derive(Debug, Clone, Copy, PartialEq, Eq, Structural)]
pub struct Query {
    pub info_type: InfoType,
    pub info_class: u8,
    pub output_buffer_length: u32,
    pub file_id: FileId,
}

/// What to do once a request has been read.
#[derive(Debug)]
pub enum Begin {
    /// Answer at once.
    Respond(HandlerResponse),
    /// Record `trace`, if there is anything, and look the open file up.
    Lookup { trace: Option<TraceEvent>, query: Query },
}

/// What the lookup of the open file gave.
#[derive(Debug)]
pub enum OpenLookup {
    /// The session or the tree was not found; the status says why.
    NoTree(u32),
    /// The tree has no such open file.
    NotOpen,
    /// The open file has lost its handle.
    NoHandle,
    /// The identifier of the open file, and the file's metadata or the status
    /// of the failure to get them.
    Found { file_id: FileId, info: Result<FileInfo, u32> },
}

/// A request for the list of a file's streams.
#[derive(Debug)]
pub struct StreamQuery {
    pub info: FileInfo,
    pub output_buffer_length: u32,
}

/// A request for the attributes of the file system.
#[derive(Debug, Clone, Copy, PartialEq, Eq, Structural)]
pub struct AttributeQuery {
    pub output_buffer_length: u32,
}

/// What to do once the open file has been looked up.
#[derive(Debug)]
pub enum Resolved {
    /// Answer at once.
    Respond(HandlerResponse),
    /// List the file's streams.
    ListStreams(StreamQuery),
    /// Ask the backend whether it has named streams.
    AskCapabilities(AttributeQuery),
}

/// What the listing of a file's streams gave.
#[derive(Debug)]
pub enum StreamLookup {
    /// The open file has lost its handle.
    NoHandle,
    /// The listing failed with this status.
    Failed(u32),
    /// The named streams; `None` from a backend that lists none.
    Listed(Option<Vec<StreamInfo>>),
}

/// Everything that can be looked up for a request.
#[derive(Debug)]
pub struct Lookups {
    pub open: OpenLookup,
    pub streams: StreamLookup,
    pub supports_named_streams: bool,
}

// What a request is answered.

/// What answers a request, given the open file's metadata.
pub ghost enum Answer {
    /// An error.
    Refuse(u32),
    /// This buffer.
    Buffer(Seq<u8>),
    /// The list of the file's streams.
    Streams(FileInfo),
    /// The attributes of the file system.
    Attributes,
}

/// What answers a request about a file. The volatile part of the open file's
/// identifier serves as the file's index.
pub open spec fn file_answer(info_class: u8, info: FileInfo, file_id: FileId) -> Answer {
    if info_class == FILE_BASIC_INFORMATION {
        Answer::Buffer(crate::info_class::file_basic(info))
    } else if info_class == FILE_STANDARD_INFORMATION {
        Answer::Buffer(crate::info_class::file_standard(info))
    } else if info_class == FILE_INTERNAL_INFORMATION {
        Answer::Buffer(crate::wire::le64(file_id.volatile))
    } else if info_class == FILE_EA_INFORMATION {
        Answer::Buffer(crate::wire::le32(0))
    } else if info_class == FILE_FULL_EA_INFORMATION {
        Answer::Refuse(STATUS_NO_EAS_ON_FILE)
    } else if info_class == FILE_ACCESS_INFORMATION {
        Answer::Buffer(crate::wire::le32(FULL_ACCESS))
    } else if info_class == FILE_POSITION_INFORMATION {
        Answer::Buffer(crate::wire::le64(0))
    } else if info_class == FILE_MODE_INFORMATION {
        Answer::Buffer(crate::wire::le32(0))
    } else if info_class == FILE_ALIGNMENT_INFORMATION {
        Answer::Buffer(crate::wire::le32(0))
    } else if info_class == FILE_NAME_INFORMATION {
        Answer::Buffer(crate::info_class::file_name(info.name@))
    } else if info_class == FILE_ALL_INFORMATION {
        Answer::Buffer(crate::info_class::file_all(info, file_id.volatile, FULL_ACCESS))
    } else if info_class == FILE_NETWORK_OPEN_INFORMATION {
        Answer::Buffer(crate::info_class::file_network_open(info))
    } else if info_class == FILE_STREAM_INFORMATION {
        Answer::Streams(info)
    } else {
        Answer::Refuse(STATUS_INVALID_INFO_CLASS)
    }
}

/// What answers a request about the file system.
pub open spec fn file_system_answer(info_class: u8, creation_time: u64) -> Answer {
    if info_class == FS_VOLUME_INFORMATION {
        Answer::Buffer(
            crate::info_class::fs_volume(creation_time, VOLUME_SERIAL, VOLUME_LABEL@),
        )
    } else if info_class == FS_SIZE_INFORMATION {
        Answer::Buffer(
            crate::info_class::fs_size(
                TOTAL_UNITS,
                FREE_UNITS,
                SECTORS_PER_UNIT,
                BYTES_PER_SECTOR,
            ),
        )
    } else if info_class == FS_DEVICE_INFORMATION {
        Answer::Buffer(crate::info_class::fs_device(FILE_DEVICE_DISK, FILE_REMOTE_DEVICE))
    } else if info_class == FS_ATTRIBUTE_INFORMATION {
        Answer::Attributes
    } else if info_class == FS_FULL_SIZE_INFORMATION {
        Answer::Buffer(
            crate::info_class::fs_full_size(
                TOTAL_UNITS,
                FREE_UNITS,
                FREE_UNITS,
                SECTORS_PER_UNIT,
                BYTES_PER_SECTOR,
            ),
        )
    } else {
        Answer::Refuse(STATUS_INVALID_INFO_CLASS)
    }
}

/// What answers a request, given the open file's identifier and metadata. Only requests
/// about the file itself fail where the metadata could not be had.
pub open spec fn answer(
    info_type: InfoType,
    info_class: u8,
    file_id: FileId,
    info: Result<FileInfo, u32>,
) -> Answer {
    match info_type {
        InfoType::File => match info {
            Err(status) => Answer::Refuse(status),
            Ok(info) => file_answer(info_class, info, file_id),
        },
        InfoType::FileSystem => file_system_answer(
            info_class,
            match info {
                Ok(info) => info.creation_time,
                Err(_) => 0,
            },
        ),
        InfoType::Security => Answer::Buffer(crate::info_class::minimal_security_descriptor()),
        InfoType::Quota => Answer::Refuse(STATUS_NOT_SUPPORTED),
    }
}

/// The response that carries `buffer`, if the client has room for it.
pub open spec fn finished(buffer: Seq<u8>, max: u32, overflow: bool) -> Response {
    if buffer.len() > max {
        Response::Error(STATUS_INFO_LENGTH_MISMATCH)
    } else {
        Response::Data {
            status: if overflow { STATUS_BUFFER_OVERFLOW } else { STATUS_SUCCESS },
            body: crate::messages::query_info_response(buffer),
        }
    }
}

/// The response to a request for a file's streams. A list that the client has
/// no room for is cut down to the whole entries that fit.
pub open spec fn stream_response(info: FileInfo, max: u32, streams: StreamLookup) -> Response {
    match streams {
        StreamLookup::NoHandle => Response::Error(STATUS_FILE_CLOSED),
        StreamLookup::Failed(status) => Response::Error(status),
        StreamLookup::Listed(named) => {
            let full = crate::streams::chain(
                crate::streams::stream_entries(
                    info,
                    match named {
                        Some(v) => Some(v@),
                        None => None,
                    },
                ),
            );
            if full.len() > max {
                match crate::streams::truncated(full, max as int) {
                    Some(partial) => finished(partial, max, true),
                    None => Response::Error(STATUS_INFO_LENGTH_MISMATCH),
                }
            } else {
                finished(full, max, false)
            }
        },
    }
}

/// The attribute flags of the file system. `FILE_NAMED_STREAMS` is among them
/// only where the backend has named streams: a client that is told so in vain
/// writes its extended attributes over the file's own data.
pub open spec fn file_system_attributes(supports_named_streams: bool) -> u32 {
    let common = FILE_CASE_SENSITIVE_SEARCH | FILE_CASE_PRESERVED_NAMES | FILE_UNICODE_ON_DISK
        | FILE_PERSISTENT_ACLS | FILE_FILE_COMPRESSION | FILE_SUPPORTS_HARD_LINKS
        | FILE_SUPPORTS_EXTENDED_ATTRIBUTES;
    if supports_named_streams {
        common | FILE_NAMED_STREAMS
    } else {
        common
    }
}

/// The response to a request for the attributes of the file system.
pub open spec fn attribute_response(max: u32, supports_named_streams: bool) -> Response {
    finished(
        crate::info_class::fs_attribute(
            file_system_attributes(supports_named_streams),
            MAX_FILE_NAME_LEN,
            FILE_SYSTEM_NAME@,
        ),
        max,
        false,
    )
}

/// The response to a well-formed request.
pub open spec fn query_response(query: Query, lookups: Lookups) -> Response {
    match lookups.open {
        OpenLookup::NoTree(status) => Response::Error(status),
        OpenLookup::NotOpen => Response::Error(STATUS_FILE_CLOSED),
        OpenLookup::NoHandle => Response::Error(STATUS_FILE_CLOSED),
        OpenLookup::Found { file_id, info } => match answer(
            query.info_type,
            query.info_class,
            file_id,
            info,
        ) {
            Answer::Refuse(status) => Response::Error(status),
            Answer::Buffer(buffer) => finished(buffer, query.output_buffer_length, false),
            Answer::Streams(info) => stream_response(
                info,
                query.output_buffer_length,
                lookups.streams,
            ),
            Answer::Attributes => attribute_response(
                query.output_buffer_length,
                lookups.supports_named_streams,
            ),
        },
    }
}

/// What the body of a request asks, or the status that refuses it.
pub open spec fn query_of(body: Seq<u8>) -> Result<Query, u32> {
    if body.len() < QUERY_INFO_REQUEST_LEN {
        Err(STATUS_INVALID_PARAMETER)
    } else {
        match crate::messages::info_type_of(body[2]) {
            None => Err(STATUS_INVALID_INFO_CLASS),
            Some(info_type) => Ok(
                Query {
                    info_type,
                    info_class: body[3],
                    output_buffer_length: crate::wire::le32_at(body, 4),
                    file_id: FileId {
                        persistent: crate::wire::le64_at(body, 24),
                        volatile: crate::wire::le64_at(body, 32),
                    },
                },
            ),
        }
    }
}

/// The response to the request in `body`.
pub open spec fn response(body: Seq<u8>, lookups: Lookups) -> Response {
    match query_of(body) {
        Err(status) => Response::Error(status),
        Ok(query) => query_response(query, lookups),
    }
}

/// What the wire log records of the request in `body`.
pub open spec fn trace_of(body: Seq<u8>, tracing: bool) -> Option<TraceEvent> {
    if tracing && query_of(body) is Ok {
        Some(TraceEvent::QueryInfo { info_type: body[2], info_class: body[3] })
    } else {
        None
    }
}

// The steps.

/// Decides on a request that was parsed, or could not be.
pub fn begin_parsed(parsed: Result<QueryInfoRequest, MessageTooShort>, tracing: bool) -> (next:
    Begin)
    ensures
        match parsed {
            Err(_) => next matches Begin::Respond(r) && r@ == Response::Error(
                STATUS_INVALID_PARAMETER,
            ),
            Ok(req) => match crate::messages::info_type_of(req.info_type) {
                None => next matches Begin::Respond(r) && r@ == Response::Error(
                    STATUS_INVALID_INFO_CLASS,
                ),
                Some(info_type) => next == (Begin::Lookup {
                    trace: if tracing {
                        Some(
                            TraceEvent::QueryInfo {
                                info_type: req.info_type,
                                info_class: req.file_information_class,
                            },
                        )
                    } else {
                        None
                    },
                    query: Query {
                        info_type,
                        info_class: req.file_information_class,
                        output_buffer_length: req.output_buffer_length,
                        file_id: req.file_id,
                    },
                }),
            },
        },
{
    let req = match parsed {
        Ok(r) => r,
        Err(_) => return Begin::Respond(HandlerResponse::err(STATUS_INVALID_PARAMETER)),
    };
    let info_type = match req.info_type_enum() {
        Some(t) => t,
        None => return Begin::Respond(HandlerResponse::err(STATUS_INVALID_INFO_CLASS)),
    };
    let trace = if tracing {
        Some(
            TraceEvent::QueryInfo {
                info_type: req.info_type,
                info_class: req.file_information_class,
            },
        )
    } else {
        None
    };
    Begin::Lookup {
        trace,
        query: Query {
            info_type,
            info_class: req.file_information_class,
            output_buffer_length: req.output_buffer_length,
            file_id: req.file_id,
        },
    }
}

/// Reads a request. `tracing` says whether there is a wire log.
pub fn begin(body: &[u8], tracing: bool) -> (next: Begin)
    ensures
        match query_of(body@) {
            Err(status) => next matches Begin::Respond(r) && r@ == Response::Error(status),
            Ok(query) => next == (Begin::Lookup { trace: trace_of(body@, tracing), query }),
        },
{
    begin_parsed(QueryInfoRequest::parse(body), tracing)
}

/// Frames `buffer` as a response, if it is no longer than `max`.
fn finish(buffer: Vec<u8>, max: u32, overflow: bool) -> (r: HandlerResponse)
    ensures
        r@ == finished(buffer@, max, overflow),
{
    if buffer.len() > max as usize {
        return HandlerResponse::err(STATUS_INFO_LENGTH_MISMATCH);
    }
    let resp = QueryInfoResponse {
        structure_size: 9,
        output_buffer_offset: QUERY_INFO_BUFFER_OFFSET,
        output_buffer_length: buffer.len() as u32,
        buffer,
    };
    let mut out: Vec<u8> = Vec::new();
    resp.write_to(&mut out);
    assert(out@ =~= crate::messages::query_info_response(buffer@));
    if overflow {
        HandlerResponse::Data { status: STATUS_BUFFER_OVERFLOW, body: out }
    } else {
        HandlerResponse::ok(out)
    }
}

impl Query {
    /// Decides on what the lookup of the open file gave.
    pub fn resolve(self, open: OpenLookup) -> (next: Resolved)
        ensures
            match open {
                OpenLookup::NoTree(status) => next matches Resolved::Respond(r) && r@
                    == Response::Error(status),
                OpenLookup::NotOpen => next matches Resolved::Respond(r) && r@ == Response::Error(
                    STATUS_FILE_CLOSED,
                ),
                OpenLookup::NoHandle => next matches Resolved::Respond(r) && r@ == Response::Error(
                    STATUS_FILE_CLOSED,
                ),
                OpenLookup::Found { file_id, info } => match answer(
                    self.info_type,
                    self.info_class,
                    file_id,
                    info,
                ) {
                    Answer::Refuse(status) => next matches Resolved::Respond(r) && r@
                        == Response::Error(status),
                    Answer::Buffer(buffer) => next matches Resolved::Respond(r) && r@ == finished(
                        buffer,
                        self.output_buffer_length,
                        false,
                    ),
                    Answer::Streams(info) => next == Resolved::ListStreams(
                        StreamQuery { info, output_buffer_length: self.output_buffer_length },
                    ),
                    Answer::Attributes => next == Resolved::AskCapabilities(
                        AttributeQuery { output_buffer_length: self.output_buffer_length },
                    ),
                },
            },
    {
        match open {
            OpenLookup::NoTree(status) => Resolved::Respond(HandlerResponse::err(status)),
            OpenLookup::NotOpen => Resolved::Respond(HandlerResponse::err(STATUS_FILE_CLOSED)),
            OpenLookup::NoHandle => Resolved::Respond(HandlerResponse::err(STATUS_FILE_CLOSED)),
            OpenLookup::Found { file_id, info } => match self.info_type {
                InfoType::File => match info {
                    Err(status) => Resolved::Respond(HandlerResponse::err(status)),
                    Ok(info) => self.resolve_file(info, file_id),
                },
                InfoType::FileSystem => {
                    let creation_time: u64 = match info {
                        Ok(info) => info.creation_time,
                        Err(_) => 0,
                    };
                    self.resolve_file_system(creation_time)
                },
                InfoType::Security => self.respond(encode_minimal_security_descriptor()),
                InfoType::Quota => Resolved::Respond(HandlerResponse::err(STATUS_NOT_SUPPORTED)),
            },
        }
    }

    fn respond(self, buffer: Vec<u8>) -> (next: Resolved)
        ensures
            next matches Resolved::Respond(r) && r@ == finished(
                buffer@,
                self.output_buffer_length,
                false,
            ),
    {
        Resolved::Respond(finish(buffer, self.output_buffer_length, false))
    }

    fn resolve_file(self, info: FileInfo, file_id: FileId) -> (next: Resolved)
        ensures
            match file_answer(self.info_class, info, file_id) {
                Answer::Refuse(status) => next matches Resolved::Respond(r) && r@
                    == Response::Error(status),
                Answer::Buffer(buffer) => next matches Resolved::Respond(r) && r@ == finished(
                    buffer,
                    self.output_buffer_length,
                    false,
                ),
                Answer::Streams(info) => next == Resolved::ListStreams(
                    StreamQuery { info, output_buffer_length: self.output_buffer_length },
                ),
                Answer::Attributes => false,
            },
    {
        let class: u8 = self.info_class;
        if class == FILE_BASIC_INFORMATION {
            self.respond(encode_file_basic_information(&info))
        } else if class == FILE_STANDARD_INFORMATION {
            self.respond(encode_file_standard_information(&info))
        } else if class == FILE_INTERNAL_INFORMATION {
            self.respond(encode_file_internal_information(file_id.volatile))
        } else if class == FILE_EA_INFORMATION {
            self.respond(encode_file_ea_information())
        } else if class == FILE_FULL_EA_INFORMATION {
            Resolved::Respond(HandlerResponse::err(STATUS_NO_EAS_ON_FILE))
        } else if class == FILE_ACCESS_INFORMATION {
            self.respond(encode_file_access_information(FULL_ACCESS))
        } else if class == FILE_POSITION_INFORMATION {
            self.respond(encode_file_position_information())
        } else if class == FILE_MODE_INFORMATION {
            self.respond(encode_file_mode_information(0))
        } else if class == FILE_ALIGNMENT_INFORMATION {
            self.respond(encode_file_alignment_information())
        } else if class == FILE_NAME_INFORMATION {
            self.respond(encode_file_name_information(info.name.as_str()))
        } else if class == FILE_ALL_INFORMATION {
            self.respond(encode_file_all_information(&info, file_id.volatile, FULL_ACCESS))
        } else if class == FILE_NETWORK_OPEN_INFORMATION {
            self.respond(encode_file_network_open_information(&info))
        } else if class == FILE_STREAM_INFORMATION {
            Resolved::ListStreams(
                StreamQuery { info, output_buffer_length: self.output_buffer_length },
            )
        } else {
            Resolved::Respond(HandlerResponse::err(STATUS_INVALID_INFO_CLASS))
        }
    }

    fn resolve_file_system(self, creation_time: u64) -> (next: Resolved)
        ensures
            match file_system_answer(self.info_class, creation_time) {
                Answer::Refuse(status) => next matches Resolved::Respond(r) && r@
                    == Response::Error(status),
                Answer::Buffer(buffer) => next matches Resolved::Respond(r) && r@ == finished(
                    buffer,
                    self.output_buffer_length,
                    false,
                ),
                Answer::Streams(_) => false,
                Answer::Attributes => next == Resolved::AskCapabilities(
                    AttributeQuery { output_buffer_length: self.output_buffer_length },
                ),
            },
    {
        let class: u8 = self.info_class;
        if class == FS_VOLUME_INFORMATION {
            self.respond(encode_fs_volume_information(creation_time, VOLUME_SERIAL, VOLUME_LABEL))
        } else if class == FS_SIZE_INFORMATION {
            self.respond(
                encode_fs_size_information(
                    TOTAL_UNITS,
                    FREE_UNITS,
                    SECTORS_PER_UNIT,
                    BYTES_PER_SECTOR,
                ),
            )
        } else if class == FS_DEVICE_INFORMATION {
            self.respond(encode_fs_device_information(FILE_DEVICE_DISK, FILE_REMOTE_DEVICE))
        } else if class == FS_ATTRIBUTE_INFORMATION {
            Resolved::AskCapabilities(
                AttributeQuery { output_buffer_length: self.output_buffer_length },
            )
        } else if class == FS_FULL_SIZE_INFORMATION {
            self.respond(
                encode_fs_full_size_information(
                    TOTAL_UNITS,
                    FREE_UNITS,
                    FREE_UNITS,
                    SECTORS_PER_UNIT,
                    BYTES_PER_SECTOR,
                ),
            )
        } else {
            Resolved::Respond(HandlerResponse::err(STATUS_INVALID_INFO_CLASS))
        }
    }
}

impl StreamQuery {
    /// Decides on what the listing of the file's streams gave.
    pub fn answer(self, streams: StreamLookup) -> (r: HandlerResponse)
        ensures
            r@ == stream_response(self.info, self.output_buffer_length, streams),
    {
        let max: u32 = self.output_buffer_length;
        let named = match streams {
            StreamLookup::NoHandle => return HandlerResponse::err(STATUS_FILE_CLOSED),
            StreamLookup::Failed(status) => return HandlerResponse::err(status),
            StreamLookup::Listed(named) => named,
        };
        let full = match &named {
            Some(v) => encode_file_stream_information(&self.info, Some(v.as_slice())),
            None => encode_file_stream_information(&self.info, None),
        };
        if full.len() > max as usize {
            match truncate_file_stream_information(full.as_slice(), max) {
                Some(partial) => finish(partial, max, true),
                None => HandlerResponse::err(STATUS_INFO_LENGTH_MISMATCH),
            }
        } else {
            finish(full, max, false)
        }
    }
}

impl AttributeQuery {
    /// Decides on what the backend says of named streams.
    pub fn answer(self, supports_named_streams: bool) -> (r: HandlerResponse)
        ensures
            r@ == attribute_response(self.output_buffer_length, supports_named_streams),
    {
        let mut attributes: u32 = FILE_CASE_SENSITIVE_SEARCH | FILE_CASE_PRESERVED_NAMES
            | FILE_UNICODE_ON_DISK | FILE_PERSISTENT_ACLS | FILE_FILE_COMPRESSION
            | FILE_SUPPORTS_HARD_LINKS | FILE_SUPPORTS_EXTENDED_ATTRIBUTES;
        if supports_named_streams {
            attributes = attributes | FILE_NAMED_STREAMS;
        }
        finish(
            encode_fs_attribute_information(attributes, MAX_FILE_NAME_LEN, FILE_SYSTEM_NAME),
            self.output_buffer_length,
            false,
        )
    }
}

/// Handles a request for which everything has been looked up; also says what
/// the wire log records.
pub fn handle(body: &[u8], tracing: bool, lookups: Lookups) -> (r: (
    Option<TraceEvent>,
    HandlerResponse,
))
    ensures
        r.0 == trace_of(body@, tracing),
        r.1@ == response(body@, lookups),
{
    match begin(body, tracing) {
        Begin::Respond(response) => (None, response),
        Begin::Lookup { trace, query } => {
            let response = match query.resolve(lookups.open) {
                Resolved::Respond(response) => response,
                Resolved::ListStreams(streams) => streams.answer(lookups.streams),
                Resolved::AskCapabilities(attributes) => attributes.answer(
                    lookups.supports_named_streams,
                ),
            };
            (trace, response)
        },
    }
}

} // verus!

//! QUERY_INFO requests, from their bytes to those of the response.

use smb_server::info_class as ic;
use smb_server::info_class::FileInfo;
use smb_server::messages::{FileId, InfoType, QueryInfoRequest, QueryInfoResponse};
use smb_server::ntstatus;
use smb_server::query_info::{
    begin, handle, AttributeQuery, Begin, HandlerResponse, Lookups, OpenLookup, Query, Resolved,
    StreamLookup, StreamQuery, TraceEvent, FILE_NAMED_STREAMS,
};
use smb_server::streams::StreamInfo;

const FILE: u8 = 1;
const FILE_SYSTEM: u8 = 2;
const SECURITY: u8 = 3;
const QUOTA: u8 = 4;

const OPEN: FileId = FileId { persistent: 1, volatile: 2 };

fn request(info_type: u8, class: u8, output_buffer_length: u32) -> Vec<u8> {
    let req = QueryInfoRequest {
        structure_size: 41,
        info_type,
        file_information_class: class,
        output_buffer_length,
        input_buffer_offset: 0,
        reserved: 0,
        input_buffer_length: 0,
        additional_information: 0,
        flags: 0,
        file_id: OPEN,
        input_buffer: vec![],
    };
    let mut body = Vec::new();
    req.write_to(&mut body);
    body
}

fn file_info() -> FileInfo {
    FileInfo {
        name: "f.txt".to_string(),
        end_of_file: 7,
        allocation_size: 4096,
        creation_time: 0x0102_0304_0506_0708,
        last_access_time: 2,
        last_write_time: 3,
        change_time: 4,
        is_directory: false,
        file_index: 0,
    }
}

fn stream(name: &str, data: &[u8]) -> StreamInfo {
    StreamInfo {
        name: name.to_string(),
        size: data.len() as u64,
        allocation_size: data.len() as u64,
    }
}

fn lookups(streams: Vec<StreamInfo>) -> Lookups {
    Lookups {
        open: OpenLookup::Found { file_id: OPEN, info: Ok(file_info()) },
        streams: StreamLookup::Listed(Some(streams)),
        supports_named_streams: true,
    }
}

fn ask(info_type: u8, class: u8, room: u32, lookups: Lookups) -> HandlerResponse {
    handle(&request(info_type, class, room), false, lookups).1
}

fn body(response: &HandlerResponse) -> &[u8] {
    match response {
        HandlerResponse::Data { body, .. } => body,
        HandlerResponse::Error { status } => panic!("status {status:#x}"),
    }
}

/// The buffer that a request is answered with.
fn buffer(info_type: u8, class: u8) -> Vec<u8> {
    let response = ask(info_type, class, 4096, lookups(vec![]));
    assert_eq!(response.status(), ntstatus::STATUS_SUCCESS);
    let parsed = QueryInfoResponse::parse(body(&response)).unwrap();
    assert_eq!(parsed.structure_size, 9);
    assert_eq!(parsed.output_buffer_offset, 72);
    assert_eq!(parsed.output_buffer_length as usize, parsed.buffer.len());
    parsed.buffer
}

/// Decodes the names of an encoded chain of streams.
fn stream_names(buf: &[u8]) -> Vec<String> {
    let mut names = Vec::new();
    let mut offset = 0usize;
    while offset + 24 <= buf.len() {
        let next = u32::from_le_bytes(buf[offset..offset + 4].try_into().unwrap());
        let name_len = u32::from_le_bytes(buf[offset + 4..offset + 8].try_into().unwrap()) as usize;
        let units: Vec<u16> = buf[offset + 24..offset + 24 + name_len]
            .chunks_exact(2)
            .map(|c| u16::from_le_bytes([c[0], c[1]]))
            .collect();
        names.push(String::from_utf16(&units).unwrap());
        if next == 0 {
            break;
        }
        offset += next as usize;
    }
    names
}

#[test]
fn fs_attribute_information_advertises_named_streams_when_the_backend_supports_them() {
    let response = ask(FILE_SYSTEM, ic::FS_ATTRIBUTE_INFORMATION, 4096, lookups(vec![]));
    assert_eq!(response.status(), ntstatus::STATUS_SUCCESS);
    let parsed = QueryInfoResponse::parse(body(&response)).unwrap();
    let attrs = u32::from_le_bytes(parsed.buffer[0..4].try_into().unwrap());
    assert_ne!(attrs & FILE_NAMED_STREAMS, 0);
    assert_eq!(attrs, 0x00C4_001F);
}

#[test]
fn fs_attribute_information_hides_named_streams_that_the_backend_lacks() {
    let mut facts = lookups(vec![]);
    facts.supports_named_streams = false;
    let response = ask(FILE_SYSTEM, ic::FS_ATTRIBUTE_INFORMATION, 4096, facts);
    let parsed = QueryInfoResponse::parse(body(&response)).unwrap();
    let attrs = u32::from_le_bytes(parsed.buffer[0..4].try_into().unwrap());
    assert_eq!(attrs & FILE_NAMED_STREAMS, 0);
    assert_eq!(attrs, 0x00C0_001F);
    assert_eq!(&parsed.buffer[4..12], &[255, 0, 0, 0, 8, 0, 0, 0]);
    assert_eq!(&parsed.buffer[12..], b"N\0T\0F\0S\0");
}

#[test]
fn query_info_records_its_information_type_and_class() {
    let request = request(FILE_SYSTEM, ic::FS_ATTRIBUTE_INFORMATION, 4096);
    let (trace, response) = handle(&request, true, lookups(vec![]));
    assert_eq!(response.status(), ntstatus::STATUS_SUCCESS);
    let event = format!("{:?}", trace.unwrap());
    assert!(
        event.contains("QueryInfo")
            && event.contains("info_type: 2")
            && event.contains("info_class: 5"),
        "the QUERY_INFO type and class must be recorded: {event}"
    );
    assert_eq!(handle(&request, false, lookups(vec![])).0, None);
}

#[test]
fn refused_requests_are_not_recorded() {
    assert_eq!(handle(&request(9, 5, 4096), true, lookups(vec![])).0, None);
    assert_eq!(handle(&[0u8; 39], true, lookups(vec![])).0, None);
    let mut facts = lookups(vec![]);
    facts.open = OpenLookup::NotOpen;
    assert_eq!(
        handle(&request(FILE, 200, 4096), true, facts).0,
        Some(TraceEvent::QueryInfo { info_type: 1, info_class: 200 })
    );
}

#[test]
fn stream_information_lists_named_streams_through_the_handler() {
    let facts = lookups(vec![stream("AFP_AfpInfo", b"finder info blob")]);
    let response = ask(FILE, ic::FILE_STREAM_INFORMATION, 4096, facts);
    assert_eq!(response.status(), ntstatus::STATUS_SUCCESS);
    let parsed = QueryInfoResponse::parse(body(&response)).unwrap();
    assert_eq!(stream_names(&parsed.buffer), vec!["::$DATA", ":AFP_AfpInfo:$DATA"]);
}

#[test]
fn stream_information_overflow_returns_a_terminated_partial_chain() {
    let facts = lookups(vec![stream("aaa", b"A"), stream("bbb", b"BB"), stream("ccc", b"CCC")]);
    // The primary entry is 38 bytes; each `:xxx:$DATA` entry is 44 bytes
    // padded to 48. A 96-byte buffer fits the primary and one stream.
    let response = ask(FILE, ic::FILE_STREAM_INFORMATION, 96, facts);
    assert_eq!(
        response.status(),
        ntstatus::STATUS_BUFFER_OVERFLOW,
        "a truncated stream chain must be reported as BUFFER_OVERFLOW, not rejected"
    );
    let parsed = QueryInfoResponse::parse(body(&response)).unwrap();
    assert!(parsed.output_buffer_length <= 96);
    let names = stream_names(&parsed.buffer);
    assert_eq!(names[0], "::$DATA", "the primary entry must come first");
    assert_eq!(names.len(), 2, "primary plus one whole named entry");
    assert_eq!(&parsed.buffer[40..44], &[0, 0, 0, 0]);
}

#[test]
fn stream_information_too_small_for_the_primary_is_length_mismatch() {
    let response = ask(FILE, ic::FILE_STREAM_INFORMATION, 10, lookups(vec![]));
    assert_eq!(response.status(), ntstatus::STATUS_INFO_LENGTH_MISMATCH);
    let response = ask(FILE, ic::FILE_STREAM_INFORMATION, 37, lookups(vec![stream("a", b"")]));
    assert_eq!(response.status(), ntstatus::STATUS_INFO_LENGTH_MISMATCH);
    let response = ask(FILE, ic::FILE_STREAM_INFORMATION, 38, lookups(vec![stream("a", b"")]));
    assert_eq!(response.status(), ntstatus::STATUS_BUFFER_OVERFLOW);
    let response = ask(FILE, ic::FILE_STREAM_INFORMATION, 38, lookups(vec![]));
    assert_eq!(response.status(), ntstatus::STATUS_SUCCESS);
}

#[test]
fn streams_that_cannot_be_listed() {
    let mut facts = lookups(vec![]);
    facts.streams = StreamLookup::NoHandle;
    let response = ask(FILE, ic::FILE_STREAM_INFORMATION, 4096, facts);
    assert_eq!(response.status(), ntstatus::STATUS_FILE_CLOSED);
    let mut facts = lookups(vec![]);
    facts.streams = StreamLookup::Failed(0xC000_0022);
    let response = ask(FILE, ic::FILE_STREAM_INFORMATION, 4096, facts);
    assert_eq!(response.status(), 0xC000_0022);
    let mut facts = lookups(vec![]);
    facts.streams = StreamLookup::Listed(None);
    let response = ask(FILE, ic::FILE_STREAM_INFORMATION, 4096, facts);
    let parsed = QueryInfoResponse::parse(body(&response)).unwrap();
    assert_eq!(stream_names(&parsed.buffer), vec!["::$DATA"]);
    assert_eq!(&parsed.buffer[..8], &[0, 0, 0, 0, 14, 0, 0, 0]);
    assert_eq!(&parsed.buffer[8..24], &[7, 0, 0, 0, 0, 0, 0, 0, 0, 16, 0, 0, 0, 0, 0, 0]);
}

#[test]
fn each_refusal_has_its_status() {
    let short = handle(&[0u8; 39], false, lookups(vec![])).1;
    assert_eq!(short.status(), ntstatus::STATUS_INVALID_PARAMETER);
    for info_type in [0u8, 5, 255] {
        let response = ask(info_type, 4, 4096, lookups(vec![]));
        assert_eq!(response.status(), ntstatus::STATUS_INVALID_INFO_CLASS);
    }
    let mut facts = lookups(vec![]);
    facts.open = OpenLookup::NoTree(0xC000_00C9);
    assert_eq!(ask(FILE, 4, 4096, facts).status(), 0xC000_00C9);
    let mut facts = lookups(vec![]);
    facts.open = OpenLookup::NotOpen;
    assert_eq!(ask(FILE, 4, 4096, facts).status(), ntstatus::STATUS_FILE_CLOSED);
    let mut facts = lookups(vec![]);
    facts.open = OpenLookup::NoHandle;
    assert_eq!(ask(FILE, 4, 4096, facts).status(), ntstatus::STATUS_FILE_CLOSED);
    let response = ask(FILE, ic::FILE_FULL_EA_INFORMATION, 4096, lookups(vec![]));
    assert_eq!(response.status(), ntstatus::STATUS_NO_EAS_ON_FILE);
    let response = ask(FILE, 99, 4096, lookups(vec![]));
    assert_eq!(response.status(), ntstatus::STATUS_INVALID_INFO_CLASS);
    let response = ask(FILE_SYSTEM, 2, 4096, lookups(vec![]));
    assert_eq!(response.status(), ntstatus::STATUS_INVALID_INFO_CLASS);
    let response = ask(QUOTA, 0, 4096, lookups(vec![]));
    assert_eq!(response.status(), ntstatus::STATUS_NOT_SUPPORTED);
    let response = ask(FILE, ic::FILE_BASIC_INFORMATION, 39, lookups(vec![]));
    assert_eq!(response.status(), ntstatus::STATUS_INFO_LENGTH_MISMATCH);
    let response = ask(FILE, ic::FILE_BASIC_INFORMATION, 40, lookups(vec![]));
    assert_eq!(response.status(), ntstatus::STATUS_SUCCESS);
}

#[test]
fn missing_metadata_fail_only_requests_about_the_file() {
    let failed = || {
        let mut facts = lookups(vec![]);
        facts.open = OpenLookup::Found { file_id: OPEN, info: Err(0xC000_0022) };
        facts
    };
    assert_eq!(ask(FILE, ic::FILE_BASIC_INFORMATION, 4096, failed()).status(), 0xC000_0022);
    assert_eq!(ask(FILE, 99, 4096, failed()).status(), 0xC000_0022);
    let volume = ask(FILE_SYSTEM, ic::FS_VOLUME_INFORMATION, 4096, failed());
    assert_eq!(&body(&volume)[8..16], &[0u8; 8]);
    let security = ask(SECURITY, 0, 4096, failed());
    assert_eq!(security.status(), ntstatus::STATUS_SUCCESS);
}

#[test]
fn file_structures() {
    let times = [
        8u8, 7, 6, 5, 4, 3, 2, 1, 2, 0, 0, 0, 0, 0, 0, 0, 3, 0, 0, 0, 0, 0, 0, 0, 4, 0, 0, 0, 0, 0,
        0, 0,
    ];
    let basic = buffer(FILE, ic::FILE_BASIC_INFORMATION);
    assert_eq!(&basic[..32], &times);
    assert_eq!(&basic[32..], &[0x80, 0, 0, 0, 0, 0, 0, 0]);

    let standard = buffer(FILE, ic::FILE_STANDARD_INFORMATION);
    assert_eq!(
        standard,
        vec![0, 16, 0, 0, 0, 0, 0, 0, 7, 0, 0, 0, 0, 0, 0, 0, 1, 0, 0, 0, 0, 0, 0, 0]
    );
    let internal = buffer(FILE, ic::FILE_INTERNAL_INFORMATION);
    assert_eq!(internal, vec![2, 0, 0, 0, 0, 0, 0, 0]);
    assert_eq!(buffer(FILE, ic::FILE_EA_INFORMATION), vec![0; 4]);
    let access = buffer(FILE, ic::FILE_ACCESS_INFORMATION);
    assert_eq!(access, vec![0xFF, 0x01, 0x1F, 0x00]);
    assert_eq!(buffer(FILE, ic::FILE_POSITION_INFORMATION), vec![0; 8]);
    assert_eq!(buffer(FILE, ic::FILE_MODE_INFORMATION), vec![0; 4]);
    assert_eq!(buffer(FILE, ic::FILE_ALIGNMENT_INFORMATION), vec![0; 4]);
    let name = buffer(FILE, ic::FILE_NAME_INFORMATION);
    assert_eq!(name, b"\x0A\0\0\0f\0.\0t\0x\0t\0");

    let mut all = basic.clone();
    all.extend_from_slice(&standard);
    all.extend_from_slice(&internal);
    all.extend_from_slice(&[0; 4]);
    all.extend_from_slice(&access);
    all.extend_from_slice(&[0; 16]);
    all.extend_from_slice(&name);
    assert_eq!(buffer(FILE, ic::FILE_ALL_INFORMATION), all);

    let open = buffer(FILE, ic::FILE_NETWORK_OPEN_INFORMATION);
    assert_eq!(&open[..32], &times);
    assert_eq!(&open[32..48], &standard[..16]);
    assert_eq!(&open[48..], &[0x80, 0, 0, 0, 0, 0, 0, 0]);
}

#[test]
fn directories_are_marked() {
    let mut info = file_info();
    info.is_directory = true;
    assert_eq!(ic::encode_file_basic_information(&info)[32], 0x10);
    assert_eq!(ic::encode_file_standard_information(&info)[21], 1);
}

#[test]
fn names_outside_the_basic_plane_take_surrogates() {
    assert_eq!(
        ic::encode_file_name_information("\u{e9}\u{1F600}"),
        vec![6, 0, 0, 0, 0xE9, 0x00, 0x3D, 0xD8, 0x00, 0xDE]
    );
}

#[test]
fn file_system_structures() {
    let volume = buffer(FILE_SYSTEM, ic::FS_VOLUME_INFORMATION);
    assert_eq!(&volume[..8], &[8, 7, 6, 5, 4, 3, 2, 1]);
    assert_eq!(&volume[8..18], &[0xBE, 0xBA, 0xFE, 0xCA, 20, 0, 0, 0, 0, 0]);
    assert_eq!(&volume[18..], b"s\0m\0b\0-\0s\0e\0r\0v\0e\0r\0");

    let size = buffer(FILE_SYSTEM, ic::FS_SIZE_INFORMATION);
    let mut expected = Vec::new();
    expected.extend_from_slice(&(1u64 << 40).to_le_bytes());
    expected.extend_from_slice(&(1u64 << 39).to_le_bytes());
    expected.extend_from_slice(&1u32.to_le_bytes());
    expected.extend_from_slice(&4096u32.to_le_bytes());
    assert_eq!(size, expected);

    let full = buffer(FILE_SYSTEM, ic::FS_FULL_SIZE_INFORMATION);
    assert_eq!(&full[..16], &size[..16]);
    assert_eq!(&full[16..], &size[8..]);

    let device = buffer(FILE_SYSTEM, ic::FS_DEVICE_INFORMATION);
    assert_eq!(device, vec![7, 0, 0, 0, 0x10, 0, 0, 0]);
}

#[test]
fn the_security_descriptor_is_empty_and_self_relative() {
    let mut expected = vec![1u8, 0, 0x00, 0x80];
    expected.extend_from_slice(&[0; 16]);
    assert_eq!(buffer(SECURITY, 0), expected);
}

#[test]
fn a_response_on_the_wire() {
    let response = ask(FILE, ic::FILE_EA_INFORMATION, 4, lookups(vec![]));
    assert_eq!(body(&response), &[9, 0, 72, 0, 4, 0, 0, 0, 0, 0, 0, 0]);
}

#[test]
fn requests_are_parsed_field_by_field() {
    let mut bytes: Vec<u8> = (0..40).collect();
    bytes.extend_from_slice(&[0xAA, 0xBB]);
    let req = QueryInfoRequest::parse(&bytes).unwrap();
    assert_eq!(req.structure_size, 0x0100);
    assert_eq!(req.info_type, 2);
    assert_eq!(req.file_information_class, 3);
    assert_eq!(req.output_buffer_length, 0x0706_0504);
    assert_eq!(req.input_buffer_offset, 0x0908);
    assert_eq!(req.reserved, 0x0B0A);
    assert_eq!(req.input_buffer_length, 0x0F0E_0D0C);
    assert_eq!(req.additional_information, 0x1312_1110);
    assert_eq!(req.flags, 0x1716_1514);
    assert_eq!(req.file_id.persistent, 0x1F1E_1D1C_1B1A_1918);
    assert_eq!(req.file_id.volatile, 0x2726_2524_2322_2120);
    assert_eq!(req.input_buffer, vec![0xAA, 0xBB]);
    assert_eq!(req.info_type_enum(), Some(InfoType::FileSystem));
    let mut out = Vec::new();
    req.write_to(&mut out);
    assert_eq!(out, bytes);
    assert!(QueryInfoRequest::parse(&bytes[..39]).is_err());
    assert!(QueryInfoResponse::parse(&bytes[..7]).is_err());
}

#[test]
fn the_steps_ask_only_for_what_they_need() {
    let query = match begin(&request(FILE, ic::FILE_STREAM_INFORMATION, 96), true) {
        Begin::Lookup { trace, query } => {
            assert_eq!(trace, Some(TraceEvent::QueryInfo { info_type: 1, info_class: 22 }));
            assert_eq!(query.file_id, FileId { persistent: 1, volatile: 2 });
            query
        }
        Begin::Respond(r) => panic!("status {:#x}", r.status()),
    };
    let found = || OpenLookup::Found { file_id: OPEN, info: Ok(file_info()) };
    match query.resolve(found()) {
        Resolved::ListStreams(StreamQuery { info, output_buffer_length }) => {
            assert_eq!(info.name, "f.txt");
            assert_eq!(output_buffer_length, 96);
        }
        _ => panic!("the streams are needed"),
    }
    let attributes = Query {
        info_type: InfoType::FileSystem,
        info_class: ic::FS_ATTRIBUTE_INFORMATION,
        ..query
    };
    assert!(matches!(
        attributes.resolve(found()),
        Resolved::AskCapabilities(AttributeQuery { output_buffer_length: 96 })
    ));
    assert!(matches!(begin(&[], true), Begin::Respond(_)));
}

#[test]
fn a_structure_is_answered_whole_from_its_own_length_on() {
    for (info_type, class) in [
        (FILE, ic::FILE_BASIC_INFORMATION),
        (FILE, ic::FILE_STANDARD_INFORMATION),
        (FILE_SYSTEM, ic::FS_ATTRIBUTE_INFORMATION),
        (SECURITY, 0),
    ] {
        let whole = buffer(info_type, class);
        let len = whole.len() as u32;
        let short = ask(info_type, class, len - 1, lookups(vec![]));
        assert_eq!(short.status(), ntstatus::STATUS_INFO_LENGTH_MISMATCH);
        for room in [len, len + 1, u32::MAX] {
            let response = ask(info_type, class, room, lookups(vec![]));
            assert_eq!(response.status(), ntstatus::STATUS_SUCCESS);
            assert_eq!(QueryInfoResponse::parse(body(&response)).unwrap().buffer, whole);
        }
    }
    assert_eq!(buffer(FILE_SYSTEM, ic::FS_ATTRIBUTE_INFORMATION).len(), 20);
}

#[test]
fn the_stream_list_grows_with_the_room() {
    // The whole entries end after 38, 84 and 132 bytes.
    for (room, listed) in [(38, 1), (83, 1), (84, 2), (131, 2), (132, 3), (u32::MAX, 3)] {
        let facts = lookups(vec![stream("aaa", b"A"), stream("bbb", b"BB")]);
        let response = ask(FILE, ic::FILE_STREAM_INFORMATION, room, facts);
        let expected = if listed == 3 {
            ntstatus::STATUS_SUCCESS
        } else {
            ntstatus::STATUS_BUFFER_OVERFLOW
        };
        assert_eq!(response.status(), expected, "room {room}");
        let parsed = QueryInfoResponse::parse(body(&response)).unwrap();
        assert_eq!(stream_names(&parsed.buffer).len(), listed, "room {room}");
    }
}

#[test]
fn the_volatile_part_of_the_identifier_is_the_file_index() {
    for (class, at) in [(ic::FILE_INTERNAL_INFORMATION, 0), (ic::FILE_ALL_INFORMATION, 64)] {
        let mut facts = lookups(vec![]);
        facts.open = OpenLookup::Found {
            file_id: FileId { persistent: 0x1111, volatile: 0x0102_0304_0506_0708 },
            info: Ok(file_info()),
        };
        let response = ask(FILE, class, 4096, facts);
        let parsed = QueryInfoResponse::parse(body(&response)).unwrap();
        assert_eq!(&parsed.buffer[at..at + 8], &[8, 7, 6, 5, 4, 3, 2, 1]);
    }
}

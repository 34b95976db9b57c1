//! The QUERY_INFO messages.

use vstd::prelude::*;

use crate::wire::{push_u16, push_u32, read_u16, read_u32, read_u64};

verus! {

/// The identifier of an open file.
#[derive(Debug, Clone, Copy, PartialEq, Eq, Structural)]
pub struct FileId {
    pub persistent: u64,
    pub volatile: u64,
}

/// What a QUERY_INFO request asks about.
#[derive(Debug, Clone, Copy, PartialEq, Eq, Structural)]
pub enum InfoType {
    File,
    FileSystem,
    Security,
    Quota,
}

/// Length of the part of a QUERY_INFO request in front of its input buffer.
pub const QUERY_INFO_REQUEST_LEN: usize = 40;

/// Length of the part of a QUERY_INFO response in front of its buffer.
pub const QUERY_INFO_RESPONSE_LEN: usize = 8;

/// Offset of the buffer of a QUERY_INFO response, from the message header on:
/// 64 bytes of message header and 8 bytes of response come first.
pub const QUERY_INFO_BUFFER_OFFSET: u16 = 72;

/// A QUERY_INFO request.
#[derive(Debug, Clone)]
pub struct QueryInfoRequest {
    pub structure_size: u16,
    pub info_type: u8,
    pub file_information_class: u8,
    pub output_buffer_length: u32,
    pub input_buffer_offset: u16,
    pub reserved: u16,
    pub input_buffer_length: u32,
    pub additional_information: u32,
    pub flags: u32,
    pub file_id: FileId,
    pub input_buffer: Vec<u8>,
}

/// A message that is shorter than its fixed part.
#[derive(Debug, Clone, Copy, PartialEq, Eq, Structural)]
pub struct MessageTooShort;

/// The kind of information that an `InfoType` code asks for.
pub open spec fn info_type_of(code: u8) -> Option<InfoType> {
    if code == 1 {
        Some(InfoType::File)
    } else if code == 2 {
        Some(InfoType::FileSystem)
    } else if code == 3 {
        Some(InfoType::Security)
    } else if code == 4 {
        Some(InfoType::Quota)
    } else {
        None
    }
}

impl QueryInfoRequest {
    /// Whether `body` lays this request out.
    pub open spec fn is_laid_out_in(&self, body: Seq<u8>) -> bool {
        &&& body.len() >= QUERY_INFO_REQUEST_LEN
        &&& self.structure_size == crate::wire::le16_at(body, 0)
        &&& self.info_type == body[2]
        &&& self.file_information_class == body[3]
        &&& self.output_buffer_length == crate::wire::le32_at(body, 4)
        &&& self.input_buffer_offset == crate::wire::le16_at(body, 8)
        &&& self.reserved == crate::wire::le16_at(body, 10)
        &&& self.input_buffer_length == crate::wire::le32_at(body, 12)
        &&& self.additional_information == crate::wire::le32_at(body, 16)
        &&& self.flags == crate::wire::le32_at(body, 20)
        &&& self.file_id.persistent == crate::wire::le64_at(body, 24)
        &&& self.file_id.volatile == crate::wire::le64_at(body, 32)
        &&& self.input_buffer@ == body.skip(QUERY_INFO_REQUEST_LEN as int)
    }

    /// The bytes of this request.
    pub open spec fn encoded(&self) -> Seq<u8> {
        crate::wire::le16(self.structure_size) + seq![self.info_type, self.file_information_class]
            + crate::wire::le32(self.output_buffer_length) + crate::wire::le16(
            self.input_buffer_offset,
        ) + crate::wire::le16(self.reserved) + crate::wire::le32(self.input_buffer_length)
            + crate::wire::le32(self.additional_information) + crate::wire::le32(self.flags)
            + crate::wire::le64(self.file_id.persistent) + crate::wire::le64(self.file_id.volatile)
            + self.input_buffer@
    }

    /// Parses the body of a request; the input buffer is all that follows the
    /// fixed part.
    pub fn parse(body: &[u8]) -> (r: Result<QueryInfoRequest, MessageTooShort>)
        ensures
            r is Ok <==> body@.len() >= QUERY_INFO_REQUEST_LEN,
            r matches Ok(req) ==> req.is_laid_out_in(body@),
    {
        if body.len() < QUERY_INFO_REQUEST_LEN {
            return Err(MessageTooShort);
        }
        Ok(
            QueryInfoRequest {
                structure_size: read_u16(body, 0),
                info_type: body[2],
                file_information_class: body[3],
                output_buffer_length: read_u32(body, 4),
                input_buffer_offset: read_u16(body, 8),
                reserved: read_u16(body, 10),
                input_buffer_length: read_u32(body, 12),
                additional_information: read_u32(body, 16),
                flags: read_u32(body, 20),
                file_id: FileId { persistent: read_u64(body, 24), volatile: read_u64(body, 32) },
                input_buffer: vstd::slice::slice_to_vec(
                    vstd::slice::slice_subrange(body, QUERY_INFO_REQUEST_LEN, body.len()),
                ),
            },
        )
    }

    /// Appends this request's bytes to `out`.
    pub fn write_to(&self, out: &mut Vec<u8>)
        ensures
            final(out)@ == old(out)@ + self.encoded(),
    {
        push_u16(out, self.structure_size);
        out.push(self.info_type);
        out.push(self.file_information_class);
        push_u32(out, self.output_buffer_length);
        push_u16(out, self.input_buffer_offset);
        push_u16(out, self.reserved);
        push_u32(out, self.input_buffer_length);
        push_u32(out, self.additional_information);
        push_u32(out, self.flags);
        crate::wire::push_u64(out, self.file_id.persistent);
        crate::wire::push_u64(out, self.file_id.volatile);
        out.extend_from_slice(self.input_buffer.as_slice());
        assert(out@ =~= old(out)@ + self.encoded());
    }

    /// The kind of information asked for, if the code is one of the four.
    pub fn info_type_enum(&self) -> (t: Option<InfoType>)
        ensures
            t == info_type_of(self.info_type),
    {
        if self.info_type == 1 {
            Some(InfoType::File)
        } else if self.info_type == 2 {
            Some(InfoType::FileSystem)
        } else if self.info_type == 3 {
            Some(InfoType::Security)
        } else if self.info_type == 4 {
            Some(InfoType::Quota)
        } else {
            None
        }
    }
}

/// A QUERY_INFO response.
#[derive(Debug, Clone)]
pub struct QueryInfoResponse {
    pub structure_size: u16,
    pub output_buffer_offset: u16,
    pub output_buffer_length: u32,
    pub buffer: Vec<u8>,
}

/// The bytes of a QUERY_INFO response that carries `buffer`.
pub open spec fn query_info_response(buffer: Seq<u8>) -> Seq<u8> {
    crate::wire::le16(9) + crate::wire::le16(QUERY_INFO_BUFFER_OFFSET) + crate::wire::le32(
        buffer.len() as u32,
    ) + buffer
}

impl QueryInfoResponse {
    /// The bytes of this response.
    pub open spec fn encoded(&self) -> Seq<u8> {
        crate::wire::le16(self.structure_size) + crate::wire::le16(self.output_buffer_offset)
            + crate::wire::le32(self.output_buffer_length) + self.buffer@
    }

    /// Whether `body` lays this response out.
    pub open spec fn is_laid_out_in(&self, body: Seq<u8>) -> bool {
        &&& body.len() >= QUERY_INFO_RESPONSE_LEN
        &&& self.structure_size == crate::wire::le16_at(body, 0)
        &&& self.output_buffer_offset == crate::wire::le16_at(body, 2)
        &&& self.output_buffer_length == crate::wire::le32_at(body, 4)
        &&& self.buffer@ == body.skip(QUERY_INFO_RESPONSE_LEN as int)
    }

    /// Parses the body of a response; the buffer is all that follows the
    /// fixed part.
    pub fn parse(body: &[u8]) -> (r: Result<QueryInfoResponse, MessageTooShort>)
        ensures
            r is Ok <==> body@.len() >= QUERY_INFO_RESPONSE_LEN,
            r matches Ok(resp) ==> resp.is_laid_out_in(body@),
    {
        if body.len() < QUERY_INFO_RESPONSE_LEN {
            return Err(MessageTooShort);
        }
        Ok(
            QueryInfoResponse {
                structure_size: read_u16(body, 0),
                output_buffer_offset: read_u16(body, 2),
                output_buffer_length: read_u32(body, 4),
                buffer: vstd::slice::slice_to_vec(
                    vstd::slice::slice_subrange(body, QUERY_INFO_RESPONSE_LEN, body.len()),
                ),
            },
        )
    }

    /// Appends this response's bytes to `out`.
    pub fn write_to(&self, out: &mut Vec<u8>)
        ensures
            final(out)@ == old(out)@ + self.encoded(),
    {
        push_u16(out, self.structure_size);
        push_u16(out, self.output_buffer_offset);
        push_u32(out, self.output_buffer_length);
        out.extend_from_slice(self.buffer.as_slice());
        assert(out@ =~= old(out)@ + self.encoded());
    }
}

/// A request that was written is read back, field by field.
#[verifier::spinoff_prover]
#[verifier::rlimit(60)]
pub proof fn law_request_reads_back(req: QueryInfoRequest)
    ensures
        req.is_laid_out_in(req.encoded()),
{
    let s = req.encoded();
    assert(s.subrange(0, 2) =~= crate::wire::le16(req.structure_size));
    crate::wire::le16_reads_back(req.structure_size, s, 0);
    assert(s.subrange(4, 8) =~= crate::wire::le32(req.output_buffer_length));
    crate::wire::le32_reads_back(req.output_buffer_length, s, 4);
    assert(s.subrange(8, 10) =~= crate::wire::le16(req.input_buffer_offset));
    crate::wire::le16_reads_back(req.input_buffer_offset, s, 8);
    assert(s.subrange(10, 12) =~= crate::wire::le16(req.reserved));
    crate::wire::le16_reads_back(req.reserved, s, 10);
    assert(s.subrange(12, 16) =~= crate::wire::le32(req.input_buffer_length));
    crate::wire::le32_reads_back(req.input_buffer_length, s, 12);
    assert(s.subrange(16, 20) =~= crate::wire::le32(req.additional_information));
    crate::wire::le32_reads_back(req.additional_information, s, 16);
    assert(s.subrange(20, 24) =~= crate::wire::le32(req.flags));
    crate::wire::le32_reads_back(req.flags, s, 20);
    assert(s.subrange(24, 32) =~= crate::wire::le64(req.file_id.persistent));
    crate::wire::le64_reads_back(req.file_id.persistent, s, 24);
    assert(s.subrange(32, 40) =~= crate::wire::le64(req.file_id.volatile));
    crate::wire::le64_reads_back(req.file_id.volatile, s, 32);
    assert(s.skip(40) =~= req.input_buffer@);
}

/// A response that was written is read back, field by field.
#[verifier::spinoff_prover]
#[verifier::rlimit(60)]
pub proof fn law_response_reads_back(resp: QueryInfoResponse)
    ensures
        resp.is_laid_out_in(resp.encoded()),
{
    let s = resp.encoded();
    assert(s.subrange(0, 2) =~= crate::wire::le16(resp.structure_size));
    crate::wire::le16_reads_back(resp.structure_size, s, 0);
    assert(s.subrange(2, 4) =~= crate::wire::le16(resp.output_buffer_offset));
    crate::wire::le16_reads_back(resp.output_buffer_offset, s, 2);
    assert(s.subrange(4, 8) =~= crate::wire::le32(resp.output_buffer_length));
    crate::wire::le32_reads_back(resp.output_buffer_length, s, 4);
    assert(s.skip(8) =~= resp.buffer@);
}

/// Where a request's fields stand in its body. A body of fewer than 40 bytes is
/// no request; any other is one.
pub proof fn law_requests_as_parsed(body: &[u8], r: Result<QueryInfoRequest, MessageTooShort>)
    requires
        call_ensures(QueryInfoRequest::parse, (body,), r),
    ensures
        r is Ok <==> body@.len() >= 40,
        r matches Ok(req) ==> {
            &&& req.structure_size == crate::wire::le16_at(body@, 0)
            &&& req.output_buffer_length == crate::wire::le32_at(body@, 4)
            &&& req.input_buffer_offset == crate::wire::le16_at(body@, 8)
            &&& req.reserved == crate::wire::le16_at(body@, 10)
            &&& req.input_buffer_length == crate::wire::le32_at(body@, 12)
            &&& req.additional_information == crate::wire::le32_at(body@, 16)
            &&& req.flags == crate::wire::le32_at(body@, 20)
            &&& req.file_id.persistent == crate::wire::le64_at(body@, 24)
            &&& req.file_id.volatile == crate::wire::le64_at(body@, 32)
            &&& req.info_type == body@[2]
            &&& req.file_information_class == body@[3]
            &&& req.input_buffer@ == body@.skip(40)
        },
{
}

/// Where a request's fields are written.
pub proof fn law_requests_as_written(req: QueryInfoRequest)
    ensures
        ({
            let body = req.encoded();
            &&& body.len() == 40 + req.input_buffer@.len()
            &&& req.structure_size == crate::wire::le16_at(body, 0)
            &&& req.output_buffer_length == crate::wire::le32_at(body, 4)
            &&& req.input_buffer_offset == crate::wire::le16_at(body, 8)
            &&& req.reserved == crate::wire::le16_at(body, 10)
            &&& req.input_buffer_length == crate::wire::le32_at(body, 12)
            &&& req.additional_information == crate::wire::le32_at(body, 16)
            &&& req.flags == crate::wire::le32_at(body, 20)
            &&& req.file_id.persistent == crate::wire::le64_at(body, 24)
            &&& req.file_id.volatile == crate::wire::le64_at(body, 32)
            &&& req.info_type == body[2]
            &&& req.file_information_class == body[3]
            &&& req.input_buffer@ == body.skip(40)
        }),
{
    law_request_reads_back(req);
}

/// What the four codes of an information type stand for; no other code stands
/// for one.
pub proof fn law_information_types(req: QueryInfoRequest, t: Option<InfoType>)
    requires
        call_ensures(QueryInfoRequest::info_type_enum, (&req,), t),
    ensures
        t == Some(InfoType::File) <==> req.info_type == 1,
        t == Some(InfoType::FileSystem) <==> req.info_type == 2,
        t == Some(InfoType::Security) <==> req.info_type == 3,
        t == Some(InfoType::Quota) <==> req.info_type == 4,
{
}

/// Where a response's fields stand in its body. A body of fewer than 8 bytes is
/// no response; any other is one.
pub proof fn law_responses_as_parsed(body: &[u8], r: Result<QueryInfoResponse, MessageTooShort>)
    requires
        call_ensures(QueryInfoResponse::parse, (body,), r),
    ensures
        r is Ok <==> body@.len() >= 8,
        r matches Ok(resp) ==> {
            &&& resp.structure_size == crate::wire::le16_at(body@, 0)
            &&& resp.output_buffer_offset == crate::wire::le16_at(body@, 2)
            &&& resp.output_buffer_length == crate::wire::le32_at(body@, 4)
            &&& resp.buffer@ == body@.skip(8)
        },
{
}

/// Where a response's fields are written.
pub proof fn law_responses_as_written(resp: QueryInfoResponse)
    ensures
        ({
            let body = resp.encoded();
            &&& body.len() == 8 + resp.buffer@.len()
            &&& resp.structure_size == crate::wire::le16_at(body, 0)
            &&& resp.output_buffer_offset == crate::wire::le16_at(body, 2)
            &&& resp.output_buffer_length == crate::wire::le32_at(body, 4)
            &&& resp.buffer@ == body.skip(8)
        }),
{
    law_response_reads_back(resp);
}

/// A response carries its whole buffer, unchanged, behind eight bytes that say
/// where it stands and how long it is.
#[verifier::spinoff_prover]
#[verifier::rlimit(60)]
pub proof fn law_response_carries_its_buffer(buffer: Seq<u8>)
    ensures
        ({
            let body = query_info_response(buffer);
            &&& body.len() == 8 + buffer.len()
            &&& crate::wire::le16_at(body, 0) == 9
            &&& crate::wire::le16_at(body, 2) == 72
            &&& buffer.len() <= u32::MAX ==> crate::wire::le32_at(body, 4) == buffer.len()
            &&& body.skip(8) == buffer
        }),
{
    let body = query_info_response(buffer);
    assert(body.subrange(0, 2) =~= crate::wire::le16(9));
    crate::wire::le16_reads_back(9, body, 0);
    assert(body.subrange(2, 4) =~= crate::wire::le16(72));
    crate::wire::le16_reads_back(72, body, 2);
    assert(body.subrange(4, 8) =~= crate::wire::le32(buffer.len() as u32));
    crate::wire::le32_reads_back(buffer.len() as u32, body, 4);
    assert(body.skip(8) =~= buffer);
}

} // verus!

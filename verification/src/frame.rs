//! The framing of SMB2 over TCP: each message follows a 4-byte header, a zero
//! byte and the message's length in 24 bits, most significant byte first.

use vstd::prelude::*;

verus! {

/// Length of the header in front of every message.
pub const FRAME_HEADER_LEN: usize = 4;

/// The largest message that a header can announce.
pub const MAX_FRAME_LEN: usize = 0xFF_FFFF;

/// Why four bytes are not a frame header.
#[derive(Debug, Clone, Copy, PartialEq, Eq, Structural)]
pub enum FrameHeaderError {
    /// The first byte, here given, is not zero.
    NonZeroType(u8),
}

/// What a frame header says: the length of the message that follows.
pub open spec fn header_of(h: Seq<u8>) -> Result<u32, FrameHeaderError> {
    if h[0] != 0 {
        Err(FrameHeaderError::NonZeroType(h[0]))
    } else {
        Ok((0x1_0000 * h[1] + 0x100 * h[2] + h[3]) as u32)
    }
}

/// The bytes that carry `payload`: its header, then itself.
pub open spec fn framed(payload: Seq<u8>) -> Seq<u8> {
    let n = payload.len();
    seq![0u8, (n / 0x1_0000) as u8, (n / 0x100 % 0x100) as u8, (n % 0x100) as u8] + payload
}

/// Decodes a frame header.
pub fn decode_frame_header(hdr: &[u8; 4]) -> (r: Result<u32, FrameHeaderError>)
    ensures
        r == header_of(hdr@),
        r matches Ok(n) ==> n <= MAX_FRAME_LEN,
{
    if hdr[0] != 0 {
        Err(FrameHeaderError::NonZeroType(hdr[0]))
    } else {
        Ok(0x1_0000 * hdr[1] as u32 + 0x100 * hdr[2] as u32 + hdr[3] as u32)
    }
}

/// Appends `payload` with its header to `out`. A header has no room for a
/// length above `MAX_FRAME_LEN`.
pub fn encode_frame(payload: &[u8], out: &mut Vec<u8>)
    requires
        payload@.len() <= MAX_FRAME_LEN,
    ensures
        final(out)@ == old(out)@ + framed(payload@),
{
    let n: usize = payload.len();
    out.push(0);
    out.push((n / 0x1_0000) as u8);
    out.push((n / 0x100 % 0x100) as u8);
    out.push((n % 0x100) as u8);
    out.extend_from_slice(payload);
    assert(out@ =~= old(out)@ + framed(payload@));
}

/// Why a frame could not be read; `E` is the transport's own error.
#[derive(Debug)]
pub enum FrameError<E> {
    /// The stream ended inside a frame.
    Truncated,
    /// The header is malformed.
    BadHeader(FrameHeaderError),
    /// The transport failed.
    Io(E),
}

/// How the read of a header ended.
#[derive(Debug)]
pub enum HeaderRead<E> {
    /// All four bytes came.
    Complete([u8; 4]),
    /// The stream ended after `received` bytes of the header.
    Eof { received: usize },
    /// The transport failed.
    Failed(E),
}

/// How the read of a payload ended.
#[derive(Debug)]
pub enum PayloadRead<E> {
    /// The whole payload came.
    Complete(Vec<u8>),
    /// The stream ended before the payload was complete.
    Eof,
    /// The transport failed.
    Failed(E),
}

/// What to do once the read of a header has ended.
#[derive(Debug)]
pub enum AfterHeader<E> {
    /// There is no payload to read: this is the outcome.
    Finished(Result<Option<Vec<u8>>, FrameError<E>>),
    /// Read a payload of this many bytes.
    ReadPayload(u32),
}

/// Decides on a header. A stream that ends in front of a frame has ended
/// cleanly and gives `Ok(None)`; one that ends inside the header is cut off.
pub fn after_header<E>(header: HeaderRead<E>) -> (next: AfterHeader<E>)
    ensures
        next == match header {
            HeaderRead::Complete(h) => match header_of(h@) {
                Ok(n) => AfterHeader::ReadPayload(n),
                Err(e) => AfterHeader::Finished(Err(FrameError::BadHeader(e))),
            },
            HeaderRead::Eof { received } => if received == 0 {
                AfterHeader::Finished(Ok(None))
            } else {
                AfterHeader::Finished(Err(FrameError::Truncated))
            },
            HeaderRead::Failed(e) => AfterHeader::Finished(Err(FrameError::Io(e))),
        },
        next matches AfterHeader::ReadPayload(n) ==> n <= MAX_FRAME_LEN,
{
    match header {
        HeaderRead::Complete(h) => match decode_frame_header(&h) {
            Ok(n) => AfterHeader::ReadPayload(n),
            Err(e) => AfterHeader::Finished(Err(FrameError::BadHeader(e))),
        },
        HeaderRead::Eof { received } => {
            if received == 0 {
                AfterHeader::Finished(Ok(None))
            } else {
                AfterHeader::Finished(Err(FrameError::Truncated))
            }
        },
        HeaderRead::Failed(e) => AfterHeader::Finished(Err(FrameError::Io(e))),
    }
}

/// Decides on a payload.
pub fn after_payload<E>(payload: PayloadRead<E>) -> (r: Result<Option<Vec<u8>>, FrameError<E>>)
    ensures
        r == match payload {
            PayloadRead::Complete(bytes) => Ok(Some(bytes)),
            PayloadRead::Eof => Err(FrameError::Truncated),
            PayloadRead::Failed(e) => Err(FrameError::Io(e)),
        },
{
    match payload {
        PayloadRead::Complete(bytes) => Ok(Some(bytes)),
        PayloadRead::Eof => Err(FrameError::Truncated),
        PayloadRead::Failed(e) => Err(FrameError::Io(e)),
    }
}

/// The outcome of reading one frame from a stream that delivers `s` and ends.
pub open spec fn frame_of<E>(s: Seq<u8>) -> Result<Option<Seq<u8>>, FrameError<E>> {
    if s.len() == 0 {
        Ok(None)
    } else if s.len() < FRAME_HEADER_LEN {
        Err(FrameError::Truncated)
    } else {
        match header_of(s) {
            Err(e) => Err(FrameError::BadHeader(e)),
            Ok(n) => if s.len() < FRAME_HEADER_LEN + n {
                Err(FrameError::Truncated)
            } else {
                Ok(Some(s.subrange(FRAME_HEADER_LEN as int, FRAME_HEADER_LEN + n)))
            },
        }
    }
}

/// How many bytes of `s` reading one frame takes.
pub open spec fn frame_extent(s: Seq<u8>) -> int {
    if s.len() < FRAME_HEADER_LEN {
        s.len() as int
    } else {
        match header_of(s) {
            Err(_) => FRAME_HEADER_LEN as int,
            Ok(n) => if s.len() < FRAME_HEADER_LEN + n {
                s.len() as int
            } else {
                FRAME_HEADER_LEN + n
            },
        }
    }
}

/// A read outcome, with the payload as a sequence.
pub open spec fn outcome_view<E>(r: Result<Option<Vec<u8>>, FrameError<E>>) -> Result<
    Option<Seq<u8>>,
    FrameError<E>,
> {
    match r {
        Ok(Some(bytes)) => Ok(Some(bytes@)),
        Ok(None) => Ok(None),
        Err(e) => Err(e),
    }
}

/// Reads one frame's payload, without the header, from a stream whose
/// remaining bytes are all in `stream`; also says how many bytes that took.
///
/// `Ok(None)` on a clean end of the stream, `Ok(Some(bytes))` on a complete
/// frame, `Err` on partial or garbled data.
pub fn read_one_frame<E>(stream: &[u8]) -> (r: (Result<Option<Vec<u8>>, FrameError<E>>, usize))
    ensures
        outcome_view(r.0) == frame_of::<E>(stream@),
        r.1 == frame_extent(stream@),
{
    let len: usize = stream.len();
    let header: HeaderRead<E> = if len < FRAME_HEADER_LEN {
        HeaderRead::Eof { received: len }
    } else {
        HeaderRead::Complete([stream[0], stream[1], stream[2], stream[3]])
    };
    match after_header(header) {
        AfterHeader::Finished(outcome) => {
            let taken: usize = if len < FRAME_HEADER_LEN { len } else { FRAME_HEADER_LEN };
            (outcome, taken)
        },
        AfterHeader::ReadPayload(n) => {
            let n: usize = n as usize;
            if len - FRAME_HEADER_LEN < n {
                (after_payload(PayloadRead::Eof), len)
            } else {
                let payload = vstd::slice::slice_to_vec(
                    vstd::slice::slice_subrange(stream, FRAME_HEADER_LEN, FRAME_HEADER_LEN + n),
                );
                (after_payload(PayloadRead::Complete(payload)), FRAME_HEADER_LEN + n)
            }
        },
    }
}

/// What is framed is read back: from a stream that begins with a framed
/// payload, one read gives that payload and takes just its frame.
pub proof fn law_framed_payload_reads_back<E>(payload: Seq<u8>, rest: Seq<u8>)
    requires
        payload.len() <= MAX_FRAME_LEN,
    ensures
        frame_of::<E>(framed(payload) + rest) == Ok::<Option<Seq<u8>>, FrameError<E>>(
            Some(payload),
        ),
        frame_extent(framed(payload) + rest) == framed(payload).len(),
{
    let s = framed(payload) + rest;
    header_of_framed(payload, rest);
    assert(s.subrange(4, (4 + payload.len()) as int) =~= payload);
}

/// The bytes that carry these payloads, one after the other.
pub open spec fn framed_all(payloads: Seq<Seq<u8>>) -> Seq<u8>
    decreases payloads.len(),
{
    if payloads.len() == 0 {
        Seq::empty()
    } else {
        framed(payloads[0]) + framed_all(payloads.drop_first())
    }
}

/// What reading frame by frame gives of a stream that delivers `s` and ends:
/// the payloads, and whether the stream ended cleanly or what stopped the
/// reading.
pub open spec fn frames_of<E>(s: Seq<u8>) -> (Seq<Seq<u8>>, Result<(), FrameError<E>>)
    decreases s.len(),
{
    match frame_of::<E>(s) {
        Ok(Some(payload)) => {
            let (payloads, end) = frames_of::<E>(s.skip(frame_extent(s)));
            (seq![payload] + payloads, end)
        },
        Ok(None) => (Seq::empty(), Ok(())),
        Err(e) => (Seq::empty(), Err(e)),
    }
}

/// A client's frames are read as they were sent: reading frame by frame gives
/// the payloads in order, each once, and then what follows them; if nothing
/// does, the stream has ended cleanly.
pub proof fn law_framed_payloads_read_back<E>(payloads: Seq<Seq<u8>>, rest: Seq<u8>)
    requires
        forall|i: int|
            0 <= i < payloads.len() ==> (#[trigger] payloads[i]).len() <= MAX_FRAME_LEN,
    ensures
        frames_of::<E>(framed_all(payloads) + rest).0 == payloads + frames_of::<E>(rest).0,
        frames_of::<E>(framed_all(payloads) + rest).1 == frames_of::<E>(rest).1,
        frames_of::<E>(framed_all(payloads)) == (payloads, Ok::<(), FrameError<E>>(())),
{
    framed_payloads_in_front::<E>(payloads, rest);
    framed_payloads_in_front::<E>(payloads, Seq::empty());
    assert(framed_all(payloads) + Seq::<u8>::empty() =~= framed_all(payloads));
    assert(payloads + frames_of::<E>(Seq::empty()).0 =~= payloads);
}

proof fn framed_payloads_in_front<E>(payloads: Seq<Seq<u8>>, rest: Seq<u8>)
    requires
        forall|i: int|
            0 <= i < payloads.len() ==> (#[trigger] payloads[i]).len() <= MAX_FRAME_LEN,
    ensures
        frames_of::<E>(framed_all(payloads) + rest).0 == payloads + frames_of::<E>(rest).0,
        frames_of::<E>(framed_all(payloads) + rest).1 == frames_of::<E>(rest).1,
    decreases payloads.len(),
{
    if payloads.len() == 0 {
        assert(framed_all(payloads) + rest =~= rest);
        assert(payloads + frames_of::<E>(rest).0 =~= frames_of::<E>(rest).0);
    } else {
        let others = payloads.drop_first();
        let behind = framed_all(others) + rest;
        let s = framed(payloads[0]) + behind;
        assert(framed_all(payloads) + rest =~= s);
        law_framed_payload_reads_back::<E>(payloads[0], behind);
        assert(s.skip(frame_extent(s)) =~= behind);
        framed_payloads_in_front::<E>(others, rest);
        assert(payloads + frames_of::<E>(rest).0 =~= seq![payloads[0]] + (others + frames_of::<E>(
            rest,
        ).0));
    }
}

/// A frame that is cut off is an error, wherever the cut is; a stream that
/// ends in front of a frame is not.
pub proof fn law_cut_frame_is_an_error<E>(payload: Seq<u8>, cut: int)
    requires
        payload.len() <= MAX_FRAME_LEN,
        0 <= cut < framed(payload).len(),
    ensures
        frame_of::<E>(framed(payload).take(cut)) == if cut == 0 {
            Ok::<Option<Seq<u8>>, FrameError<E>>(None)
        } else {
            Err(FrameError::Truncated)
        },
{
    let s = framed(payload).take(cut);
    if cut >= 4 {
        header_of_framed(payload, Seq::empty());
        assert(framed(payload) + Seq::<u8>::empty() =~= framed(payload));
        assert(s[0] == framed(payload)[0] && s[1] == framed(payload)[1]);
        assert(s[2] == framed(payload)[2] && s[3] == framed(payload)[3]);
    }
}

proof fn header_of_framed(payload: Seq<u8>, rest: Seq<u8>)
    requires
        payload.len() <= MAX_FRAME_LEN,
    ensures
        header_of(framed(payload) + rest) == Ok::<u32, FrameHeaderError>(payload.len() as u32),
{
    let n = payload.len();
    assert(n / 0x1_0000 < 0x100);
    assert(0x1_0000 * (n / 0x1_0000) + 0x100 * (n / 0x100 % 0x100) + n % 0x100 == n);
}

/// What a header says: its first byte must be zero, and the others are the
/// length, most significant byte first.
pub proof fn law_headers(hdr: [u8; 4], r: Result<u32, FrameHeaderError>)
    requires
        call_ensures(decode_frame_header, (&hdr,), r),
    ensures
        r is Ok <==> hdr@[0] == 0,
        r matches Ok(n) ==> n == 0x1_0000 * hdr@[1] + 0x100 * hdr@[2] + hdr@[3],
        r matches Err(FrameHeaderError::NonZeroType(first)) ==> first == hdr@[0],
{
}

/// The frame of a payload: a zero byte, the length in three bytes, most
/// significant byte first, and the payload itself.
pub proof fn law_frames_as_written(payload: Seq<u8>)
    requires
        payload.len() <= 0xFF_FFFF,
    ensures
        framed(payload).len() == 4 + payload.len(),
        framed(payload)[0] == 0,
        payload.len() == 0x1_0000 * framed(payload)[1] + 0x100 * framed(payload)[2] + framed(
            payload,
        )[3],
        framed(payload).skip(4) == payload,
{
    header_of_framed(payload, Seq::empty());
    assert(framed(payload) + Seq::<u8>::empty() =~= framed(payload));
    assert(framed(payload).skip(4) =~= payload);
}

/// What reading one frame gives, by the bytes of the stream. A stream that is
/// at its end has ended cleanly; one with fewer than four bytes left, or fewer
/// than its header announces, is cut off; a header that does not begin with
/// zero is bad, whatever follows. Otherwise the payload is what the header
/// announces, no more and no less, and just the frame is taken.
pub proof fn law_one_frame<E>(
    stream: &[u8],
    r: Result<Option<Vec<u8>>, FrameError<E>>,
    taken: usize,
)
    requires
        call_ensures(read_one_frame::<E>, (stream,), (r, taken)),
    ensures
        ({
            let s = stream@;
            let announced = 0x1_0000 * s[1] + 0x100 * s[2] + s[3];
            &&& taken <= s.len()
            &&& s.len() == 0 ==> r == Ok::<Option<Vec<u8>>, FrameError<E>>(None)
            &&& 0 < s.len() < 4 ==> r == Err::<Option<Vec<u8>>, FrameError<E>>(
                FrameError::Truncated,
            )
            &&& s.len() >= 4 && s[0] != 0 ==> r == Err::<Option<Vec<u8>>, FrameError<E>>(
                FrameError::BadHeader(FrameHeaderError::NonZeroType(s[0])),
            )
            &&& s.len() >= 4 && s[0] == 0 && s.len() < 4 + announced ==> r == Err::<
                Option<Vec<u8>>,
                FrameError<E>,
            >(FrameError::Truncated)
            &&& s.len() >= 4 && s[0] == 0 && s.len() >= 4 + announced ==> {
                &&& r is Ok
                &&& r->Ok_0 is Some
                &&& r->Ok_0->0@ == s.subrange(4, 4 + announced)
                &&& taken == 4 + announced
            }
        }),
{
}

/// What follows the read of a header: an error of the transport is passed on,
/// an end in front of the header is a clean one, an end inside it is not, and a
/// good header is followed by the payload that it announces.
pub proof fn law_after_a_header<E>(header: HeaderRead<E>, next: AfterHeader<E>)
    requires
        call_ensures(after_header::<E>, (header,), next),
    ensures
        header matches HeaderRead::Failed(e) ==> next == AfterHeader::<E>::Finished(
            Err(FrameError::Io(e)),
        ),
        header matches HeaderRead::Eof { received } ==> {
            &&& received == 0 ==> next == AfterHeader::<E>::Finished(Ok(None))
            &&& received > 0 ==> next == AfterHeader::<E>::Finished(Err(FrameError::Truncated))
        },
        header matches HeaderRead::Complete(h) ==> {
            &&& h@[0] == 0 ==> next is ReadPayload && next->ReadPayload_0 == 0x1_0000 * h@[1]
                + 0x100 * h@[2] + h@[3]
            &&& h@[0] != 0 ==> next == AfterHeader::<E>::Finished(
                Err(FrameError::BadHeader(FrameHeaderError::NonZeroType(h@[0]))),
            )
        },
{
}

/// What follows the read of a payload: a whole one is the frame, an end inside
/// it cuts the frame off, an error of the transport is passed on.
pub proof fn law_after_a_payload<E>(
    payload: PayloadRead<E>,
    r: Result<Option<Vec<u8>>, FrameError<E>>,
)
    requires
        call_ensures(after_payload::<E>, (payload,), r),
    ensures
        payload matches PayloadRead::Complete(bytes) ==> r == Ok::<
            Option<Vec<u8>>,
            FrameError<E>,
        >(Some(bytes)),
        payload is Eof ==> r == Err::<Option<Vec<u8>>, FrameError<E>>(FrameError::Truncated),
        payload matches PayloadRead::Failed(e) ==> r == Err::<Option<Vec<u8>>, FrameError<E>>(
            FrameError::Io(e),
        ),
{
}

} // verus!

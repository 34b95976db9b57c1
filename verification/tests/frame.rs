//! Frames on a byte stream.

use smb_server::frame::{
    after_header, after_payload, decode_frame_header, encode_frame, read_one_frame, AfterHeader,
    FrameError, FrameHeaderError, HeaderRead, PayloadRead,
};

#[test]
fn a_header_is_a_zero_byte_and_a_big_endian_length() {
    assert_eq!(decode_frame_header(&[0, 0x01, 0x02, 0x03]), Ok(0x01_02_03));
    assert_eq!(decode_frame_header(&[0, 0xFF, 0xFF, 0xFF]), Ok(0xFF_FFFF));
    assert_eq!(
        decode_frame_header(&[0x85, 0, 0, 4]),
        Err(FrameHeaderError::NonZeroType(0x85))
    );
}

#[test]
fn an_encoded_frame_is_its_header_and_its_payload() {
    let mut out = vec![7u8];
    encode_frame(&[1, 2, 3], &mut out);
    assert_eq!(out, vec![7, 0, 0, 0, 3, 1, 2, 3]);
    let mut long = Vec::new();
    encode_frame(&vec![9u8; 0x1_0203], &mut long);
    assert_eq!(&long[..4], &[0, 1, 2, 3]);
}

#[test]
fn frames_are_read_back_one_after_the_other() {
    let mut stream = Vec::new();
    encode_frame(b"first", &mut stream);
    encode_frame(b"", &mut stream);
    encode_frame(b"third", &mut stream);
    let mut rest: &[u8] = &stream;
    let mut seen = Vec::new();
    loop {
        let (outcome, taken) = read_one_frame::<()>(rest);
        rest = &rest[taken..];
        match outcome {
            Ok(Some(payload)) => seen.push(payload),
            Ok(None) => break,
            Err(e) => panic!("{e:?}"),
        }
    }
    assert_eq!(seen, vec![b"first".to_vec(), b"".to_vec(), b"third".to_vec()]);
}

#[test]
fn a_stream_that_ends_inside_a_frame_is_truncated() {
    let mut stream = Vec::new();
    encode_frame(&[0u8; 100], &mut stream);
    for cut in 1..stream.len() {
        let (outcome, taken) = read_one_frame::<()>(&stream[..cut]);
        assert!(matches!(outcome, Err(FrameError::Truncated)), "cut at {cut}");
        assert_eq!(taken, cut);
    }
    assert!(matches!(read_one_frame::<()>(&[]), (Ok(None), 0)));
}

#[test]
fn a_garbled_header_is_an_error() {
    let (outcome, taken) = read_one_frame::<()>(&[1, 0, 0, 0, 5]);
    assert!(matches!(
        outcome,
        Err(FrameError::BadHeader(FrameHeaderError::NonZeroType(1)))
    ));
    assert_eq!(taken, 4);
}

#[test]
fn transport_errors_pass_through() {
    assert!(matches!(
        after_header(HeaderRead::Failed("reset")),
        AfterHeader::Finished(Err(FrameError::Io("reset")))
    ));
    assert!(matches!(
        after_payload(PayloadRead::Failed("reset")),
        Err(FrameError::Io("reset"))
    ));
    assert!(matches!(
        after_header::<()>(HeaderRead::Complete([0, 0, 0, 9])),
        AfterHeader::ReadPayload(9)
    ));
    assert!(matches!(after_payload::<()>(PayloadRead::Eof), Err(FrameError::Truncated)));
}

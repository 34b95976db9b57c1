//! Chains of stream entries, and their truncation.

use smb_server::info_class::FileInfo;
use smb_server::streams::{
    encode_file_stream_information, truncate_file_stream_information, StreamInfo,
};

fn info() -> FileInfo {
    FileInfo {
        name: "f".to_string(),
        end_of_file: 5,
        allocation_size: 8,
        creation_time: 0,
        last_access_time: 0,
        last_write_time: 0,
        change_time: 0,
        is_directory: false,
        file_index: 0,
    }
}

fn named(name: &str) -> StreamInfo {
    StreamInfo { name: name.to_string(), size: 1, allocation_size: 2 }
}

#[test]
fn entries_are_linked_and_padded() {
    let chain = encode_file_stream_information(&info(), Some(&[named("x")]));
    // 38 bytes of `::$DATA`, two of padding, 40 of `:x:$DATA`.
    assert_eq!(chain.len(), 80);
    assert_eq!(&chain[..8], &[40, 0, 0, 0, 14, 0, 0, 0]);
    assert_eq!(&chain[8..24], &[5, 0, 0, 0, 0, 0, 0, 0, 8, 0, 0, 0, 0, 0, 0, 0]);
    assert_eq!(&chain[24..40], b":\0:\0$\0D\0A\0T\0A\0\0\0");
    assert_eq!(&chain[40..48], &[0, 0, 0, 0, 16, 0, 0, 0]);
    assert_eq!(&chain[48..64], &[1, 0, 0, 0, 0, 0, 0, 0, 2, 0, 0, 0, 0, 0, 0, 0]);
    assert_eq!(&chain[64..], b":\0x\0:\0$\0D\0A\0T\0A\0");
}

#[test]
fn truncation_gives_the_chain_of_the_entries_that_fit() {
    let streams = [named("aaa"), named("b"), named("cc")];
    let full = encode_file_stream_information(&info(), Some(&streams));
    let mut whole = vec![encode_file_stream_information(&info(), None)];
    for k in 1..=streams.len() {
        whole.push(encode_file_stream_information(&info(), Some(&streams[..k])));
    }
    for room in 0..=full.len() as u32 {
        let expected = whole.iter().rev().find(|c| c.len() as u32 <= room).cloned();
        assert_eq!(truncate_file_stream_information(&full, room), expected, "room {room}");
    }
}

#[test]
fn truncation_of_a_broken_chain_keeps_to_its_bytes() {
    assert_eq!(truncate_file_stream_information(&[], 100), None);
    assert_eq!(truncate_file_stream_information(&[0u8; 23], 100), None);
    assert_eq!(truncate_file_stream_information(&[0u8; 24], 100), Some(vec![0u8; 24]));
    let mut far = vec![0u8; 24];
    far[0] = 200;
    assert_eq!(truncate_file_stream_information(&far, 100), Some(vec![0u8; 24]));
    let mut long_name = vec![0u8; 24];
    long_name[4] = 1;
    assert_eq!(truncate_file_stream_information(&long_name, 100), None);
}

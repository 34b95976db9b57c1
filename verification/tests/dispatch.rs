//! Which frames are barriers.

use smb_server::dispatch::{command_is_setup, frame_must_be_serialized};

fn link(command: u16, next_command: u32) -> Vec<u8> {
    let mut h = vec![0u8; 64];
    h[12..14].copy_from_slice(&command.to_le_bytes());
    h[20..24].copy_from_slice(&next_command.to_le_bytes());
    h
}

#[test]
fn the_first_five_commands_are_setup_commands() {
    for command in 0..=4u16 {
        assert!(command_is_setup(command));
        assert!(frame_must_be_serialized(&link(command, 0)));
    }
    for command in 5..=18u16 {
        assert!(!command_is_setup(command));
        assert!(!frame_must_be_serialized(&link(command, 0)));
    }
}

#[test]
fn the_whole_compound_chain_counts() {
    let mut frame = link(5, 72);
    frame.extend_from_slice(&[0u8; 8]);
    frame.extend_from_slice(&link(8, 64));
    frame.extend_from_slice(&link(6, 0));
    assert!(!frame_must_be_serialized(&frame));
    frame[136 + 12] = 3;
    assert!(frame_must_be_serialized(&frame));
}

#[test]
fn a_chain_ends_where_the_frame_does() {
    assert!(!frame_must_be_serialized(&[]));
    assert!(!frame_must_be_serialized(&link(0, 0)[..63]));
    assert!(!frame_must_be_serialized(&link(8, u32::MAX)));
    let mut frame = link(8, 64);
    frame.extend_from_slice(&link(0, 0)[..63]);
    assert!(!frame_must_be_serialized(&frame));
}

//! Truncation by allocation and by end of file.

use smb_server::ntstatus::STATUS_INFO_LENGTH_MISMATCH;
use smb_server::set_info::{set_allocation, set_end_of_file};

const SEED: &[u8] = b"seed content";

/// The contents of a file that held `SEED`, after an effect.
fn contents(effect: Result<Option<u64>, u32>) -> Vec<u8> {
    let mut file = SEED.to_vec();
    if let Ok(Some(len)) = effect {
        file.resize(len as usize, 0);
    }
    file
}

#[test]
fn shrinking_allocation_to_zero_truncates_the_file() {
    let effect = set_allocation(&0u64.to_le_bytes(), SEED.len() as u64);
    assert_eq!(effect, Ok(Some(0)));
    assert!(contents(effect).is_empty());
}

#[test]
fn shrinking_allocation_below_end_of_file_truncates_to_it() {
    let effect = set_allocation(&4u64.to_le_bytes(), SEED.len() as u64);
    assert_eq!(effect, Ok(Some(4)));
    assert_eq!(contents(effect), b"seed");
}

#[test]
fn growing_allocation_is_a_successful_no_op() {
    for allocation in [SEED.len() as u64, 4096, u64::MAX] {
        let effect = set_allocation(&allocation.to_le_bytes(), SEED.len() as u64);
        assert_eq!(effect, Ok(None), "allocation {allocation}");
        assert_eq!(
            contents(effect),
            SEED,
            "allocation {allocation} must not preallocate or truncate"
        );
    }
}

#[test]
fn allocation_buffer_shorter_than_eight_bytes_is_a_length_mismatch() {
    let effect = set_allocation(&[0u8; 4], SEED.len() as u64);
    assert_eq!(effect, Err(STATUS_INFO_LENGTH_MISMATCH));
    assert_eq!(contents(effect), SEED);
}

#[test]
fn end_of_file_information_still_truncates() {
    let effect = set_end_of_file(&0u64.to_le_bytes());
    assert_eq!(effect, Ok(Some(0)));
    assert!(contents(effect).is_empty());
}

#[test]
fn end_of_file_information_can_grow_a_file() {
    assert_eq!(set_end_of_file(&20u64.to_le_bytes()), Ok(Some(20)));
    assert_eq!(set_end_of_file(&[0u8; 7]), Err(STATUS_INFO_LENGTH_MISMATCH));
}

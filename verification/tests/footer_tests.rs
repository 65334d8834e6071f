//! Trailer parsing against constructed byte buffers.

use storynode_core::footer::{embedded_archive, parse_trailer};

fn with_trailer(mut payload: Vec<u8>, announced: u64) -> Vec<u8> {
    let mut data = Vec::new();
    data.append(&mut payload);
    data.extend_from_slice(&announced.to_le_bytes());
    data.extend_from_slice(b"SNPK");
    data
}

#[test]
fn short_file_is_absent() {
    assert_eq!(parse_trailer(&vec![]), None);
    assert_eq!(parse_trailer(&vec![0u8; 11]), None);
    // eleven bytes ending in the magic are still too short
    let mut data = vec![0u8; 7];
    data.extend_from_slice(b"SNPK");
    assert_eq!(parse_trailer(&data), None);
}

#[test]
fn bad_magic_is_absent() {
    // whatever the eight size bytes say, a wrong magic means absence
    let mut data = vec![5u8, 0, 0, 0, 0, 0, 0, 0];
    data.extend_from_slice(b"SNPX");
    assert_eq!(parse_trailer(&data), None);
    let mut data2 = vec![0xffu8; 8];
    data2.extend_from_slice(b"snpk");
    assert_eq!(parse_trailer(&data2), None);
}

#[test]
fn wellformed_trailer_reads_size() {
    let payload = vec![10u8, 20, 30, 40, 50];
    let data = with_trailer(payload.clone(), 5);
    assert_eq!(parse_trailer(&data), Some(5));
    // the archive is exactly the bytes between len-12-n and len-12
    assert_eq!(embedded_archive(&data), Some(payload));
}

#[test]
fn little_endian_size_field() {
    let data = with_trailer(vec![0u8; 513], 513);
    assert_eq!(parse_trailer(&data), Some(513));
    assert_eq!(data[data.len() - 12], 0x01);
    assert_eq!(data[data.len() - 11], 0x02);
}

#[test]
fn announced_size_beyond_file_is_absent() {
    // the trailer parses, but the archive cannot be sliced out
    let data = with_trailer(vec![1u8, 2, 3], 500);
    assert_eq!(parse_trailer(&data), Some(500));
    assert_eq!(embedded_archive(&data), None);
}

#[test]
fn archive_in_middle_of_larger_file() {
    let mut data = vec![9u8; 100];
    data.extend_from_slice(&[7u8, 8, 9]);
    data.extend_from_slice(&3u64.to_le_bytes());
    data.extend_from_slice(b"SNPK");
    assert_eq!(embedded_archive(&data), Some(vec![7u8, 8, 9]));
}

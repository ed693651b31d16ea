use railscale::capture::{write_epb, write_idb, write_shb, CaptureRotation, Direction};

#[test]
fn section_header_block_bytes() {
    let mut w = Vec::new();
    write_shb(&mut w);
    let mut expected = Vec::new();
    expected.extend_from_slice(&0x0A0D0D0Au32.to_le_bytes());
    expected.extend_from_slice(&28u32.to_le_bytes());
    expected.extend_from_slice(&0x1A2B3C4Du32.to_le_bytes());
    expected.extend_from_slice(&1u16.to_le_bytes());
    expected.extend_from_slice(&0u16.to_le_bytes());
    expected.extend_from_slice(&(-1i64).to_le_bytes());
    expected.extend_from_slice(&28u32.to_le_bytes());
    assert_eq!(w, expected);
    assert_eq!(w.len(), 28);
}

#[test]
fn interface_description_block_bytes() {
    let mut w = vec![9u8];
    write_idb(&mut w);
    assert_eq!(w, vec![9, 1, 0, 0, 0, 20, 0, 0, 0, 147, 0, 0, 0, 0, 0, 0, 0, 20, 0, 0, 0]);
}

#[test]
fn enhanced_packet_block_bytes() {
    let mut w = Vec::new();
    write_epb(&mut w, 0, 0x0000_0001_0000_0002, b"hello", "req", 7);
    // comment "req conn=7" is 10 bytes, padded to 12; data padded to 8
    let total: u32 = 32 + 8 + 4 + 12 + 4;
    let mut e = Vec::new();
    e.extend_from_slice(&6u32.to_le_bytes());
    e.extend_from_slice(&total.to_le_bytes());
    e.extend_from_slice(&0u32.to_le_bytes());
    e.extend_from_slice(&1u32.to_le_bytes());
    e.extend_from_slice(&2u32.to_le_bytes());
    e.extend_from_slice(&5u32.to_le_bytes());
    e.extend_from_slice(&5u32.to_le_bytes());
    e.extend_from_slice(b"hello\0\0\0");
    e.extend_from_slice(&1u16.to_le_bytes());
    e.extend_from_slice(&10u16.to_le_bytes());
    e.extend_from_slice(b"req conn=7\0\0");
    e.extend_from_slice(&0u16.to_le_bytes());
    e.extend_from_slice(&0u16.to_le_bytes());
    e.extend_from_slice(&total.to_le_bytes());
    assert_eq!(w, e);
    assert_eq!(w.len() as u32, total);
    assert_eq!(w.len() % 4, 0);
}

#[test]
fn packet_block_without_padding() {
    let mut w = Vec::new();
    write_epb(&mut w, 3, 5, b"abcd", "resp", 18446744073709551615);
    // "resp conn=18446744073709551615" is 30 bytes, padded to 32
    let total = 32 + 4 + 4 + 32 + 4;
    assert_eq!(w.len(), total);
    assert_eq!(&w[4..8], &(total as u32).to_le_bytes());
    assert_eq!(&w[w.len() - 4..], &(total as u32).to_le_bytes());
    assert_eq!(&w[28..32], b"abcd");
    assert_eq!(&w[36..66], b"resp conn=18446744073709551615");
}

#[test]
fn directions_read_as_written() {
    assert_eq!(Direction::Request.as_str(), "req");
    assert_eq!(Direction::Response.as_str(), "resp");
}

#[test]
fn capture_file_closes_after_ten_requests() {
    let mut r = CaptureRotation::new();
    for _ in 0..9 {
        assert!(!r.after_packet("req"));
        assert!(!r.after_packet("resp"));
    }
    assert!(!r.after_packet("req"));
    assert!(r.after_packet("resp"));
    assert!(!r.after_packet("req"));
    assert!(!r.after_packet("resp"));
    assert!(!r.after_packet("other"));
}

#[test]
fn capture_files_are_named_by_turnout_time_and_index() {
    assert_eq!(
        railscale::capture::capture_file_name("edge", "20240102-030405", 12),
        "railscale-edge-20240102-030405-12.pcapng"
    );
}

#[test]
fn rotation_counts_requests_only() {
    let mut r = railscale::capture::CaptureRotation::new();
    assert!(!r.after_packet("resp"));
    assert!(!r.after_packet("req"));
    assert!(!r.after_packet("other"));
    assert_eq!(r.request_count(), 1);
}

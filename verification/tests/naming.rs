use k21_node::chunk::Chunk;
use k21_node::naming::{chunk_file_name, decimal, screenshot_file_name};

#[test]
fn numbers_in_decimal() {
    assert_eq!(decimal(0), "0");
    assert_eq!(decimal(7), "7");
    assert_eq!(decimal(10), "10");
    assert_eq!(decimal(909), "909");
    assert_eq!(decimal(1234567890), "1234567890");
    assert_eq!(decimal(u64::MAX), "18446744073709551615");
}

#[test]
fn chunk_files_are_named_by_sequence_and_start() {
    let c = Chunk { sequence: 0, start_ms: 0, end_ms: 10_000, first_frame: 0, last_frame: 10 };
    assert_eq!(chunk_file_name(&c), "chunk_0_0.mp4");
    let c = Chunk {
        sequence: 12,
        start_ms: 11_000,
        end_ms: 21_000,
        first_frame: 11,
        last_frame: 21,
    };
    assert_eq!(chunk_file_name(&c), "chunk_12_11000.mp4");
}

#[test]
fn screenshot_files_are_named_by_frame_and_time() {
    assert_eq!(screenshot_file_name(0, 0), "frame_0_0.png");
    assert_eq!(screenshot_file_name(7, 1500), "frame_7_1500.png");
    assert_ne!(screenshot_file_name(1, 23), screenshot_file_name(12, 3));
}

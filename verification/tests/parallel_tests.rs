use rbd::parallel::{calculate_blocks, ParallelDownloader};
use rbd::range::{accepts_ranges, content_length, parse_total, range_header, range_total, RangeClient};

#[test]
fn test_parallel_downloader_calculates_blocks() {
    let blocks = calculate_blocks(100, 10, 2);
    assert_eq!(blocks.len(), 2);
    assert_eq!(blocks[0], (0, 49));
    assert_eq!(blocks[1], (50, 99));
}

#[test]
fn test_calculate_blocks_respects_num_threads() {
    let blocks = calculate_blocks(100, 10, 8);
    assert!(blocks.len() <= 8);
    assert_eq!(blocks.first().unwrap().0, 0);
    assert_eq!(blocks.last().unwrap().1, 99);
}

#[test]
fn test_calculate_blocks_single_thread() {
    let blocks = calculate_blocks(100, 10, 1);
    assert_eq!(blocks.len(), 1);
    assert_eq!(blocks[0], (0, 99));
}

#[test]
fn test_calculate_blocks_empty() {
    let blocks = calculate_blocks(0, 10, 4);
    assert!(blocks.is_empty());
}

#[test]
fn blocks_cover_with_a_short_last_block() {
    let blocks = calculate_blocks(10, 4, 3);
    assert_eq!(blocks, vec![(0, 3), (4, 7), (8, 9)]);
    let blocks = calculate_blocks(7, 0, 0);
    assert_eq!(blocks, vec![(0, 6)]);
    let blocks = calculate_blocks(5, 1, 10);
    assert_eq!(blocks, vec![(0, 0), (1, 1), (2, 2), (3, 3), (4, 4)]);
}

#[test]
fn test_parallel_downloader_config() {
    let _downloader = ParallelDownloader::new(RangeClient::new())
        .with_num_threads(8)
        .with_block_size(2048);
}

#[test]
fn test_range_client_new() {
    let _client = RangeClient::new();
}

#[test]
fn downloader_settings_and_their_defaults() {
    let d = ParallelDownloader::new(RangeClient::new());
    assert_eq!(d.threads_for(0), 4);
    assert_eq!(d.block_size_for(0), 1048576);
    let d = d.with_num_threads(0).with_block_size(0);
    assert_eq!(d.threads_for(0), 1);
    assert_eq!(d.block_size_for(0), 1);
    assert_eq!(d.threads_for(6), 6);
    assert_eq!(d.block_size_for(512), 512);
}

#[test]
fn blocks_of_the_largest_files() {
    assert_eq!(calculate_blocks(100, 10, 2), vec![(0, 49), (50, 99)]);
    assert_eq!(calculate_blocks(0, 10, 2), Vec::<(u64, u64)>::new());
    assert_eq!(calculate_blocks(u64::MAX, 0, 2), vec![(0, (1u64 << 63) - 1), (1u64 << 63, u64::MAX - 1)]);
    assert_eq!(calculate_blocks(u64::MAX, 0, 1), vec![(0, u64::MAX - 1)]);
    assert_eq!(calculate_blocks(u64::MAX, u64::MAX, 1), vec![(0, u64::MAX - 1)]);
}

#[test]
fn range_headers() {
    assert_eq!(range_header(0, 1023), "bytes=0-1023");
    assert_eq!(parse_total(Some("bytes 0-99/1234")), Some(1234));
    assert_eq!(parse_total(Some("bytes 0-99/*")), None);
    assert_eq!(parse_total(Some("777")), Some(777));
    assert_eq!(parse_total(None), None);
    assert_eq!(range_total(Some(10), 5), 10);
    assert_eq!(range_total(None, 5), 6);
    assert_eq!(range_total(None, u64::MAX), u64::MAX);
    assert_eq!(content_length(Some("4096")), 4096);
    assert_eq!(content_length(Some("x")), 0);
    assert_eq!(content_length(None), 0);
    assert!(accepts_ranges(Some("Bytes")));
    assert!(!accepts_ranges(Some("none")));
    assert!(!accepts_ranges(None));
}

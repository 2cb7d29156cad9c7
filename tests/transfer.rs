use glide::error::SessionError;
use glide::transfer::{chunk_count, loopback, Download, Upload, CHUNK_SIZE};

#[test]
fn chunk_count_rounds_up_a_partial_chunk() {
    assert_eq!(chunk_count(2500, 1024), 3);
}

#[test]
fn chunk_count_of_exactly_one_chunk() {
    assert_eq!(chunk_count(1024, 1024), 1);
}

#[test]
fn chunk_count_of_nothing_is_zero() {
    assert_eq!(chunk_count(0, 1024), 0);
}

#[test]
fn chunk_count_of_largest_size() {
    assert_eq!(chunk_count(u64::MAX, 1), u64::MAX);
    assert_eq!(chunk_count(u64::MAX, 1024), u64::MAX / 1024 + 1);
}

#[test]
fn upload_reads_whole_chunks_then_the_rest() {
    let mut up = Upload::new(2500);
    assert_eq!(up.chunk_count(), 3);
    assert_eq!(up.next_read_len(), CHUNK_SIZE);
    assert_eq!(up.record_read(1024), Some((1, 3)));
    assert_eq!(up.next_read_len(), 1024);
    assert_eq!(up.record_read(1024), Some((2, 3)));
    assert_eq!(up.next_read_len(), 452);
    assert_eq!(up.record_read(452), Some((3, 3)));
    assert!(up.is_done());
    assert_eq!(up.bytes_sent(), 2500);
}

#[test]
fn upload_stops_short_on_empty_read() {
    let mut up = Upload::new(3000);
    assert_eq!(up.record_read(1024), Some((1, 3)));
    assert_eq!(up.record_read(0), None);
    assert!(up.is_done());
    assert_eq!(up.bytes_sent(), 1024);
    assert_eq!(up.chunks_sent(), 1);
}

#[test]
fn upload_of_empty_file_is_done_at_once() {
    let up = Upload::new(0);
    assert_eq!(up.chunk_count(), 0);
    assert!(up.is_done());
}

#[test]
fn download_counts_received_bytes() {
    let mut down = Download::new(1500);
    assert_eq!(down.next_read_len(), 1024);
    assert_eq!(down.record_read(1000), Ok((1000, 1500)));
    assert_eq!(down.next_read_len(), 500);
    assert_eq!(down.record_read(500), Ok((1500, 1500)));
    assert!(down.is_done());
}

#[test]
fn empty_read_mid_download_is_connection_closed() {
    let mut down = Download::new(2048);
    assert_eq!(down.record_read(1024), Ok((1024, 2048)));
    assert_eq!(down.record_read(0), Err(SessionError::ConnectionClosed));
    assert!(!down.is_done());
    assert!(down.received() < down.size());
}

#[test]
fn download_of_empty_file_is_done_at_once() {
    assert!(Download::new(0).is_done());
}

#[test]
fn loopback_returns_identical_bytes() {
    let data: Vec<u8> = (0..5000u32).map(|i| (i * 7 % 251) as u8).collect();
    let next = b"OK_SUCCESS".to_vec();
    let (meta, got, rest) = loopback("notes.txt", &data, &next).unwrap();
    assert_eq!(meta.filename, "notes.txt");
    assert_eq!(meta.size, 5000);
    assert_eq!(got, data);
    assert_eq!(rest, next);
}

#[test]
fn loopback_of_empty_file() {
    let (meta, got, rest) = loopback("empty", &Vec::new(), &b"USERS".to_vec()).unwrap();
    assert_eq!(meta.size, 0);
    assert!(got.is_empty());
    assert_eq!(rest, b"USERS".to_vec());
}

#[test]
fn loopback_trims_name() {
    let (meta, got, _) = loopback(" a b.txt ", &vec![1, 2, 3], &Vec::new()).unwrap();
    assert_eq!(meta.filename, "a b.txt");
    assert_eq!(got, vec![1, 2, 3]);
}

#[test]
fn loopback_with_colon_in_name_is_malformed() {
    assert_eq!(loopback("a:b", &vec![1], &Vec::new()).err(), Some(SessionError::MalformedFrame));
}

#[test]
fn fatal_error_is_only_connection_closed() {
    assert!(SessionError::ConnectionClosed.is_fatal());
    assert!(!SessionError::MalformedFrame.is_fatal());
    assert!(!SessionError::ValidationRejected.is_fatal());
    assert!(!SessionError::ServerRejected.is_fatal());
    assert!(!SessionError::LocalIo.is_fatal());
}
